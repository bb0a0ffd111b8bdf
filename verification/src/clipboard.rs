//! The editor pane's clipboard, joined to the Wayland selection: which mime
//! types count as text, which one to ask a client for, and who owns the
//! selection now.
use vstd::prelude::*;

use crate::text::{lower_seq, to_chars, to_lower, trim, trim_range, slice_of};

verus! {

/// The text the compositor currently holds as its selection, and who last
/// set it.
#[derive(Debug)]
pub struct Clipboard {
    text: String,
    /// True while the compositor owns the selection, i.e. a pane yanked last.
    owned: bool,
}

impl View for Clipboard {
    /// The selection's text, and whether the compositor owns it.
    type V = (Seq<char>, bool);

    closed spec fn view(&self) -> (Seq<char>, bool) {
        (self.text@, self.owned)
    }
}

impl Default for Clipboard {
    fn default() -> (r: Self)
        ensures
            r@ == (Seq::<char>::empty(), false),
    {
        Clipboard { text: String::new(), owned: false }
    }
}

/// The mime types a pane's selection is offered as.
pub open spec fn offered_mimes() -> Seq<Seq<char>> {
    seq!["text/plain;charset=utf-8"@, "text/plain"@, "UTF8_STRING"@]
}

/// Both spellings of plain text, and the X11 name: offering only the first
/// means a paste into some clients silently produces nothing.
pub fn mime_types() -> (r: Vec<String>)
    ensures
        r@.map_values(|s: String| s@) == offered_mimes(),
{
    let mut r: Vec<String> = Vec::new();
    r.push("text/plain;charset=utf-8".to_owned());
    r.push("text/plain".to_owned());
    r.push("UTF8_STRING".to_owned());
    assert(r@.map_values(|s: String| s@) =~= offered_mimes());
    r
}

/// `needle` occurs in `hay`.
pub open spec fn contains_seq(hay: Seq<char>, needle: Seq<char>) -> bool {
    exists|i: int| 0 <= i <= hay.len() - needle.len() && #[trigger] hay.subrange(i, i + needle.len()) == needle
}

/// A mime type this compositor answers with plain text: trimmed and read
/// without regard to ASCII case, `text/plain` and anything it begins, or the
/// X11 names `UTF8_STRING` and `STRING`.
pub open spec fn text_mime(mime: Seq<char>) -> bool {
    let m = lower_seq(trim(mime));
    (m.len() >= 10 && m.take(10) == "text/plain"@) || m == "utf8_string"@ || m == "string"@
}

/// Whether `hay[at..]` begins with `needle`.
fn matches_at(hay: &Vec<char>, at: usize, needle: &Vec<char>) -> (r: bool)
    requires
        at + needle.len() <= hay.len(),
    ensures
        r == (hay@.subrange(at as int, at + needle.len()) == needle@),
{
    let mut j: usize = 0;
    while j < needle.len()
        invariant
            j <= needle.len(),
            at + needle.len() <= hay.len(),
            forall|k: int| 0 <= k < j ==> hay@[at + k] == needle@[k],
        decreases needle.len() - j,
    {
        if hay[at + j] != needle[j] {
            assert(hay@.subrange(at as int, at + needle.len())[j as int] != needle@[j as int]);
            return false;
        }
        j += 1;
    }
    assert(hay@.subrange(at as int, at + needle.len()) =~= needle@);
    true
}

/// Whether `needle` occurs anywhere in `hay`.
pub fn contains(hay: &Vec<char>, needle: &Vec<char>) -> (r: bool)
    ensures
        r == contains_seq(hay@, needle@),
{
    if needle.len() > hay.len() {
        return false;
    }
    let last = hay.len() - needle.len();
    let mut i: usize = 0;
    loop
        invariant
            i <= last,
            last + needle.len() == hay.len(),
            forall|k: int| 0 <= k < i ==> #[trigger] hay@.subrange(k, k + needle@.len()) != needle@,
        decreases last - i,
    {
        if matches_at(hay, i, needle) {
            return true;
        }
        if i == last {
            return false;
        }
        i += 1;
    }
}

fn lowered(v: &Vec<char>) -> (r: Vec<char>)
    ensures
        r@ == lower_seq(v@),
{
    let mut r: Vec<char> = Vec::new();
    let mut i: usize = 0;
    while i < v.len()
        invariant
            i <= v.len(),
            r@ == lower_seq(v@.take(i as int)),
        decreases v.len() - i,
    {
        r.push(to_lower(v[i]));
        assert(lower_seq(v@.take(i + 1)) =~= lower_seq(v@.take(i as int)).push(crate::text::lower(v@[i as int])));
        i += 1;
    }
    assert(v@.take(v.len() as int) == v@);
    r
}

/// Whether `mime` is one this compositor will answer with plain text.
pub fn is_text_mime(mime: &str) -> (r: bool)
    ensures
        r == text_mime(mime@),
{
    proof {
        reveal_strlit("text/plain");
    }
    let v = to_chars(mime);
    let (lo, hi) = trim_range(&v);
    let m = lowered(&slice_of(&v, lo, hi));
    let plain = to_chars("text/plain");
    if m.len() >= plain.len() && crate::text::eq_lit(&slice_of(&m, 0, plain.len()), "text/plain") {
        return true;
    }
    crate::text::eq_lit(&m, "utf8_string") || crate::text::eq_lit(&m, "string")
}

/// Which offered mime type says it is UTF-8.
pub open spec fn says_utf8(mime: Seq<char>) -> bool {
    contains_seq(lower_seq(mime), "charset=utf-8"@)
}

/// The mime type to request from a client's selection: the first that says
/// it is UTF-8, else the first that is text at all.
pub fn preferred_mime(offered: &[String]) -> (r: Option<String>)
    ensures
        match r {
            Some(m) => {
                ||| exists|i: int|
                    0 <= i < offered@.len() && says_utf8(offered@[i]@) && (forall|j: int|
                        0 <= j < i ==> !says_utf8(#[trigger] offered@[j]@)) && m@ == offered@[i]@
                ||| (forall|j: int| 0 <= j < offered@.len() ==> !says_utf8(#[trigger] offered@[j]@))
                    && exists|i: int|
                    0 <= i < offered@.len() && text_mime(offered@[i]@) && (forall|j: int|
                        0 <= j < i ==> !text_mime(#[trigger] offered@[j]@)) && m@ == offered@[i]@
            },
            None => forall|j: int|
                0 <= j < offered@.len() ==> !says_utf8(#[trigger] offered@[j]@) && !text_mime(
                    offered@[j]@,
                ),
        },
{
    let needle = to_chars("charset=utf-8");
    let mut i: usize = 0;
    while i < offered.len()
        invariant
            i <= offered.len(),
            needle@ == "charset=utf-8"@,
            forall|j: int| 0 <= j < i ==> !says_utf8(#[trigger] offered@[j]@),
        decreases offered.len() - i,
    {
        let m = lowered(&to_chars(offered[i].as_str()));
        if contains(&m, &needle) {
            return Some(offered[i].clone());
        }
        i += 1;
    }
    let mut k: usize = 0;
    while k < offered.len()
        invariant
            k <= offered.len(),
            forall|j: int| 0 <= j < offered@.len() ==> !says_utf8(#[trigger] offered@[j]@),
            forall|j: int| 0 <= j < k ==> !text_mime(#[trigger] offered@[j]@),
        decreases offered.len() - k,
    {
        if is_text_mime(offered[k].as_str()) {
            return Some(offered[k].clone());
        }
        k += 1;
    }
    None
}

impl Clipboard {
    /// The selection's text.
    pub fn text(&self) -> (r: &str)
        ensures
            r@ == self@.0,
    {
        self.text.as_str()
    }

    /// Whether the compositor owns the selection.
    pub fn is_owned(&self) -> (r: bool)
        ensures
            r == self@.1,
    {
        self.owned
    }

    /// Record text a pane yanked; the compositor now owns the selection.
    pub fn set_from_pane(&mut self, text: &str)
        ensures
            final(self)@ == (text@, true),
    {
        self.text = text.to_owned();
        self.owned = true;
    }

    /// Record text read back from a client's selection, which the client
    /// owns.
    pub fn set_from_client(&mut self, text: &str)
        ensures
            final(self)@ == (text@, false),
    {
        self.text = text.to_owned();
        self.owned = false;
    }

    /// A client has taken the selection: whatever the compositor was
    /// offering is no longer it. The text stays.
    pub fn released(&mut self)
        ensures
            final(self)@ == (old(self)@.0, false),
    {
        self.owned = false;
    }
}

/// How much of a client's selection is worth reading: well past any
/// sensible paste, well short of anything that would hurt.
pub const SELECTION_LIMIT: usize = 8 * 1024 * 1024;

/// Add a chunk read from a selection pipe to what was read before, holding
/// the whole to `limit` bytes; reports whether the limit was reached, after
/// which nothing more is read.
pub fn take_chunk(buf: &mut Vec<u8>, chunk: &[u8], limit: usize) -> (full: bool)
    ensures
        full == (old(buf)@.len() + chunk@.len() >= limit),
        final(buf)@ == if full {
            (old(buf)@ + chunk@).take(limit as int)
        } else {
            old(buf)@ + chunk@
        },
{
    buf.extend_from_slice(chunk);
    if buf.len() >= limit {
        buf.truncate(limit);
        return true;
    }
    false
}

} // verus!
