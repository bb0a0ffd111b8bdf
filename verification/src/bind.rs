//! Emacs-style key chords: `M-S-q` is Super+Shift+q.
use vstd::prelude::*;

use crate::text::{
    eq_ignore_ascii_case, find, find_char, is_white, lower_seq, slice_of, to_chars, trim, trim_end,
    trim_range, trim_start,
};

verus! {

broadcast use crate::text::lemma_find_in_bounds;

/// The modifier keys held while a key was pressed.
#[derive(Debug, Clone, Copy, PartialEq, Eq, Structural)]
pub struct ModifiersState {
    pub logo: bool,
    pub shift: bool,
    pub ctrl: bool,
    pub alt: bool,
}

impl Default for ModifiersState {
    fn default() -> (r: Self)
        ensures
            !r.logo && !r.shift && !r.ctrl && !r.alt,
    {
        ModifiersState { logo: false, shift: false, ctrl: false, alt: false }
    }
}

/// The modifier set a keybind string asks for. Matching is exact: a bind that
/// does not name Shift does not fire while Shift is held.
#[derive(Debug, Clone, Copy, PartialEq, Eq, Structural)]
pub struct BindMods {
    pub logo: bool,
    pub shift: bool,
    pub ctrl: bool,
    pub alt: bool,
}

impl Default for BindMods {
    fn default() -> (r: Self)
        ensures
            r == no_mods(),
    {
        BindMods { logo: false, shift: false, ctrl: false, alt: false }
    }
}

/// No modifier at all.
pub open spec fn no_mods() -> BindMods {
    BindMods { logo: false, shift: false, ctrl: false, alt: false }
}

/// Exactly the modifiers `want` names are held.
pub open spec fn mods_match(want: BindMods, held: ModifiersState) -> bool {
    want.logo == held.logo && want.shift == held.shift && want.ctrl == held.ctrl
        && want.alt == held.alt
}

impl BindMods {
    /// Whether `mods` is exactly this set.
    pub fn matches(&self, mods: &ModifiersState) -> (r: bool)
        ensures
            r == mods_match(*self, *mods),
    {
        self.logo == mods.logo && self.shift == mods.shift && self.ctrl == mods.ctrl
            && self.alt == mods.alt
    }
}

/// `rest` read as modifier prefixes and a key, with `mods` already read.
///
/// Each `X-` in front names a modifier (`M` Super, `S` Shift, `C` Control,
/// `A` Alt); the remainder is the key. A trailing token is the key even when
/// it is itself a modifier letter, and a dash with nothing after it is part
/// of the key. An unknown prefix, or no key at all, is no chord.
pub open spec fn bind_from(rest: Seq<char>, mods: BindMods) -> Option<(BindMods, Seq<char>)>
    decreases rest.len(),
{
    match find(rest, '-') {
        None => if rest.len() > 0 {
            Some((mods, rest))
        } else {
            None
        },
        Some(k) => {
            let prefix = rest.take(k as int);
            let tail = rest.skip(k as int + 1);
            if tail.len() == 0 {
                Some((mods, rest))
            } else if prefix == "M"@ {
                bind_from(tail, BindMods { logo: true, ..mods })
            } else if prefix == "S"@ {
                bind_from(tail, BindMods { shift: true, ..mods })
            } else if prefix == "C"@ {
                bind_from(tail, BindMods { ctrl: true, ..mods })
            } else if prefix == "A"@ {
                bind_from(tail, BindMods { alt: true, ..mods })
            } else {
                None
            }
        },
    }
}

/// What a keybind string asks for: its modifiers and its key, read after
/// trimming it.
pub open spec fn bind_spec(bind: Seq<char>) -> Option<(BindMods, Seq<char>)> {
    bind_from(trim(bind), no_mods())
}

/// `s` with nothing to trim at either end stays as it is.
proof fn lemma_trim_of_solid_ends(s: Seq<char>)
    requires
        s.len() > 0,
        !is_white(s[0]),
        !is_white(s.last()),
    ensures
        trim(s) == s,
{
    assert(trim_start(s) == s);
    assert(trim_end(s) == s);
}

/// Prefixes accumulate: a prefix in front of more of the chord adds its own
/// modifier to those already read and keeps every other one as it was, and
/// a key with no dash in it ends the chord with the modifiers read so far.
pub proof fn law_a_prefix_adds_its_modifier(r: Seq<char>, m: BindMods)
    requires
        r.len() > 0,
    ensures
        bind_from("M-"@ + r, m) == bind_from(r, BindMods { logo: true, ..m }),
        bind_from("S-"@ + r, m) == bind_from(r, BindMods { shift: true, ..m }),
        bind_from("C-"@ + r, m) == bind_from(r, BindMods { ctrl: true, ..m }),
        bind_from("A-"@ + r, m) == bind_from(r, BindMods { alt: true, ..m }),
        (forall|i: int| 0 <= i < r.len() ==> r[i] != '-') ==> bind_from(r, m) == Some((m, r)),
{
    reveal_strlit("M-");
    reveal_strlit("S-");
    reveal_strlit("C-");
    reveal_strlit("A-");
    reveal_strlit("M");
    reveal_strlit("S");
    reveal_strlit("C");
    reveal_strlit("A");
    assert(("M"@)[0] == 'M' && ("S"@)[0] == 'S' && ("C"@)[0] == 'C' && ("A"@)[0] == 'A');
    assert("M"@ =~= seq!['M']);
    assert("S"@ =~= seq!['S']);
    assert("C"@ =~= seq!['C']);
    assert("A"@ =~= seq!['A']);
    let xs = seq!['M', 'S', 'C', 'A'];
    assert forall|j: int| 0 <= j < 4 implies {
        let s = seq![#[trigger] xs[j], '-'] + r;
        &&& find(s, '-') == Some(1nat)
        &&& s.take(1) == seq![xs[j]]
        &&& s.skip(2) == r
    } by {
        let s = seq![xs[j], '-'] + r;
        assert(s.drop_first() =~= seq!['-'] + r);
        assert(find(s.drop_first(), '-') == Some(0nat));
        assert(s.take(1) =~= seq![xs[j]]);
        assert(s.skip(2) =~= r);
    }
    assert("M-"@ + r =~= seq![xs[0], '-'] + r);
    assert("S-"@ + r =~= seq![xs[1], '-'] + r);
    assert("C-"@ + r =~= seq![xs[2], '-'] + r);
    assert("A-"@ + r =~= seq![xs[3], '-'] + r);
    if forall|i: int| 0 <= i < r.len() ==> r[i] != '-' {
        crate::text::lemma_find_none(r, '-');
    }
}

/// Each prefix names its own modifier: `M-` Super, `S-` Shift, `C-`
/// Control and `A-` Alt, in front of any key that holds no dash and has no
/// whitespace at its ends; the key alone names no modifier.
pub proof fn law_each_prefix_names_its_modifier(k: Seq<char>)
    requires
        k.len() > 0,
        !is_white(k[0]),
        !is_white(k.last()),
        forall|i: int| 0 <= i < k.len() ==> k[i] != '-',
    ensures
        bind_spec(k) == Some((no_mods(), k)),
        bind_spec("M-"@ + k) == Some(
            (BindMods { logo: true, shift: false, ctrl: false, alt: false }, k),
        ),
        bind_spec("S-"@ + k) == Some(
            (BindMods { logo: false, shift: true, ctrl: false, alt: false }, k),
        ),
        bind_spec("C-"@ + k) == Some(
            (BindMods { logo: false, shift: false, ctrl: true, alt: false }, k),
        ),
        bind_spec("A-"@ + k) == Some(
            (BindMods { logo: false, shift: false, ctrl: false, alt: true }, k),
        ),
{
    reveal_strlit("M-");
    reveal_strlit("S-");
    reveal_strlit("C-");
    reveal_strlit("A-");
    lemma_trim_of_solid_ends(k);
    lemma_trim_of_solid_ends("M-"@ + k);
    lemma_trim_of_solid_ends("S-"@ + k);
    lemma_trim_of_solid_ends("C-"@ + k);
    lemma_trim_of_solid_ends("A-"@ + k);
    law_a_prefix_adds_its_modifier(k, no_mods());
    law_a_prefix_adds_its_modifier(k, BindMods { logo: true, ..no_mods() });
    law_a_prefix_adds_its_modifier(k, BindMods { shift: true, ..no_mods() });
    law_a_prefix_adds_its_modifier(k, BindMods { ctrl: true, ..no_mods() });
    law_a_prefix_adds_its_modifier(k, BindMods { alt: true, ..no_mods() });
}

/// Split an Emacs-style bind string into its modifiers and its key name.
///
/// `None` for an empty key or an unknown modifier prefix, so a typo in a
/// config is ignored rather than binding something surprising.
pub fn parse_bind(bind: &str) -> (r: Option<(BindMods, &str)>)
    ensures
        match r {
            Some((m, k)) => bind_spec(bind@) == Some((m, k@)),
            None => bind_spec(bind@) is None,
        },
{
    let v = to_chars(bind);
    let (lo, hi) = trim_range(&v);
    let mut mods = BindMods { logo: false, shift: false, ctrl: false, alt: false };
    let mut start = lo;
    while start < hi
        invariant
            lo <= start <= hi <= v.len(),
            v@ == bind@,
            bind_spec(bind@) == bind_from(v@.subrange(start as int, hi as int), mods),
        decreases hi - start,
    {
        let rest = slice_of(&v, start, hi);
        match find_char(&rest, '-') {
            None => {
                return Some((mods, bind.substring_char(start, hi)));
            },
            Some(k) => {
                if start + k + 1 == hi {
                    return Some((mods, bind.substring_char(start, hi)));
                }
                let prefix = slice_of(&rest, 0, k);
                assert(prefix@ == rest@.take(k as int));
                assert(rest@.skip(k as int + 1) == v@.subrange(start + k + 1, hi as int));
                if crate::text::eq_lit(&prefix, "M") {
                    mods = BindMods { logo: true, ..mods };
                } else if crate::text::eq_lit(&prefix, "S") {
                    mods = BindMods { shift: true, ..mods };
                } else if crate::text::eq_lit(&prefix, "C") {
                    mods = BindMods { ctrl: true, ..mods };
                } else if crate::text::eq_lit(&prefix, "A") {
                    mods = BindMods { alt: true, ..mods };
                } else {
                    return None;
                }
                start = start + k + 1;
            },
        }
    }
    assert(v@.subrange(start as int, hi as int).len() == 0);
    None
}

/// Whether `bind` names `key` with exactly the modifiers in `mods`.
pub open spec fn bind_matches(bind: Seq<char>, mods: ModifiersState, key: Seq<char>) -> bool {
    match bind_spec(bind) {
        Some((want, want_key)) => mods_match(want, mods) && lower_seq(want_key) == lower_seq(key),
        None => false,
    }
}

/// Whether `bind` describes the given key and modifier state. The key is
/// compared without regard to ASCII case.
pub fn keybind_matches(bind: &str, mods: &ModifiersState, key: &str) -> (r: bool)
    ensures
        r == bind_matches(bind@, *mods, key@),
{
    match parse_bind(bind) {
        Some((want, want_key)) => {
            if !want.matches(mods) {
                return false;
            }
            let a = to_chars(want_key);
            let b = to_chars(key);
            eq_ignore_ascii_case(&a, &b)
        },
        None => false,
    }
}

} // verus!
