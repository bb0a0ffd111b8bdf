//! Characters and strings: whitespace, ASCII case, trimming and splitting,
//! stated over `Seq<char>`.
use vstd::prelude::*;

verus! {

/// `char::is_whitespace`: the characters with the Unicode `White_Space`
/// property.
pub open spec fn is_white(c: char) -> bool {
    let n = c as u32;
    (9 <= n <= 13) || n == 32 || n == 0x85 || n == 0xa0 || n == 0x1680
        || (0x2000 <= n <= 0x200a) || n == 0x2028 || n == 0x2029 || n == 0x202f
        || n == 0x205f || n == 0x3000
}

/// `char::is_ascii_whitespace`: space, tab, line feed, form feed, carriage
/// return (vertical tab is not one).
pub open spec fn is_ascii_white(c: char) -> bool {
    c == ' ' || c == '\t' || c == '\n' || c == '\x0C' || c == '\r'
}

/// `char::to_ascii_lowercase`.
pub open spec fn lower(c: char) -> char {
    if 'A' <= c && c <= 'Z' {
        ((c as u32) + 32) as char
    } else {
        c
    }
}

pub open spec fn lower_seq(s: Seq<char>) -> Seq<char> {
    s.map_values(|c: char| lower(c))
}

/// Leading whitespace removed.
pub open spec fn trim_start(s: Seq<char>) -> Seq<char>
    decreases s.len(),
{
    if s.len() > 0 && is_white(s[0]) {
        trim_start(s.drop_first())
    } else {
        s
    }
}

/// Trailing whitespace removed.
pub open spec fn trim_end(s: Seq<char>) -> Seq<char>
    decreases s.len(),
{
    if s.len() > 0 && is_white(s.last()) {
        trim_end(s.drop_last())
    } else {
        s
    }
}

/// `str::trim`.
pub open spec fn trim(s: Seq<char>) -> Seq<char> {
    trim_end(trim_start(s))
}

pub fn is_whitespace(c: char) -> (r: bool)
    ensures
        r == is_white(c),
{
    let n = c as u32;
    (9 <= n && n <= 13) || n == 32 || n == 0x85 || n == 0xa0 || n == 0x1680
        || (0x2000 <= n && n <= 0x200a) || n == 0x2028 || n == 0x2029 || n == 0x202f
        || n == 0x205f || n == 0x3000
}

pub fn is_ascii_whitespace(c: char) -> (r: bool)
    ensures
        r == is_ascii_white(c),
{
    c == ' ' || c == '\t' || c == '\n' || c == '\x0C' || c == '\r'
}

pub fn to_lower(c: char) -> (r: char)
    ensures
        r == lower(c),
{
    if 'A' <= c && c <= 'Z' {
        let b = c as u8;
        (b + 32) as char
    } else {
        c
    }
}

/// The characters of `s`.
pub fn to_chars(s: &str) -> (v: Vec<char>)
    ensures
        v@ == s@,
{
    let mut v: Vec<char> = Vec::new();
    for c in it: s.chars()
        invariant
            v@ == it.seq().take(it.index() as int),
    {
        v.push(c);
    }
    v
}


/// `split_whitespace`, read left to right: the words finished so far, and
/// the word being read.
pub open spec fn split_acc(s: Seq<char>) -> (Seq<Seq<char>>, Seq<char>)
    decreases s.len(),
{
    if s.len() == 0 {
        (seq![], seq![])
    } else {
        let (done, cur) = split_acc(s.drop_last());
        if is_white(s.last()) {
            if cur.len() > 0 {
                (done.push(cur), seq![])
            } else {
                (done, seq![])
            }
        } else {
            (done, cur.push(s.last()))
        }
    }
}

/// `str::split_whitespace`: the maximal runs of non-whitespace characters.
pub open spec fn words(s: Seq<char>) -> Seq<Seq<char>> {
    let (done, cur) = split_acc(s);
    if cur.len() > 0 {
        done.push(cur)
    } else {
        done
    }
}

#[verifier::external_body]
pub(crate) fn push_char(s: &mut String, c: char)
    ensures
        final(s)@ == old(s)@.push(c),
{
    s.push(c);
}

/// `String::pop`: the last character taken off, if there is one.
#[verifier::external_body]
pub(crate) fn pop_char(s: &mut String) -> (r: Option<char>)
    ensures
        old(s)@.len() > 0 ==> r == Some(old(s)@.last()) && final(s)@ == old(s)@.drop_last(),
        old(s)@.len() == 0 ==> r is None && final(s)@ == old(s)@,
{
    s.pop()
}

/// The characters `v[lo..hi]` as a `String`.
pub fn string_of(v: &Vec<char>, lo: usize, hi: usize) -> (s: String)
    requires
        lo <= hi <= v.len(),
    ensures
        s@ == v@.subrange(lo as int, hi as int),
{
    let mut s = String::new();
    let mut i: usize = lo;
    while i < hi
        invariant
            lo <= i <= hi <= v.len(),
            s@ == v@.subrange(lo as int, i as int),
        decreases hi - i,
    {
        push_char(&mut s, v[i]);
        assert(v@.subrange(lo as int, i + 1) == v@.subrange(lo as int, i as int).push(v@[i as int]));
        i += 1;
    }
    s
}

/// All of `v` as a `String`.
pub fn string_from(v: &Vec<char>) -> (s: String)
    ensures
        s@ == v@,
{
    let s = string_of(v, 0, v.len());
    assert(v@.subrange(0, v.len() as int) == v@);
    s
}

proof fn lemma_trim_start_skip(s: Seq<char>, i: int)
    requires
        0 <= i < s.len(),
        is_white(s[i]),
    ensures
        trim_start(s.skip(i)) == trim_start(s.skip(i + 1)),
{
    assert(s.skip(i).drop_first() == s.skip(i + 1));
}

proof fn lemma_trim_end_sub(s: Seq<char>, lo: int, hi: int)
    requires
        0 <= lo < hi <= s.len(),
        is_white(s[hi - 1]),
    ensures
        trim_end(s.subrange(lo, hi)) == trim_end(s.subrange(lo, hi - 1)),
{
    assert(s.subrange(lo, hi).drop_last() == s.subrange(lo, hi - 1));
}

/// What `trim_start` leaves is empty or begins with a non-space.
proof fn lemma_trim_start_shape(s: Seq<char>)
    ensures
        trim_start(s).len() == 0 || !is_white(trim_start(s)[0]),
    decreases s.len(),
{
    if s.len() > 0 && is_white(s[0]) {
        lemma_trim_start_shape(s.drop_first());
    }
}

/// What `trim_end` leaves is empty or ends with a non-space, and is a
/// prefix of what it was given.
proof fn lemma_trim_end_shape(s: Seq<char>)
    ensures
        trim_end(s).len() == 0 || !is_white(trim_end(s).last()),
        trim_end(s).len() <= s.len(),
        trim_end(s) == s.take(trim_end(s).len() as int),
    decreases s.len(),
{
    if s.len() > 0 && is_white(s.last()) {
        lemma_trim_end_shape(s.drop_last());
        assert(s.drop_last().take(trim_end(s).len() as int) == s.take(trim_end(s).len() as int));
    } else {
        assert(s.take(s.len() as int) == s);
    }
}

/// Trimming twice is trimming once.
pub proof fn lemma_trim_idempotent(s: Seq<char>)
    ensures
        trim(trim(s)) == trim(s),
{
    let a = trim_start(s);
    let t = trim_end(a);
    lemma_trim_start_shape(s);
    lemma_trim_end_shape(a);
    if t.len() > 0 {
        assert(t[0] == a[0]);
    }
    assert(trim_start(t) == t);
    lemma_trim_end_shape(t);
    if t.len() > 0 {
        assert(trim_end(t) == t);
    }
}

/// Every character of `s` is whitespace.
pub open spec fn all_white(s: Seq<char>) -> bool {
    forall|i: int| 0 <= i < s.len() ==> is_white(#[trigger] s[i])
}

/// `trim_start` removes exactly a leading run of whitespace.
proof fn lemma_trim_start_split(s: Seq<char>) -> (k: int)
    ensures
        0 <= k <= s.len(),
        trim_start(s) == s.skip(k),
        all_white(s.take(k)),
        k < s.len() ==> !is_white(s[k]),
    decreases s.len(),
{
    if s.len() > 0 && is_white(s[0]) {
        let k = lemma_trim_start_split(s.drop_first());
        assert(s.drop_first().skip(k) =~= s.skip(k + 1));
        assert forall|i: int| 0 <= i < k + 1 implies is_white(#[trigger] s.take(k + 1)[i]) by {
            if i > 0 {
                assert(s.take(k + 1)[i] == s.drop_first().take(k)[i - 1]);
            }
        }
        k + 1
    } else {
        assert(s.skip(0) =~= s);
        0
    }
}

/// `trim_end` removes exactly a trailing run of whitespace.
pub proof fn lemma_trim_end_split(s: Seq<char>) -> (k: int)
    ensures
        0 <= k <= s.len(),
        trim_end(s) == s.take(k),
        all_white(s.skip(k)),
        k > 0 ==> !is_white(s[k - 1]),
    decreases s.len(),
{
    if s.len() > 0 && is_white(s.last()) {
        let k = lemma_trim_end_split(s.drop_last());
        assert(s.drop_last().take(k) =~= s.take(k));
        assert forall|i: int| 0 <= i < s.len() - k implies is_white(#[trigger] s.skip(k)[i]) by {
            if i < s.len() - k - 1 {
                assert(s.skip(k)[i] == s.drop_last().skip(k)[i]);
            }
        }
        k
    } else {
        assert(s.take(s.len() as int) =~= s);
        s.len() as int
    }
}

/// Whitespace before a sequence that does not start with any is exactly
/// what `trim_start` removes.
pub proof fn lemma_trim_start_of(w: Seq<char>, r: Seq<char>)
    requires
        all_white(w),
        r.len() == 0 || !is_white(r[0]),
    ensures
        trim_start(w + r) == r,
    decreases w.len(),
{
    if w.len() > 0 {
        assert((w + r).drop_first() =~= w.drop_first() + r);
        lemma_trim_start_of(w.drop_first(), r);
    } else {
        assert(w + r =~= r);
    }
}

/// Whitespace after a sequence that does not end with any is exactly what
/// `trim_end` removes.
pub proof fn lemma_trim_end_of(r: Seq<char>, w: Seq<char>)
    requires
        all_white(w),
        r.len() == 0 || !is_white(r.last()),
    ensures
        trim_end(r + w) == r,
    decreases w.len(),
{
    if w.len() > 0 {
        assert((r + w).drop_last() =~= r + w.drop_last());
        lemma_trim_end_of(r, w.drop_last());
    } else {
        assert(r + w =~= r);
    }
}

/// Trimming the front and then the back is trimming the back and then the
/// front.
pub proof fn lemma_trim_commutes(s: Seq<char>)
    ensures
        trim_end(trim_start(s)) == trim_start(trim_end(s)),
{
    let a = lemma_trim_start_split(s);
    let rest = s.skip(a);
    let k = lemma_trim_end_split(rest);
    let t = rest.take(k);
    if k == 0 {
        assert(rest.skip(0) =~= rest);
        assert(all_white(s)) by {
            assert forall|i: int| 0 <= i < s.len() implies is_white(#[trigger] s[i]) by {
                if i < a {
                    assert(s.take(a)[i] == s[i]);
                } else {
                    assert(rest[i - a] == s[i]);
                    assert(rest.skip(0)[i - a] == rest[i - a]);
                }
            }
        }
        lemma_trim_end_of(Seq::<char>::empty(), s);
        assert(Seq::<char>::empty() + s =~= s);
        assert(trim_start(Seq::<char>::empty()) == Seq::<char>::empty());
    } else {
        assert(s =~= s.take(a) + t + rest.skip(k));
        assert(t.last() == rest[k - 1]);
        lemma_trim_end_of(s.take(a) + t, rest.skip(k));
        assert(trim_end(s) == s.take(a) + t);
        assert(t[0] == s[a]);
        lemma_trim_start_of(s.take(a), t);
    }
}

/// `trim` after `trim_end` is `trim`.
pub proof fn lemma_trim_after_trim_end(s: Seq<char>)
    ensures
        trim(trim_end(s)) == trim(s),
{
    lemma_trim_commutes(s);
    lemma_trim_commutes(trim_end(s));
    lemma_trim_end_shape(s);
    if trim_end(s).len() > 0 {
        assert(trim_end(trim_end(s)) == trim_end(s)) by {
            lemma_trim_end_of(trim_end(s), Seq::<char>::empty());
            assert(trim_end(s) + Seq::<char>::empty() =~= trim_end(s));
        }
    } else {
        assert(trim_end(s) =~= Seq::<char>::empty());
    }
}

/// The bounds of `v` with the whitespace at both ends left out.
pub fn trim_range(v: &Vec<char>) -> (r: (usize, usize))
    ensures
        r.0 <= r.1 <= v.len(),
        v@.subrange(r.0 as int, r.1 as int) == trim(v@),
{
    let n = v.len();
    let mut lo: usize = 0;
    assert(v@.skip(0) == v@);
    while lo < n && is_whitespace(v[lo])
        invariant
            lo <= n == v.len(),
            trim_start(v@) == trim_start(v@.skip(lo as int)),
        decreases n - lo,
    {
        proof { lemma_trim_start_skip(v@, lo as int); }
        lo += 1;
    }
    assert(trim_start(v@) == v@.skip(lo as int));
    assert(v@.skip(lo as int) == v@.subrange(lo as int, n as int));
    let mut hi: usize = n;
    while hi > lo && is_whitespace(v[hi - 1])
        invariant
            lo <= hi <= n == v.len(),
            trim(v@) == trim_end(v@.subrange(lo as int, hi as int)),
        decreases hi - lo,
    {
        proof { lemma_trim_end_sub(v@, lo as int, hi as int); }
        hi -= 1;
    }
    (lo, hi)
}

/// Where `v`'s text starts: the index past its leading whitespace.
pub fn text_start(v: &Vec<char>) -> (k: usize)
    ensures
        k <= v.len(),
        v@.skip(k as int) == trim_start(v@),
{
    let mut k: usize = 0;
    assert(v@.skip(0) == v@);
    while k < v.len() && is_whitespace(v[k])
        invariant
            k <= v.len(),
            trim_start(v@) == trim_start(v@.skip(k as int)),
        decreases v.len() - k,
    {
        proof { lemma_trim_start_skip(v@, k as int); }
        k += 1;
    }
    k
}

/// Where `v`'s text ends: the index of its trailing whitespace.
pub fn text_end(v: &Vec<char>) -> (k: usize)
    ensures
        k <= v.len(),
        v@.take(k as int) == trim_end(v@),
{
    let mut k: usize = v.len();
    assert(v@.subrange(0, v.len() as int) == v@);
    while k > 0 && is_whitespace(v[k - 1])
        invariant
            k <= v.len(),
            trim_end(v@) == trim_end(v@.subrange(0, k as int)),
        decreases k,
    {
        proof { lemma_trim_end_sub(v@, 0, k as int); }
        k -= 1;
    }
    assert(v@.subrange(0, k as int) == v@.take(k as int));
    k
}

/// `s.trim()` as a `String`.
pub fn trimmed(s: &str) -> (r: String)
    ensures
        r@ == trim(s@),
{
    let v = to_chars(s);
    let (lo, hi) = trim_range(&v);
    string_of(&v, lo, hi)
}

/// The views of a sequence of character vectors.
pub open spec fn views(r: Seq<Vec<char>>) -> Seq<Seq<char>> {
    r.map_values(|w: Vec<char>| w@)
}

/// The whitespace-separated words of `v`.
pub fn split_words(v: &Vec<char>) -> (r: Vec<Vec<char>>)
    ensures
        views(r@) == words(v@),
{
    let n = v.len();
    let mut done: Vec<Vec<char>> = Vec::new();
    let mut cur: Vec<char> = Vec::new();
    let mut i: usize = 0;
    assert(v@.take(0) == Seq::<char>::empty());
    assert(views(done@) =~= Seq::<Seq<char>>::empty());
    while i < n
        invariant
            i <= n == v.len(),
            (views(done@), cur@) == split_acc(v@.take(i as int)),
        decreases n - i,
    {
        assert(v@.take(i + 1).drop_last() == v@.take(i as int));
        let c = v[i];
        let ghost old_done = views(done@);
        if is_whitespace(c) {
            if cur.len() > 0 {
                let w = cur;
                let ghost wv = w@;
                done.push(w);
                assert(views(done@) =~= old_done.push(wv));
                cur = Vec::new();
            }
        } else {
            cur.push(c);
        }
        i += 1;
    }
    assert(v@.take(n as int) == v@);
    if cur.len() > 0 {
        let ghost old_done = views(done@);
        let ghost wv = cur@;
        done.push(cur);
        assert(views(done@) =~= old_done.push(wv));
    }
    done
}

/// `v[lo..hi]` as a vector of its own.
pub fn slice_of(v: &Vec<char>, lo: usize, hi: usize) -> (r: Vec<char>)
    requires
        lo <= hi <= v.len(),
    ensures
        r@ == v@.subrange(lo as int, hi as int),
{
    let mut r: Vec<char> = Vec::new();
    let mut i: usize = lo;
    while i < hi
        invariant
            lo <= i <= hi <= v.len(),
            r@ == v@.subrange(lo as int, i as int),
        decreases hi - i,
    {
        r.push(v[i]);
        assert(v@.subrange(lo as int, i + 1) == v@.subrange(lo as int, i as int).push(v@[i as int]));
        i += 1;
    }
    r
}

/// Whether `v` spells exactly `lit`.
pub fn eq_lit(v: &Vec<char>, lit: &str) -> (r: bool)
    ensures
        r == (v@ == lit@),
{
    let w = to_chars(lit);
    if v.len() != w.len() {
        return false;
    }
    let mut i: usize = 0;
    while i < v.len()
        invariant
            i <= v.len() == w.len(),
            w@ == lit@,
            forall|j: int| 0 <= j < i ==> v@[j] == w@[j],
        decreases v.len() - i,
    {
        if v[i] != w[i] {
            return false;
        }
        i += 1;
    }
    assert(v@ =~= w@);
    true
}

/// Whether `a` and `b` are the same once ASCII letters are lowercased.
pub fn eq_ignore_ascii_case(a: &Vec<char>, b: &Vec<char>) -> (r: bool)
    ensures
        r == (lower_seq(a@) == lower_seq(b@)),
{
    if a.len() != b.len() {
        assert(lower_seq(a@).len() != lower_seq(b@).len());
        return false;
    }
    let mut i: usize = 0;
    while i < a.len()
        invariant
            i <= a.len() == b.len(),
            forall|j: int| 0 <= j < i ==> lower(a@[j]) == lower(b@[j]),
        decreases a.len() - i,
    {
        if to_lower(a[i]) != to_lower(b[i]) {
            assert(lower_seq(a@)[i as int] != lower_seq(b@)[i as int]);
            return false;
        }
        i += 1;
    }
    assert(lower_seq(a@) =~= lower_seq(b@));
    true
}

/// The first position of `c` in `s`.
pub open spec fn find(s: Seq<char>, c: char) -> Option<nat>
    decreases s.len(),
{
    if s.len() == 0 {
        None
    } else if s[0] == c {
        Some(0)
    } else {
        match find(s.drop_first(), c) {
            Some(k) => Some(k + 1),
            None => None,
        }
    }
}

/// The last position of `c` in `s`.
pub open spec fn rfind(s: Seq<char>, c: char) -> Option<nat>
    decreases s.len(),
{
    if s.len() == 0 {
        None
    } else if s.last() == c {
        Some((s.len() - 1) as nat)
    } else {
        rfind(s.drop_last(), c)
    }
}

pub proof fn lemma_find_none(s: Seq<char>, c: char)
    requires
        forall|j: int| 0 <= j < s.len() ==> s[j] != c,
    ensures
        find(s, c) is None,
    decreases s.len(),
{
    if s.len() > 0 {
        lemma_find_none(s.drop_first(), c);
    }
}

proof fn lemma_find_at(s: Seq<char>, c: char, k: int)
    requires
        0 <= k < s.len(),
        s[k] == c,
        forall|j: int| 0 <= j < k ==> s[j] != c,
    ensures
        find(s, c) == Some(k as nat),
    decreases k,
{
    if k > 0 {
        lemma_find_at(s.drop_first(), c, k - 1);
    }
}

proof fn lemma_rfind_none(s: Seq<char>, c: char)
    requires
        forall|j: int| 0 <= j < s.len() ==> s[j] != c,
    ensures
        rfind(s, c) is None,
    decreases s.len(),
{
    if s.len() > 0 {
        lemma_rfind_none(s.drop_last(), c);
    }
}

proof fn lemma_rfind_at(s: Seq<char>, c: char, k: int)
    requires
        0 <= k < s.len(),
        s[k] == c,
        forall|j: int| k < j < s.len() ==> s[j] != c,
    ensures
        rfind(s, c) == Some(k as nat),
    decreases s.len(),
{
    if k < s.len() - 1 {
        lemma_rfind_at(s.drop_last(), c, k);
    }
}

/// The first position of `c` in `v`.
pub fn find_char(v: &Vec<char>, c: char) -> (r: Option<usize>)
    ensures
        r matches Some(k) ==> find(v@, c) == Some(k as nat),
        r is None ==> find(v@, c) is None,
{
    let mut i: usize = 0;
    while i < v.len()
        invariant
            i <= v.len(),
            forall|j: int| 0 <= j < i ==> v@[j] != c,
        decreases v.len() - i,
    {
        if v[i] == c {
            proof { lemma_find_at(v@, c, i as int); }
            return Some(i);
        }
        i += 1;
    }
    proof { lemma_find_none(v@, c); }
    None
}

/// The last position of `c` in `v`.
pub fn rfind_char(v: &Vec<char>, c: char) -> (r: Option<usize>)
    ensures
        r matches Some(k) ==> rfind(v@, c) == Some(k as nat),
        r is None ==> rfind(v@, c) is None,
{
    let mut i: usize = v.len();
    while i > 0
        invariant
            i <= v.len(),
            forall|j: int| i <= j < v.len() ==> v@[j] != c,
        decreases i,
    {
        if v[i - 1] == c {
            proof { lemma_rfind_at(v@, c, i - 1); }
            return Some(i - 1);
        }
        i -= 1;
    }
    proof { lemma_rfind_none(v@, c); }
    None
}

proof fn lemma_find_bound(s: Seq<char>, c: char)
    ensures
        find(s, c) matches Some(k) ==> k < s.len() && s[k as int] == c,
    decreases s.len(),
{
    if s.len() > 0 {
        lemma_find_bound(s.drop_first(), c);
    }
}

proof fn lemma_rfind_bound(s: Seq<char>, c: char)
    ensures
        rfind(s, c) matches Some(k) ==> k < s.len() && s[k as int] == c,
    decreases s.len(),
{
    if s.len() > 0 {
        lemma_rfind_bound(s.drop_last(), c);
    }
}

pub broadcast proof fn lemma_find_in_bounds(s: Seq<char>, c: char)
    ensures
        #[trigger] find(s, c) matches Some(k) ==> k < s.len() && s[k as int] == c,
{
    lemma_find_bound(s, c);
}

pub broadcast proof fn lemma_rfind_in_bounds(s: Seq<char>, c: char)
    ensures
        #[trigger] rfind(s, c) matches Some(k) ==> k < s.len() && s[k as int] == c,
{
    lemma_rfind_bound(s, c);
}

/// Space-separated.
pub open spec fn join_words(w: Seq<Seq<char>>) -> Seq<char>
    decreases w.len(),
{
    if w.len() == 0 {
        seq![]
    } else if w.len() == 1 {
        w[0]
    } else {
        join_words(w.drop_last()) + " "@ + w.last()
    }
}

/// A word: at least one character, none of them whitespace.
pub open spec fn is_word(w: Seq<char>) -> bool {
    w.len() > 0 && forall|i: int| 0 <= i < w.len() ==> !is_white(#[trigger] w[i])
}

/// Every one of `ws` is a word.
pub open spec fn all_words(ws: Seq<Seq<char>>) -> bool {
    forall|k: int| 0 <= k < ws.len() ==> is_word(#[trigger] ws[k])
}

/// Reading on past the last word finished: the words so far are words, and
/// the one being read has no whitespace in it.
proof fn lemma_split_acc_words(s: Seq<char>)
    ensures
        all_words(split_acc(s).0),
        forall|i: int| 0 <= i < split_acc(s).1.len() ==> !is_white(#[trigger] split_acc(s).1[i]),
    decreases s.len(),
{
    if s.len() > 0 {
        lemma_split_acc_words(s.drop_last());
        let (done, cur) = split_acc(s.drop_last());
        if !is_white(s.last()) {
            assert forall|i: int| 0 <= i < cur.push(s.last()).len() implies !is_white(
                #[trigger] cur.push(s.last())[i],
            ) by {
                if i < cur.len() {
                    assert(cur.push(s.last())[i] == cur[i]);
                }
            }
        } else if cur.len() > 0 {
            assert forall|k: int| 0 <= k < done.push(cur).len() implies is_word(
                #[trigger] done.push(cur)[k],
            ) by {
                if k < done.len() {
                    assert(done.push(cur)[k] == done[k]);
                }
            }
        }
    }
}

/// What `split_whitespace` gives are words.
pub proof fn lemma_words_are_words(s: Seq<char>)
    ensures
        all_words(words(s)),
{
    lemma_split_acc_words(s);
    let (done, cur) = split_acc(s);
    if cur.len() > 0 {
        assert forall|k: int| 0 <= k < done.push(cur).len() implies is_word(#[trigger] done.push(cur)[k]) by {
            if k < done.len() {
                assert(done.push(cur)[k] == done[k]);
            }
        }
    }
}

/// Reading characters with no whitespace among them only lengthens the
/// word being read.
proof fn lemma_split_acc_word_tail(s: Seq<char>, w: Seq<char>)
    requires
        forall|i: int| 0 <= i < w.len() ==> !is_white(#[trigger] w[i]),
    ensures
        split_acc(s + w) == (split_acc(s).0, split_acc(s).1 + w),
    decreases w.len(),
{
    if w.len() == 0 {
        assert(s + w == s);
        assert(split_acc(s).1 + w == split_acc(s).1);
    } else {
        assert((s + w).drop_last() == s + w.drop_last());
        lemma_split_acc_word_tail(s, w.drop_last());
        assert(!is_white(w[w.len() - 1]));
        assert((split_acc(s).1 + w.drop_last()).push(w.last()) == split_acc(s).1 + w);
    }
}

/// Words joined with spaces read back as those words, the last one still
/// being read.
proof fn lemma_split_acc_join(ws: Seq<Seq<char>>)
    requires
        ws.len() > 0,
        all_words(ws),
    ensures
        split_acc(join_words(ws)) == (ws.drop_last(), ws.last()),
    decreases ws.len(),
{
    let last = ws.last();
    assert(is_word(ws[ws.len() - 1]));
    if ws.len() == 1 {
        lemma_split_acc_word_tail(Seq::empty(), last);
        assert(Seq::<char>::empty() + last == last);
        assert(Seq::<char>::empty() + last == join_words(ws));
        assert(ws.drop_last() =~= Seq::<Seq<char>>::empty());
    } else {
        let front = ws.drop_last();
        assert forall|k: int| 0 <= k < front.len() implies is_word(#[trigger] front[k]) by {
            assert(front[k] == ws[k]);
        }
        lemma_split_acc_join(front);
        assert(is_word(front[front.len() - 1]));
        let j = join_words(front) + " "@;
        reveal_strlit(" ");
        assert(j.drop_last() =~= join_words(front));
        assert(j.last() == ' ');
        assert(split_acc(j) == (front, Seq::<char>::empty())) by {
            assert(front.drop_last().push(front.last()) == front);
        }
        lemma_split_acc_word_tail(j, last);
        assert(Seq::<char>::empty() + last == last);
    }
}

/// Splitting words joined with single spaces gives the words back.
pub proof fn lemma_words_of_join(ws: Seq<Seq<char>>)
    requires
        all_words(ws),
    ensures
        words(join_words(ws)) == ws,
{
    if ws.len() == 0 {
        assert(split_acc(Seq::<char>::empty()) == (Seq::<Seq<char>>::empty(), Seq::<char>::empty()));
    } else {
        lemma_split_acc_join(ws);
        assert(is_word(ws[ws.len() - 1]));
        assert(ws.drop_last().push(ws.last()) == ws);
    }
}

/// The words of `w` joined with single spaces.
pub fn join_vecs(w: &Vec<Vec<char>>) -> (r: String)
    ensures
        r@ == join_words(views(w@)),
{
    let mut r = String::new();
    let mut i: usize = 0;
    assert(views(w@).take(0) == Seq::<Seq<char>>::empty());
    while i < w.len()
        invariant
            i <= w.len(),
            r@ == join_words(views(w@).take(i as int)),
        decreases w.len() - i,
    {
        assert(views(w@).take(i + 1).drop_last() == views(w@).take(i as int));
        if i > 0 {
            r.append(" ");
        }
        let s = string_from(&w[i]);
        r.append(s.as_str());
        i += 1;
    }
    assert(views(w@).take(w.len() as int) == views(w@));
    r
}

/// The character for a decimal digit.
pub open spec fn digit_char(d: nat) -> char {
    if d == 0 {
        '0'
    } else if d == 1 {
        '1'
    } else if d == 2 {
        '2'
    } else if d == 3 {
        '3'
    } else if d == 4 {
        '4'
    } else if d == 5 {
        '5'
    } else if d == 6 {
        '6'
    } else if d == 7 {
        '7'
    } else if d == 8 {
        '8'
    } else {
        '9'
    }
}

/// `n` written in decimal, without leading zeros.
pub open spec fn decimal_of(n: nat) -> Seq<char>
    decreases n,
{
    if n < 10 {
        seq![digit_char(n)]
    } else {
        decimal_of(n / 10).push(digit_char(n % 10))
    }
}

fn digit(d: usize) -> (c: char)
    requires
        d < 10,
    ensures
        c == digit_char(d as nat),
{
    if d == 0 {
        '0'
    } else if d == 1 {
        '1'
    } else if d == 2 {
        '2'
    } else if d == 3 {
        '3'
    } else if d == 4 {
        '4'
    } else if d == 5 {
        '5'
    } else if d == 6 {
        '6'
    } else if d == 7 {
        '7'
    } else if d == 8 {
        '8'
    } else {
        '9'
    }
}

/// Append `n` in decimal to `s`.
pub fn push_decimal(s: &mut String, n: usize)
    ensures
        final(s)@ == old(s)@ + decimal_of(n as nat),
    decreases n,
{
    if n >= 10 {
        push_decimal(s, n / 10);
    }
    let c = digit(n % 10);
    push_char(s, c);
    assert(s@ =~= old(s)@ + decimal_of(n as nat));
}

} // verus!
