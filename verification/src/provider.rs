//! What answers a launcher query, and how the answers are ordered.
//!
//! Every provider scores on one bounded scale, so results from different
//! providers can be ranked against each other at all.
use vstd::prelude::*;

use crate::action::Action;

verus! {

broadcast use Seq::filter_distributes_over_add, Seq::lemma_filter_push;

/// The top of the shared confidence scale, which every provider scores on:
/// a certain answer, such as the maths provider's result. The scale is the
/// fuzzy matcher's, and its top is a thousand: a certain maths answer
/// scored at it outranks an app scored at nine hundred.
pub const CONFIDENCE_MAX: u32 = 1000;

/// What accepting a row does.
#[derive(Debug, Clone, PartialEq)]
pub enum Activation {
    /// Any window-manager action: how an app launches, and what a Lua row's
    /// `action = "..."` becomes.
    Action(Action),
    /// Put text on the seat selection. The maths provider's accept.
    Copy(String),
    /// Say something and close.
    Report(String),
}

/// One result a provider offers.
#[derive(Debug, Clone, PartialEq)]
pub struct Candidate {
    pub label: String,
    /// Right-hand detail: the command a row runs, an equation's value. May be
    /// empty.
    pub detail: String,
    /// Confidence on the shared `0..=CONFIDENCE_MAX` scale.
    pub score: u32,
    pub activation: Activation,
}

/// One provider's answers.
#[derive(Debug, Clone, PartialEq)]
pub struct Group {
    pub name: String,
    pub rows: Vec<Candidate>,
}

/// A provider written in Lua: the name its group is shown under, and which
/// registered callback answers for it.
#[derive(Debug, Clone)]
pub struct LuaProvider {
    name: String,
    index: usize,
}

/// One row a Lua callback answered with. Rows name an action, never a
/// callback, so a Lua provider can do what a keybind can and nothing more.
#[derive(Debug, Clone)]
pub struct LuaRow {
    pub label: String,
    pub detail: String,
    pub score: u32,
    pub action: Action,
}

impl LuaProvider {
    /// The provider registered `index`-th, shown as `name`.
    pub fn new(name: String, index: usize) -> (r: Self)
        ensures
            r.name_view() == name@,
            r.index_view() == index,
    {
        LuaProvider { name, index }
    }

    /// The group heading.
    pub closed spec fn name_view(&self) -> Seq<char> {
        self.name@
    }

    /// Which registered callback answers.
    pub closed spec fn index_view(&self) -> usize {
        self.index
    }

    /// The group heading, and the name a warning about this provider uses.
    pub fn name(&self) -> (r: &str)
        ensures
            r@ == self.name_view(),
    {
        self.name.as_str()
    }

    /// Which registered callback answers.
    pub fn index(&self) -> (r: usize)
        ensures
            r == self.index_view(),
    {
        self.index
    }

    /// The candidates a callback's rows make: the first `limit` of them, in
    /// the order given, each accepted by running its action.
    pub fn candidates(&self, rows: Vec<LuaRow>, limit: usize) -> (r: Vec<Candidate>)
        ensures
            r@.len() == if rows@.len() < limit {
                rows@.len()
            } else {
                limit as nat
            },
            forall|i: int|
                0 <= i < r@.len() ==> {
                    &&& (#[trigger] r@[i]).label == rows@[i].label
                    &&& r@[i].detail == rows@[i].detail
                    &&& r@[i].score == rows@[i].score
                    &&& r@[i].activation == Activation::Action(rows@[i].action)
                },
    {
        let ghost all = rows@;
        let mut rest = rows;
        let mut out: Vec<Candidate> = Vec::new();
        let mut i: usize = 0;
        while i < limit && rest.len() > 0
            invariant
                i <= limit,
                i + rest@.len() == all.len(),
                rest@ == all.skip(i as int),
                out@.len() == i,
                forall|j: int|
                    0 <= j < i ==> {
                        &&& (#[trigger] out@[j]).label == all[j].label
                        &&& out@[j].detail == all[j].detail
                        &&& out@[j].score == all[j].score
                        &&& out@[j].activation == Activation::Action(all[j].action)
                    },
            decreases rest.len(),
        {
            let row = rest.remove(0);
            assert(row == all[i as int]);
            let LuaRow { label, detail, score, action } = row;
            out.push(Candidate { label, detail, score, activation: Activation::Action(action) });
            i += 1;
        }
        out
    }
}

/// Something ordered by a score, best first.
pub trait Ranked: Sized {
    /// The score this is ordered by.
    spec fn rank(&self) -> u32;

    /// The score this is ordered by.
    fn rank_of(&self) -> (r: u32)
        ensures
            r == self.rank(),
    ;
}

impl Ranked for Candidate {
    open spec fn rank(&self) -> u32 {
        self.score
    }

    fn rank_of(&self) -> (r: u32) {
        self.score
    }
}

impl Ranked for Group {
    /// A group is as good as its first row; an empty group scores nothing.
    open spec fn rank(&self) -> u32 {
        if self.rows@.len() > 0 {
            self.rows@[0].score
        } else {
            0
        }
    }

    fn rank_of(&self) -> (r: u32) {
        if self.rows.len() > 0 {
            self.rows[0].score
        } else {
            0
        }
    }
}

/// Whether an item scores `k`.
pub open spec fn has_rank<T: Ranked>(k: u32) -> spec_fn(T) -> bool {
    |x: T| x.rank() == k
}

/// The items of `s` scored `k`, in their order in `s`.
pub open spec fn with_rank<T: Ranked>(s: Seq<T>, k: u32) -> Seq<T> {
    s.filter(has_rank(k))
}

/// Best first: no item scores more than one before it.
pub open spec fn ranked_desc<T: Ranked>(s: Seq<T>) -> bool {
    forall|a: int, b: int| 0 <= a < b < s.len() ==> #[trigger] s[a].rank() >= #[trigger] s[b].rank()
}

/// `out` is `input` ordered best first, items of equal score keeping their
/// order: for every score, the items with that score are the same, in the
/// same order, on both sides.
pub open spec fn stably_ranked<T: Ranked>(input: Seq<T>, out: Seq<T>) -> bool {
    &&& ranked_desc(out)
    &&& forall|k: u32| #[trigger] with_rank(out, k) == with_rank(input, k)
}

/// Filtering a sequence none of whose items pass leaves nothing.
proof fn lemma_filter_none<T>(s: Seq<T>, pred: spec_fn(T) -> bool)
    requires
        forall|i: int| 0 <= i < s.len() ==> !pred(#[trigger] s[i]),
    ensures
        s.filter(pred) == Seq::<T>::empty(),
    decreases s.len(),
{
    reveal(Seq::filter);
    if s.len() > 0 {
        lemma_filter_none(s.drop_last(), pred);
    }
}

/// Filtering by a predicate `x` passes keeps every copy of `x`.
proof fn lemma_filter_keeps_count<T>(s: Seq<T>, pred: spec_fn(T) -> bool, x: T)
    requires
        pred(x),
    ensures
        s.filter(pred).to_multiset().count(x) == s.to_multiset().count(x),
    decreases s.len(),
{
    broadcast use vstd::seq_lib::group_to_multiset_ensures;

    reveal(Seq::filter);
    if s.len() > 0 {
        let init = s.drop_last();
        lemma_filter_keeps_count(init, pred, x);
        assert(s == init.push(s.last()));
        assert(s.to_multiset() =~= init.to_multiset().insert(s.last()));
        if pred(s.last()) {
            assert(s.filter(pred) == init.filter(pred).push(s.last()));
            assert(s.filter(pred).to_multiset() =~= init.filter(pred).to_multiset().insert(
                s.last(),
            ));
        } else {
            assert(s.filter(pred) == init.filter(pred));
        }
    } else {
        assert(s.filter(pred) =~= s);
    }
}

/// Ordering loses nothing and invents nothing: a stable ordering of a list
/// holds exactly what the list held, as many times.
pub proof fn law_ordering_keeps_every_answer<T: Ranked>(input: Seq<T>, out: Seq<T>)
    requires
        stably_ranked(input, out),
    ensures
        out.to_multiset() == input.to_multiset(),
        out.len() == input.len(),
{
    broadcast use vstd::seq_lib::group_to_multiset_ensures;

    assert forall|x: T| #[trigger] out.to_multiset().count(x) == input.to_multiset().count(x) by {
        let k = x.rank();
        lemma_filter_keeps_count(out, has_rank(k), x);
        lemma_filter_keeps_count(input, has_rank(k), x);
        assert(with_rank(out, k) == with_rank(input, k));
    }
    assert(out.to_multiset() =~= input.to_multiset());
    assert(out.len() == out.to_multiset().len());
    assert(input.len() == input.to_multiset().len());
}

/// `s` ordered best first, stably (see [`stably_ranked`]).
pub fn sort_ranked<T: Ranked>(s: Vec<T>) -> (r: Vec<T>)
    ensures
        stably_ranked(s@, r@),
{
    let ghost input = s@;
    let mut rest = s;
    let n = rest.len();
    let mut out: Vec<T> = Vec::new();
    let mut i: usize = 0;
    assert forall|k: u32| #[trigger] with_rank(out@, k) == with_rank(input.take(0), k) by {
        reveal(Seq::filter);
        assert(input.take(0) =~= Seq::<T>::empty());
    }
    while rest.len() > 0
        invariant
            i + rest@.len() == input.len() == n,
            rest@ == input.skip(i as int),
            ranked_desc(out@),
            forall|k: u32| #[trigger] with_rank(out@, k) == with_rank(input.take(i as int), k),
        decreases rest.len(),
    {
        let x = rest.remove(0);
        let kx = x.rank_of();
        assert(x == input[i as int]);
        assert(input.take(i + 1) =~= input.take(i as int).push(x));
        let mut p: usize = 0;
        while p < out.len() && out[p].rank_of() >= kx
            invariant
                p <= out.len(),
                forall|j: int| 0 <= j < p ==> #[trigger] out@[j].rank() >= kx,
            decreases out.len() - p,
        {
            p += 1;
        }
        let ghost before = out@;
        proof {
            assert forall|j: int| p <= j < before.len() implies #[trigger] before[j].rank() < kx by {
                assert(before[p as int].rank() < kx);
                if j > p {
                    assert(before[p as int].rank() >= before[j].rank());
                }
            }
        }
        out.insert(p, x);
        proof {
            let pre = before.take(p as int);
            let post = before.skip(p as int);
            assert(before =~= pre + post);
            assert(out@ =~= pre + seq![x] + post);
            assert forall|k: u32| #[trigger] with_rank(out@, k) == with_rank(
                input.take(i + 1),
                k,
            ) by {
                let pred = has_rank::<T>(k);
                assert(seq![x] =~= Seq::<T>::empty().push(x));
                reveal(Seq::filter);
                assert(Seq::<T>::empty().filter(pred) =~= Seq::<T>::empty());
                assert(with_rank(before, k) == with_rank(input.take(i as int), k));
                if k == kx {
                    lemma_filter_none(post, pred);
                    assert(with_rank(before, k) == pre.filter(pred) + post.filter(pred));
                    assert(with_rank(out@, k) =~= with_rank(before, k).push(x));
                } else {
                    assert(with_rank(out@, k) =~= with_rank(before, k));
                }
            }
            assert forall|a: int, b: int| 0 <= a < b < out@.len() implies #[trigger] out@[a].rank()
                >= #[trigger] out@[b].rank() by {
                if b < p {
                    assert(out@[a] == before[a] && out@[b] == before[b]);
                } else if b == p {
                    assert(out@[a] == before[a]);
                } else if a == p {
                    assert(out@[b] == before[b - 1]);
                } else if a < p {
                    assert(out@[a] == before[a] && out@[b] == before[b - 1]);
                } else {
                    assert(out@[a] == before[a - 1] && out@[b] == before[b - 1]);
                }
            }
        }
        i += 1;
    }
    assert(input.take(i as int) =~= input);
    out
}

/// The groups that have at least one row, in their order.
pub open spec fn answered(groups: Seq<Group>) -> Seq<Group> {
    groups.filter(|g: Group| g.rows@.len() > 0)
}

/// `out` is `groups` with the empty ones dropped, the rows of each ordered
/// best first, and the groups ordered by their best row; ties, between rows
/// and between groups, keep the order they came in.
pub open spec fn ordered_groups(groups: Seq<Group>, out: Seq<Group>) -> bool {
    exists|mid: Seq<Group>|
        {
            &&& mid.len() == answered(groups).len()
            &&& forall|i: int|
                0 <= i < mid.len() ==> (#[trigger] mid[i]).name == answered(groups)[i].name
                    && stably_ranked(answered(groups)[i].rows@, mid[i].rows@)
            &&& stably_ranked(mid, out)
        }
}

/// Order groups by their best candidate, descending; ties keep
/// registration order. Empty groups are dropped, and rows within a group are
/// re-sorted, since a provider may return its rows in any order.
pub fn order_groups(groups: Vec<Group>) -> (r: Vec<Group>)
    ensures
        ordered_groups(groups@, r@),
{
    let ghost input = groups@;
    let mut rest = groups;
    let n = rest.len();
    let mut mid: Vec<Group> = Vec::new();
    let mut i: usize = 0;
    proof {
        reveal(Seq::filter);
        assert(input.take(0) =~= Seq::<Group>::empty());
    }
    while rest.len() > 0
        invariant
            i + rest@.len() == input.len() == n,
            rest@ == input.skip(i as int),
            mid@.len() == answered(input.take(i as int)).len(),
            forall|j: int|
                0 <= j < mid@.len() ==> (#[trigger] mid@[j]).name == answered(input.take(i as int))[j].name
                    && stably_ranked(answered(input.take(i as int))[j].rows@, mid@[j].rows@),
        decreases rest.len(),
    {
        let g = rest.remove(0);
        assert(g == input[i as int]);
        assert(input.take(i + 1) =~= input.take(i as int).push(g));
        assert(answered(input.take(i + 1)) == answered(input.take(i as int).push(g)));
        if g.rows.len() > 0 {
            let Group { name, rows } = g;
            let ghost rows_in = rows@;
            let sorted = sort_ranked(rows);
            let ghost before = mid@;
            mid.push(Group { name, rows: sorted });
            proof {
                let a = answered(input.take(i + 1));
                assert(a == answered(input.take(i as int)).push(g));
                assert forall|j: int| 0 <= j < mid@.len() implies (#[trigger] mid@[j]).name == a[j].name
                    && stably_ranked(a[j].rows@, mid@[j].rows@) by {
                    if j < before.len() {
                        assert(mid@[j] == before[j]);
                    }
                }
            }
        } else {
            assert(answered(input.take(i + 1)) == answered(input.take(i as int)));
        }
        i += 1;
    }
    assert(input.take(i as int) =~= input);
    let ghost m = mid@;
    let out = sort_ranked(mid);
    assert(ordered_groups(input, out@)) by {
        assert(m.len() == answered(input).len());
    }
    out
}

/// `shown` is `answered` with its rows reordered: the same provider, the
/// same rows, as many times.
pub open spec fn same_answers(shown: Group, answered: Group) -> bool {
    shown.name == answered.name && shown.rows@.to_multiset() == answered.rows@.to_multiset()
}

/// `g` is one of `answered`, its rows reordered.
pub open spec fn answers_one_of(g: Group, answered: Seq<Group>) -> bool {
    exists|j: int| 0 <= j < answered.len() && #[trigger] same_answers(g, answered[j])
}

/// Every provider that answered is shown, and each keeps all of its rows:
/// ordering drops only the groups with nothing to say.
pub proof fn law_every_answer_is_shown(groups: Seq<Group>, out: Seq<Group>)
    requires
        ordered_groups(groups, out),
    ensures
        out.len() == answered(groups).len(),
        forall|i: int| 0 <= i < out.len() ==> answers_one_of(#[trigger] out[i], answered(groups)),
{
    broadcast use vstd::seq_lib::group_to_multiset_ensures;

    let mid = choose|mid: Seq<Group>|
        {
            &&& mid.len() == answered(groups).len()
            &&& forall|i: int|
                0 <= i < mid.len() ==> (#[trigger] mid[i]).name == answered(groups)[i].name
                    && stably_ranked(answered(groups)[i].rows@, mid[i].rows@)
            &&& stably_ranked(mid, out)
        };
    law_ordering_keeps_every_answer(mid, out);
    assert forall|i: int| 0 <= i < out.len() implies answers_one_of(#[trigger] out[i], answered(groups)) by {
        assert(out.to_multiset().count(out[i]) > 0);
        assert(mid.to_multiset().count(out[i]) > 0);
        assert(mid.contains(out[i]));
        let j = choose|j: int| 0 <= j < mid.len() && mid[j] == out[i];
        law_ordering_keeps_every_answer(answered(groups)[j].rows@, mid[j].rows@);
        assert(same_answers(out[i], answered(groups)[j]));
    }
}

} // verus!
