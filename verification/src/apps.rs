//! The apps provider's answer: the installed applications the query matched,
//! best first.
//!
//! How well the query matches a name or a description is the fuzzy
//! matcher's to say; what those scores are handed in. The name counts in
//! full and the description at three quarters, so a word in a comment can
//! surface an app without outranking the app that is actually called that.
use vstd::prelude::*;

use crate::action::{Action, ActionView};
use crate::desktop::{launch_command, launch_of, DesktopEntry, EntryView};
use crate::launcher::ActivationView;
use crate::provider::{sort_ranked, stably_ranked, Activation, Candidate};

verus! {

/// An app's score from how well the query matched its name (`by_name`) and
/// its description (`by_comment`): the better of the name's score and three
/// quarters of the description's, or `None` when neither matched. An empty
/// description is never matched.
pub open spec fn app_score(by_name: Option<u32>, by_comment: Option<u32>, comment: Seq<char>) -> Option<
    u32,
> {
    let c = if comment.len() == 0 {
        None
    } else {
        match by_comment {
            Some(s) => Some((s * 3 / 4) as u32),
            None => None,
        }
    };
    match (by_name, c) {
        (Some(a), Some(b)) => Some(
            if a >= b {
                a
            } else {
                b
            },
        ),
        (Some(a), None) => Some(a),
        (None, b) => b,
    }
}

/// A word in a description can surface an app but never outranks the same
/// match on a name: matched as well by its description alone, an app scores
/// no more than one matched by its name, and less for any match worth a
/// point.
pub proof fn law_a_description_never_outranks_a_name(s: u32, name_app: Seq<char>, comment: Seq<char>)
    requires
        comment.len() > 0,
    ensures
        app_score(Some(s), None, name_app) == Some(s),
        app_score(None, Some(s), comment) matches Some(d) && d <= s && (s > 0 ==> d < s),
{
}

/// An app's score (see [`app_score`]).
pub fn score_app(by_name: Option<u32>, by_comment: Option<u32>, comment: &str) -> (r: Option<u32>)
    ensures
        r == app_score(by_name, by_comment, comment@),
{
    let c = if comment.unicode_len() == 0 {
        None
    } else {
        match by_comment {
            Some(s) => Some(((s as u64) * 3 / 4) as u32),
            None => None,
        }
    };
    match (by_name, c) {
        (Some(a), Some(b)) => Some(
            if a >= b {
                a
            } else {
                b
            },
        ),
        (Some(a), None) => Some(a),
        (None, b) => b,
    }
}

/// Whether `c` is the row for the app `e` scored `score`: labelled with its
/// name, its description on the right, and launched, in `terminal` when it
/// needs one.
pub open spec fn app_row(c: Candidate, e: EntryView, score: u32, terminal: Option<Seq<char>>) -> bool {
    &&& c.label@ == e.name
    &&& c.detail@ == e.comment
    &&& c.score == score
    &&& c.activation@ == ActivationView::Action(ActionView::Spawn(launch_of(e, terminal)))
}

/// The indices, in order, of the first `n` apps that scored.
pub open spec fn scored_upto(
    n: nat,
    entries: Seq<DesktopEntry>,
    by_name: Seq<Option<u32>>,
    by_comment: Seq<Option<u32>>,
) -> Seq<int>
    decreases n,
{
    if n == 0 {
        Seq::empty()
    } else {
        let i = n - 1;
        let rest = scored_upto((n - 1) as nat, entries, by_name, by_comment);
        if app_score(by_name[i], by_comment[i], entries[i].comment@) is Some {
            rest.push(i)
        } else {
            rest
        }
    }
}

/// Whether `hits` are the rows of the apps among the first `n` that scored,
/// in the order the apps came.
pub open spec fn app_hits(
    hits: Seq<Candidate>,
    n: nat,
    entries: Seq<DesktopEntry>,
    by_name: Seq<Option<u32>>,
    by_comment: Seq<Option<u32>>,
    terminal: Option<Seq<char>>,
) -> bool {
    let idx = scored_upto(n, entries, by_name, by_comment);
    &&& hits.len() == idx.len()
    &&& forall|k: int|
        0 <= k < hits.len() ==> app_row(
            #[trigger] hits[k],
            entries[idx[k]]@,
            app_score(by_name[idx[k]], by_comment[idx[k]], entries[idx[k]].comment@)->0,
            terminal,
        )
}

/// The rows for the apps the query matched, best first (apps that scored
/// the same keep their order), at most `limit` of them. `by_name[i]` and
/// `by_comment[i]` are how well the query matched `entries[i]`'s name and
/// description.
pub fn app_candidates(
    entries: &[DesktopEntry],
    by_name: &[Option<u32>],
    by_comment: &[Option<u32>],
    terminal: Option<&str>,
    limit: usize,
) -> (r: Vec<Candidate>)
    requires
        by_name@.len() == entries@.len(),
        by_comment@.len() == entries@.len(),
    ensures
        exists|hits: Seq<Candidate>, ranked: Seq<Candidate>|
            {
                &&& app_hits(
                    hits,
                    entries@.len(),
                    entries@,
                    by_name@,
                    by_comment@,
                    match terminal {
                        Some(t) => Some(t@),
                        None => None,
                    },
                )
                &&& #[trigger] stably_ranked(hits, ranked)
                &&& r@ == if limit < ranked.len() {
                    ranked.take(limit as int)
                } else {
                    ranked
                }
            },
{
    let ghost term = match terminal {
        Some(t) => Some(t@),
        None => None,
    };
    let mut hits: Vec<Candidate> = Vec::new();
    let mut i: usize = 0;
    while i < entries.len()
        invariant
            i <= entries@.len() == by_name@.len() == by_comment@.len(),
            term == match terminal {
                Some(t) => Some(t@),
                None => None::<Seq<char>>,
            },
            app_hits(hits@, i as nat, entries@, by_name@, by_comment@, term),
        decreases entries.len() - i,
    {
        let e = &entries[i];
        let ghost idx = scored_upto(i as nat, entries@, by_name@, by_comment@);
        assert(scored_upto((i + 1) as nat, entries@, by_name@, by_comment@) == if app_score(
            by_name@[i as int],
            by_comment@[i as int],
            entries@[i as int].comment@,
        ) is Some {
            idx.push(i as int)
        } else {
            idx
        });
        match score_app(by_name[i], by_comment[i], e.comment.as_str()) {
            Some(score) => {
                let ghost before = hits@;
                let command = launch_command(e, terminal);
                let c = Candidate {
                    label: e.name.clone(),
                    detail: e.comment.clone(),
                    score,
                    activation: Activation::Action(Action::Spawn(command)),
                };
                assert(app_row(c, entries@[i as int]@, score, term));
                hits.push(c);
                assert(hits@ == before.push(c));
                assert forall|k: int| 0 <= k < hits@.len() implies app_row(
                    #[trigger] hits@[k],
                    entries@[idx.push(i as int)[k]]@,
                    app_score(
                        by_name@[idx.push(i as int)[k]],
                        by_comment@[idx.push(i as int)[k]],
                        entries@[idx.push(i as int)[k]].comment@,
                    )->0,
                    term,
                ) by {
                    if k < before.len() {
                        assert(hits@[k] == before[k]);
                        assert(idx.push(i as int)[k] == idx[k]);
                    }
                }
            },
            None => {},
        }
        i += 1;
    }
    let ghost all = hits@;
    let mut ranked = sort_ranked(hits);
    let ghost sorted = ranked@;
    ranked.truncate(limit);
    proof {
        if limit < sorted.len() {
            assert(ranked@ == sorted.take(limit as int));
        } else {
            assert(ranked@ =~= sorted);
        }
        assert(stably_ranked(all, sorted));
    }
    ranked
}

} // verus!
