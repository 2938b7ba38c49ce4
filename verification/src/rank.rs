//! Filters candidates by a fuzzy query and orders them by relevance.

use crate::candidate::{names_of, Candidate};
use fuzzy_matcher::skim::SkimMatcherV2;
use fuzzy_matcher::FuzzyMatcher;
use vstd::prelude::*;

verus! {

/// The score that the skim matcher gives to `choice` for `pattern` when it
/// respects case; `None` when it finds no match.
pub uninterp spec fn skim_score(choice: Seq<char>, pattern: Seq<char>) -> Option<i64>;

/// Whether the characters of `pattern` occur in `choice` in order, not
/// necessarily next to each other. Each character of `pattern` is taken at
/// its first occurrence after the one before.
pub open spec fn occurs_in_order(pattern: Seq<char>, choice: Seq<char>) -> bool
    decreases choice.len(),
{
    if pattern.len() == 0 {
        true
    } else if choice.len() == 0 {
        false
    } else if choice[0] == pattern[0] {
        occurs_in_order(pattern.skip(1), choice.skip(1))
    } else {
        occurs_in_order(pattern, choice.skip(1))
    }
}

/// Trusted: `SkimMatcherV2::default().respect_case().fuzzy_match(choice,
/// pattern)`. The matcher answers `Some(0)` to an empty pattern; otherwise
/// it first looks for the pattern's characters in order in the choice,
/// character for character, answers `None` when that fails and a score when
/// it succeeds. The score itself is only named.
#[verifier::external_body]
fn skim_match(choice: &str, pattern: &str) -> (r: Option<i64>)
    ensures
        r == skim_score(choice@, pattern@),
        r is Some <==> occurs_in_order(pattern@, choice@),
        pattern@.len() == 0 ==> r == Some(0i64),
{
    SkimMatcherV2::default().respect_case().fuzzy_match(choice, pattern)
}

/// Whether `positions` places `pattern` in `choice`: one position of
/// `choice` for each character of `pattern`, in rising order, each holding
/// that character.
pub open spec fn places(positions: Seq<int>, pattern: Seq<char>, choice: Seq<char>) -> bool {
    &&& positions.len() == pattern.len()
    &&& forall|i: int|
        0 <= i < positions.len() ==> 0 <= #[trigger] positions[i] < choice.len() && choice[positions[i]]
            == pattern[i]
    &&& forall|i: int, j: int|
        0 <= i < j < positions.len() ==> #[trigger] positions[i] < #[trigger] positions[j]
}

/// Where the pattern occurs in order, every one of its characters has a
/// place in the choice, and the places rise.
pub proof fn lemma_occurrence_has_places(pattern: Seq<char>, choice: Seq<char>) -> (positions: Seq<int>)
    requires
        occurs_in_order(pattern, choice),
    ensures
        places(positions, pattern, choice),
    decreases choice.len(),
{
    if pattern.len() == 0 {
        Seq::empty()
    } else if choice[0] == pattern[0] {
        let tail = lemma_occurrence_has_places(pattern.skip(1), choice.skip(1));
        let positions = Seq::new(
            pattern.len(),
            |i: int|
                if i == 0 {
                    0
                } else {
                    tail[i - 1] + 1
                },
        );
        assert forall|i: int| 0 <= i < positions.len() implies 0 <= #[trigger] positions[i] < choice.len()
            && choice[positions[i]] == pattern[i] by {
            if i > 0 {
                assert(0 <= tail[i - 1] < choice.skip(1).len());
                assert(choice.skip(1)[tail[i - 1]] == choice[tail[i - 1] + 1]);
                assert(pattern.skip(1)[i - 1] == pattern[i]);
            }
        }
        assert forall|i: int, j: int| 0 <= i < j < positions.len() implies #[trigger] positions[i]
            < #[trigger] positions[j] by {
            assert(0 <= tail[j - 1]);
            if i > 0 {
                assert(tail[i - 1] < tail[j - 1]);
            }
        }
        positions
    } else {
        let tail = lemma_occurrence_has_places(pattern, choice.skip(1));
        let positions = Seq::new(pattern.len(), |i: int| tail[i] + 1);
        assert forall|i: int| 0 <= i < positions.len() implies 0 <= #[trigger] positions[i] < choice.len()
            && choice[positions[i]] == pattern[i] by {
            assert(0 <= tail[i] < choice.skip(1).len());
            assert(choice.skip(1)[tail[i]] == choice[tail[i] + 1]);
        }
        assert forall|i: int, j: int| 0 <= i < j < positions.len() implies #[trigger] positions[i]
            < #[trigger] positions[j] by {
            assert(tail[i] < tail[j]);
        }
        positions
    }
}

/// Where the characters of the pattern have rising places in the choice,
/// the pattern occurs in order: a pattern that does not occur in order has
/// no such places.
pub proof fn lemma_places_make_occurrence(positions: Seq<int>, pattern: Seq<char>, choice: Seq<char>)
    requires
        places(positions, pattern, choice),
    ensures
        occurs_in_order(pattern, choice),
    decreases choice.len(),
{
    if pattern.len() > 0 {
        assert(0 <= positions[0] < choice.len());
        let rest = choice.skip(1);
        if choice[0] == pattern[0] {
            let shifted = Seq::new(pattern.skip(1).len(), |i: int| positions[i + 1] - 1);
            assert forall|i: int| 0 <= i < shifted.len() implies 0 <= #[trigger] shifted[i] < rest.len()
                && rest[shifted[i]] == pattern.skip(1)[i] by {
                assert(positions[0] < positions[i + 1]);
                assert(0 <= positions[i + 1] < choice.len());
                assert(rest[shifted[i]] == choice[positions[i + 1]]);
                assert(pattern.skip(1)[i] == pattern[i + 1]);
            }
            assert forall|i: int, j: int| 0 <= i < j < shifted.len() implies #[trigger] shifted[i]
                < #[trigger] shifted[j] by {
                assert(positions[i + 1] < positions[j + 1]);
            }
            lemma_places_make_occurrence(shifted, pattern.skip(1), rest);
        } else {
            let shifted = Seq::new(pattern.len(), |i: int| positions[i] - 1);
            assert forall|i: int| 0 <= i < shifted.len() implies 0 <= #[trigger] shifted[i] < rest.len()
                && rest[shifted[i]] == pattern[i] by {
                assert(0 <= positions[i] < choice.len());
                if i > 0 {
                    assert(positions[0] < positions[i]);
                }
                assert(choice[positions[i]] == pattern[i]);
                assert(positions[i] != 0);
                assert(rest[shifted[i]] == choice[positions[i]]);
            }
            assert forall|i: int, j: int| 0 <= i < j < shifted.len() implies #[trigger] shifted[i]
                < #[trigger] shifted[j] by {
                assert(positions[i] < positions[j]);
            }
            lemma_places_make_occurrence(shifted, pattern, rest);
        }
    }
}

/// One row of a ranked view: a candidate, by its position in the candidate
/// list, and its score.
#[derive(Clone, Copy, Debug, PartialEq, Eq)]
pub struct RankedEntry {
    pub score: i64,
    pub index: usize,
}

/// Whether row `a` stands before row `b`: by the higher score, and at equal
/// scores by the earlier place in the candidate list.
pub open spec fn precedes(a: RankedEntry, b: RankedEntry) -> bool {
    a.score > b.score || (a.score == b.score && a.index < b.index)
}

/// Whether `view` is the ranked view of candidates with the given match
/// results: it holds exactly the candidates that matched, each with its
/// score, ordered by `precedes`.
pub open spec fn is_ranking(view: Seq<RankedEntry>, scores: Seq<Option<i64>>) -> bool {
    &&& forall|j: int|
        0 <= j < view.len() ==> (#[trigger] view[j]).index < scores.len() && scores[view[j].index as int]
            == Some(view[j].score)
    &&& forall|i: int, j: int| 0 <= i < j < view.len() ==> precedes(#[trigger] view[i], #[trigger] view[j])
    &&& forall|k: int|
        0 <= k < scores.len() && (#[trigger] scores[k]) is Some ==> exists|j: int|
            0 <= j < view.len() && (#[trigger] view[j]).index == k
}

/// Whether `view` shows exactly the candidates whose raw name holds the
/// characters of `query` in order: every row names such a candidate, and
/// every such candidate has a row.
pub open spec fn shows_matches(view: Seq<RankedEntry>, query: Seq<char>, candidates: Seq<Candidate>) -> bool {
    &&& forall|j: int|
        0 <= j < view.len() ==> (#[trigger] view[j]).index < candidates.len() && occurs_in_order(
            query,
            candidates[view[j].index as int].name(),
        )
    &&& forall|k: int|
        0 <= k < candidates.len() ==> (occurs_in_order(query, (#[trigger] candidates[k]).name())
            <==> exists|j: int| 0 <= j < view.len() && (#[trigger] view[j]).index == k)
}

/// The match result of each name for `query`.
pub open spec fn scores_of(query: Seq<char>, names: Seq<Seq<char>>) -> Seq<Option<i64>> {
    Seq::new(names.len(), |k: int| skim_score(names[k], query))
}

/// The view that shows every one of `n` candidates in list order with the
/// score `score`.
pub open spec fn full_view(n: nat, score: i64) -> Seq<RankedEntry> {
    Seq::new(n, |j: int| RankedEntry { score, index: j as usize })
}

/// Orders the candidates that matched: by descending score, and at equal
/// scores in the order of the candidate list.
pub fn rank_scored(scores: &Vec<Option<i64>>) -> (view: Vec<RankedEntry>)
    ensures
        is_ranking(view@, scores@),
{
    let mut view: Vec<RankedEntry> = Vec::new();
    let mut k: usize = 0;
    while k < scores.len()
        invariant
            k <= scores.len(),
            is_ranking(view@, scores@.take(k as int)),
        decreases scores.len() - k,
    {
        let ghost before = view@;
        match scores[k] {
            Some(score) => {
                let mut p: usize = 0;
                while p < view.len() && view[p].score >= score
                    invariant
                        p <= view.len(),
                        forall|j: int| 0 <= j < p ==> (#[trigger] view[j]).score >= score,
                    decreases view.len() - p,
                {
                    p = p + 1;
                }
                let entry = RankedEntry { score, index: k };
                view.insert(p, entry);
                proof {
                    lemma_insert_keeps_ranking(before, scores@, k as int, p as int, entry);
                }
            },
            None => {
                proof {
                    lemma_skip_keeps_ranking(before, scores@, k as int);
                }
            },
        }
        k = k + 1;
    }
    assert(scores@.take(k as int) =~= scores@);
    view
}

proof fn lemma_skip_keeps_ranking(view: Seq<RankedEntry>, scores: Seq<Option<i64>>, k: int)
    requires
        0 <= k < scores.len(),
        is_ranking(view, scores.take(k)),
        scores[k] is None,
    ensures
        is_ranking(view, scores.take(k + 1)),
{
    let old_scores = scores.take(k);
    let new_scores = scores.take(k + 1);
    assert forall|j: int| 0 <= j < view.len() implies (#[trigger] view[j]).index < new_scores.len()
        && new_scores[view[j].index as int] == Some(view[j].score) by {
        assert(old_scores[view[j].index as int] == Some(view[j].score));
    }
    assert forall|m: int| 0 <= m < new_scores.len() && (#[trigger] new_scores[m]) is Some implies exists|
        j: int,
    |
        0 <= j < view.len() && (#[trigger] view[j]).index == m by {
        assert(m < k);
        assert(old_scores[m] is Some);
    }
}

proof fn lemma_insert_keeps_ranking(
    view: Seq<RankedEntry>,
    scores: Seq<Option<i64>>,
    k: int,
    p: int,
    entry: RankedEntry,
)
    requires
        0 <= k < scores.len(),
        k <= usize::MAX,
        is_ranking(view, scores.take(k)),
        scores[k] == Some(entry.score),
        entry.index == k,
        0 <= p <= view.len(),
        forall|j: int| 0 <= j < p ==> (#[trigger] view[j]).score >= entry.score,
        p < view.len() ==> view[p].score < entry.score,
    ensures
        is_ranking(view.insert(p, entry), scores.take(k + 1)),
{
    let old_scores = scores.take(k);
    let new_scores = scores.take(k + 1);
    let grown = view.insert(p, entry);
    assert forall|j: int| 0 <= j < grown.len() implies (#[trigger] grown[j]).index < new_scores.len()
        && new_scores[grown[j].index as int] == Some(grown[j].score) by {
        if j < p {
            assert(grown[j] == view[j]);
            assert(old_scores[view[j].index as int] == Some(view[j].score));
        } else if j > p {
            assert(grown[j] == view[j - 1]);
            assert(old_scores[view[j - 1].index as int] == Some(view[j - 1].score));
        }
    }
    assert forall|i: int, j: int| 0 <= i < j < grown.len() implies precedes(
        #[trigger] grown[i],
        #[trigger] grown[j],
    ) by {
        if j < p {
            assert(grown[i] == view[i] && grown[j] == view[j]);
        } else if j == p {
            assert(grown[i] == view[i]);
            assert(view[i].index < old_scores.len());
        } else if i < p {
            assert(grown[i] == view[i] && grown[j] == view[j - 1]);
        } else if i == p {
            assert(grown[j] == view[j - 1]);
            if j - 1 > p {
                assert(precedes(view[p], view[j - 1]));
            }
        } else {
            assert(grown[i] == view[i - 1] && grown[j] == view[j - 1]);
        }
    }
    assert forall|m: int| 0 <= m < new_scores.len() && (#[trigger] new_scores[m]) is Some implies exists|
        j: int,
    |
        0 <= j < grown.len() && (#[trigger] grown[j]).index == m by {
        if m == k {
            assert(grown[p].index == m);
        } else {
            assert(old_scores[m] is Some);
            let j = choose|j: int| 0 <= j < view.len() && (#[trigger] view[j]).index == m;
            if j < p {
                assert(grown[j] == view[j]);
            } else {
                assert(grown[j + 1] == view[j]);
            }
        }
    }
}

/// Asks the matcher for the match result of every candidate's raw name.
pub fn score_all(query: &str, candidates: &Vec<Candidate>) -> (scores: Vec<Option<i64>>)
    ensures
        scores@ == scores_of(query@, names_of(candidates@)),
        forall|k: int|
            0 <= k < candidates.len() ==> ((#[trigger] scores[k]) is Some <==> occurs_in_order(
                query@,
                candidates[k].name(),
            )),
        query@.len() == 0 ==> forall|k: int| 0 <= k < candidates.len() ==> #[trigger] scores[k] == Some(0i64),
{
    let mut scores: Vec<Option<i64>> = Vec::new();
    let mut k: usize = 0;
    while k < candidates.len()
        invariant
            k <= candidates.len(),
            scores@ == scores_of(query@, names_of(candidates@)).take(k as int),
            forall|m: int|
                0 <= m < k ==> ((#[trigger] scores[m]) is Some <==> occurs_in_order(
                    query@,
                    candidates[m].name(),
                )),
            query@.len() == 0 ==> forall|m: int| 0 <= m < k ==> #[trigger] scores[m] == Some(0i64),
        decreases candidates.len() - k,
    {
        let r = skim_match(candidates[k].raw_name(), query);
        scores.push(r);
        k = k + 1;
        assert(scores@ =~= scores_of(query@, names_of(candidates@)).take(k as int));
    }
    assert(scores_of(query@, names_of(candidates@)).take(k as int) =~= scores_of(
        query@,
        names_of(candidates@),
    ));
    scores
}

/// Two ranked views of the same match results are the same view: ranking
/// the same input again gives the same rows in the same order.
pub proof fn lemma_ranking_unique(a: Seq<RankedEntry>, b: Seq<RankedEntry>, scores: Seq<Option<i64>>)
    requires
        is_ranking(a, scores),
        is_ranking(b, scores),
    ensures
        a == b,
{
    assert forall|e: RankedEntry| a.contains(e) <==> b.contains(e) by {
        lemma_ranking_holds(a, b, scores, e);
        lemma_ranking_holds(b, a, scores, e);
    }
    lemma_ordered_same_rows(a, b);
}

proof fn lemma_ranking_holds(a: Seq<RankedEntry>, b: Seq<RankedEntry>, scores: Seq<Option<i64>>, e: RankedEntry)
    requires
        is_ranking(a, scores),
        is_ranking(b, scores),
    ensures
        a.contains(e) ==> b.contains(e),
{
    if a.contains(e) {
        let i = choose|i: int| 0 <= i < a.len() && a[i] == e;
        assert(a[i].index < scores.len());
        assert(scores[e.index as int] is Some);
        let j = choose|j: int| 0 <= j < b.len() && (#[trigger] b[j]).index == e.index as int;
        assert(scores[b[j].index as int] == Some(b[j].score));
        assert(b[j] == e);
    }
}

proof fn lemma_ordered_same_rows(a: Seq<RankedEntry>, b: Seq<RankedEntry>)
    requires
        forall|i: int, j: int| 0 <= i < j < a.len() ==> precedes(#[trigger] a[i], #[trigger] a[j]),
        forall|i: int, j: int| 0 <= i < j < b.len() ==> precedes(#[trigger] b[i], #[trigger] b[j]),
        forall|e: RankedEntry| a.contains(e) <==> b.contains(e),
    ensures
        a == b,
    decreases a.len(),
{
    if a.len() == 0 {
        if b.len() > 0 {
            assert(b.contains(b[0]));
        }
        assert(a =~= b);
    } else {
        assert(a.contains(a[0]));
        let j = choose|j: int| 0 <= j < b.len() && b[j] == a[0];
        assert(b.contains(b[0]));
        let i = choose|i: int| 0 <= i < a.len() && a[i] == b[0];
        if j > 0 {
            assert(precedes(b[0], b[j]));
            if i > 0 {
                assert(precedes(a[0], a[i]));
            }
        }
        assert(a[0] == b[0]);
        let ta = a.skip(1);
        let tb = b.skip(1);
        assert forall|e: RankedEntry| ta.contains(e) <==> tb.contains(e) by {
            if ta.contains(e) {
                let m = choose|m: int| 0 <= m < ta.len() && ta[m] == e;
                assert(a[m + 1] == e);
                assert(precedes(a[0], a[m + 1]));
                assert(a.contains(e));
                let n = choose|n: int| 0 <= n < b.len() && b[n] == e;
                assert(n > 0);
                assert(tb[n - 1] == e);
            }
            if tb.contains(e) {
                let m = choose|m: int| 0 <= m < tb.len() && tb[m] == e;
                assert(b[m + 1] == e);
                assert(precedes(b[0], b[m + 1]));
                assert(b.contains(e));
                let n = choose|n: int| 0 <= n < a.len() && a[n] == e;
                assert(n > 0);
                assert(ta[n - 1] == e);
            }
        }
        assert forall|i: int, j: int| 0 <= i < j < ta.len() implies precedes(
            #[trigger] ta[i],
            #[trigger] ta[j],
        ) by {
            assert(precedes(a[i + 1], a[j + 1]));
        }
        assert forall|i: int, j: int| 0 <= i < j < tb.len() implies precedes(
            #[trigger] tb[i],
            #[trigger] tb[j],
        ) by {
            assert(precedes(b[i + 1], b[j + 1]));
        }
        lemma_ordered_same_rows(ta, tb);
        assert(a =~= seq![a[0]] + ta);
        assert(b =~= seq![b[0]] + tb);
    }
}

/// Where every candidate matched with one and the same score, the ranked
/// view shows all of them in the order of the candidate list.
pub proof fn lemma_uniform_scores_keep_order(view: Seq<RankedEntry>, scores: Seq<Option<i64>>, score: i64)
    requires
        is_ranking(view, scores),
        scores.len() <= usize::MAX,
        forall|k: int| 0 <= k < scores.len() ==> #[trigger] scores[k] == Some(score),
    ensures
        view == full_view(scores.len(), score),
{
    let full = full_view(scores.len(), score);
    assert(is_ranking(full, scores)) by {
        assert forall|k: int| 0 <= k < scores.len() && (#[trigger] scores[k]) is Some implies exists|
            j: int,
        |
            0 <= j < full.len() && (#[trigger] full[j]).index == k by {
            assert(full[k].index == k);
        }
    }
    lemma_ranking_unique(view, full, scores);
}

/// Ranks `candidates` for `query`: the candidates whose raw name the query
/// matches, by descending score, ties in the order of the list.
pub fn rank(query: &str, candidates: &Vec<Candidate>) -> (view: Vec<RankedEntry>)
    ensures
        is_ranking(view@, scores_of(query@, names_of(candidates@))),
        shows_matches(view@, query@, candidates@),
        query@.len() == 0 ==> view@ == full_view(candidates@.len(), 0),
{
    let scores = score_all(query, candidates);
    let view = rank_scored(&scores);
    proof {
        if query@.len() == 0 {
            lemma_uniform_scores_keep_order(view@, scores@, 0);
        }
        assert forall|k: int| 0 <= k < candidates.len() implies (occurs_in_order(
            query@,
            (#[trigger] candidates[k]).name(),
        ) <==> exists|j: int| 0 <= j < view.len() && (#[trigger] view[j]).index == k) by {
            if exists|j: int| 0 <= j < view.len() && (#[trigger] view[j]).index == k {
                let j = choose|j: int| 0 <= j < view.len() && (#[trigger] view[j]).index == k;
                assert(scores[view[j].index as int] is Some);
            }
            if occurs_in_order(query@, candidates[k].name()) {
                assert(scores[k] is Some);
            }
        }
        assert forall|j: int| 0 <= j < view.len() implies (#[trigger] view[j]).index < candidates.len()
            && occurs_in_order(query@, candidates[view[j].index as int].name()) by {
            assert(scores[view[j].index as int] is Some);
        }
    }
    view
}

} // verus!
