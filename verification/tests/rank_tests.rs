use project_launcher::candidate::Candidate;
use project_launcher::rank::{rank, rank_scored, score_all, RankedEntry};

fn candidates(names: &[&str]) -> Vec<Candidate> {
    names
        .iter()
        .map(|n| Candidate::new(n.to_string(), format!("/dev/{}", n)))
        .collect()
}

fn indices(view: &[RankedEntry]) -> Vec<usize> {
    view.iter().map(|e| e.index).collect()
}

fn is_subsequence(query: &str, name: &str) -> bool {
    let mut q = query.chars().peekable();
    for c in name.chars() {
        if let Some(p) = q.peek() {
            if *p == c {
                q.next();
            }
        }
    }
    q.peek().is_none()
}

#[test]
fn rank_scored_orders_by_score_then_list_order() {
    let view = rank_scored(&vec![Some(5), None, Some(9), Some(5)]);
    assert_eq!(
        view,
        vec![
            RankedEntry { score: 9, index: 2 },
            RankedEntry { score: 5, index: 0 },
            RankedEntry { score: 5, index: 3 },
        ]
    );
}

#[test]
fn rank_scored_of_nothing_is_empty() {
    assert!(rank_scored(&vec![]).is_empty());
    assert!(rank_scored(&vec![None, None]).is_empty());
}

#[test]
fn rank_scored_handles_negative_and_extreme_scores() {
    let view = rank_scored(&vec![Some(-1), Some(i64::MIN), Some(i64::MAX), Some(0)]);
    assert_eq!(indices(&view), vec![2, 3, 0, 1]);
}

#[test]
fn every_ranked_candidate_holds_the_query_in_order() {
    let cands = candidates(&["apples", "bananas", "apricots", "grape", "Pineapple", "kiwi"]);
    for query in ["ap", "an", "pp", "e", "ki", "aple", "zzz", "p", "P", "Pa", "pA", "APPLES"] {
        let view = rank(query, &cands);
        for entry in &view {
            assert!(is_subsequence(query, cands[entry.index].raw_name()));
        }
    }
}

#[test]
fn a_candidate_without_the_query_is_left_out() {
    let cands = candidates(&["apples", "bananas", "apricots", "grape", "Pineapple", "kiwi"]);
    for query in ["ap", "an", "pp", "e", "ki", "aple", "zzz", "p", "P", "Pa", "pA", "APPLES"] {
        let shown = indices(&rank(query, &cands));
        for (k, c) in cands.iter().enumerate() {
            let matches = is_subsequence(query, c.raw_name());
            assert_eq!(shown.contains(&k), matches);
        }
    }
}

#[test]
fn empty_query_shows_everything_in_list_order() {
    let cands = candidates(&["zeta", "alpha", "Mid", "", "alpha"]);
    let view = rank("", &cands);
    assert_eq!(indices(&view), vec![0, 1, 2, 3, 4]);
    assert!(view.iter().all(|e| e.score == 0));
}

#[test]
fn empty_candidate_list_gives_empty_view() {
    assert!(rank("abc", &vec![]).is_empty());
    assert!(rank("", &vec![]).is_empty());
}

#[test]
fn ranking_again_gives_the_same_view() {
    let cands = candidates(&["apples", "apricots", "grape", "pineapple", "ap", "map"]);
    for query in ["", "a", "ap", "pe", "zzz"] {
        assert_eq!(rank(query, &cands), rank(query, &cands));
    }
}

#[test]
fn scores_descend_and_ties_keep_list_order() {
    let cands = candidates(&["same", "xaxbxc", "same", "abc", "same"]);
    let view = rank("sa", &cands);
    assert_eq!(indices(&view), vec![0, 2, 4]);
    let view = rank("abc", &cands);
    assert_eq!(indices(&view), vec![3, 1]);
    assert!(view[0].score > view[1].score);
}

#[test]
fn lower_case_query_does_not_match_capitals() {
    let cands = candidates(&["Apples", "apples"]);
    assert_eq!(indices(&rank("ap", &cands)), vec![1]);
    assert_eq!(indices(&rank("a", &candidates(&["A"]))), Vec::<usize>::new());
}

#[test]
fn upper_case_query_does_not_match_small_letters() {
    let cands = candidates(&["Apples", "apples"]);
    assert_eq!(indices(&rank("Ap", &cands)), vec![0]);
    assert_eq!(indices(&rank("AP", &cands)), Vec::<usize>::new());
    assert_eq!(rank("pp", &cands).len(), 2);
}

#[test]
fn score_all_tells_matches_from_misses() {
    let cands = candidates(&["apples", "bananas"]);
    let scores = score_all("ban", &cands);
    assert_eq!(scores.len(), 2);
    assert!(scores[0].is_none());
    assert!(scores[1].is_some());
    assert_eq!(score_all("", &cands), vec![Some(0), Some(0)]);
}

#[test]
fn query_longer_than_name_does_not_match() {
    let cands = candidates(&["ab"]);
    assert!(rank("abc", &cands).is_empty());
}
