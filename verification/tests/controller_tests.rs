use project_launcher::candidate::Candidate;
use project_launcher::controller::{ConfirmOutcome, Phase, SearchController};

fn session(names: &[&str]) -> SearchController {
    SearchController::new(
        names
            .iter()
            .map(|n| Candidate::new(n.to_string(), format!("/home/u/dev/{}", n)))
            .collect(),
    )
}

fn shown(s: &SearchController) -> Vec<String> {
    s.visible()
        .iter()
        .map(|e| s.candidates()[e.index].raw_name().to_string())
        .collect()
}

#[test]
fn new_session_is_idle_and_shows_all() {
    let s = session(&["apples", "bananas"]);
    assert_eq!(s.phase(), Phase::Idle);
    assert_eq!(s.query(), "");
    assert_eq!(shown(&s), vec!["apples", "bananas"]);
    assert_eq!(s.highlight(), None);
    assert_eq!(s.selection(), None);
    assert!(s.selected_candidate().is_none());
}

#[test]
fn single_match_is_confirmed_at_once() {
    let mut s = session(&["apples", "bananas"]);
    s.query_changed("ban");
    assert_eq!(s.phase(), Phase::Filtering);
    assert_eq!(shown(&s), vec!["bananas"]);
    assert_eq!(s.confirm(), ConfirmOutcome::Selected);
    assert_eq!(s.phase(), Phase::Confirmed);
    assert_eq!(s.selection(), Some(1));
    assert_eq!(s.selected_candidate().unwrap().raw_name(), "bananas");
}

#[test]
fn several_matches_are_only_highlighted() {
    let mut s = session(&["apples", "apricots"]);
    s.query_changed("ap");
    assert_eq!(s.visible().len(), 2);
    assert_eq!(s.confirm(), ConfirmOutcome::Highlighted);
    assert_eq!(s.phase(), Phase::Filtering);
    assert_eq!(s.selection(), None);
    let row = s.highlight().unwrap();
    assert_eq!(row, 0);
    assert_eq!(s.visible_candidate(row).unwrap().raw_name(), "apples");
}

#[test]
fn no_match_makes_confirm_a_no_op() {
    let mut s = session(&["apples", "bananas"]);
    s.query_changed("zzz");
    assert!(s.visible().is_empty());
    assert_eq!(s.confirm(), ConfirmOutcome::Nothing);
    assert_eq!(s.phase(), Phase::Filtering);
    assert_eq!(s.selection(), None);
    assert_eq!(s.highlight(), None);
}

#[test]
fn highlight_then_row_activation_selects() {
    let mut s = session(&["apples", "apricots"]);
    s.query_changed("ap");
    assert_eq!(s.confirm(), ConfirmOutcome::Highlighted);
    assert!(s.row_activated(s.highlight().unwrap()));
    assert_eq!(s.phase(), Phase::Confirmed);
    assert_eq!(s.selected_candidate().unwrap().raw_name(), "apples");
}

#[test]
fn row_activation_picks_the_visible_row() {
    let mut s = session(&["apples", "bananas", "cherries"]);
    assert!(s.row_activated(2));
    assert_eq!(s.phase(), Phase::Confirmed);
    assert_eq!(s.selection(), Some(2));
    assert_eq!(s.selected_candidate().unwrap().location(), "/home/u/dev/cherries");
}

#[test]
fn row_activation_outside_the_view_changes_nothing() {
    let mut s = session(&["apples", "bananas"]);
    s.query_changed("ban");
    assert!(!s.row_activated(1));
    assert_eq!(s.phase(), Phase::Filtering);
    assert_eq!(s.selection(), None);
    assert!(s.visible_candidate(1).is_none());
}

#[test]
fn empty_text_returns_to_idle() {
    let mut s = session(&["apples", "bananas"]);
    s.query_changed("b");
    assert_eq!(s.phase(), Phase::Filtering);
    s.query_changed("");
    assert_eq!(s.phase(), Phase::Idle);
    assert_eq!(shown(&s), vec!["apples", "bananas"]);
}

#[test]
fn query_change_clears_the_highlight() {
    let mut s = session(&["apples", "apricots"]);
    s.query_changed("ap");
    s.confirm();
    assert_eq!(s.highlight(), Some(0));
    s.query_changed("apr");
    assert_eq!(s.highlight(), None);
    assert_eq!(s.query(), "apr");
    assert_eq!(shown(&s), vec!["apricots"]);
}

#[test]
fn cancel_ends_without_selection() {
    let mut s = session(&["apples"]);
    s.cancel();
    assert_eq!(s.phase(), Phase::Cancelled);
    assert_eq!(s.selection(), None);
    assert_eq!(s.confirm(), ConfirmOutcome::Nothing);
    assert!(!s.row_activated(0));
    s.query_changed("a");
    assert_eq!(s.query(), "");
    assert_eq!(s.phase(), Phase::Cancelled);
}

#[test]
fn confirmed_session_ignores_further_events() {
    let mut s = session(&["apples"]);
    assert_eq!(s.confirm(), ConfirmOutcome::Selected);
    s.cancel();
    assert_eq!(s.phase(), Phase::Confirmed);
    s.query_changed("zzz");
    assert_eq!(s.selection(), Some(0));
    assert_eq!(shown(&s), vec!["apples"]);
    assert_eq!(s.confirm(), ConfirmOutcome::Nothing);
}

#[test]
fn idle_confirm_on_empty_list_is_a_no_op() {
    let mut s = session(&[]);
    assert_eq!(s.confirm(), ConfirmOutcome::Nothing);
    assert_eq!(s.phase(), Phase::Idle);
}

#[test]
fn case_counts_in_the_session_too() {
    let mut s = session(&["Apples", "apricots"]);
    s.query_changed("ap");
    assert_eq!(shown(&s), vec!["apricots"]);
    assert_eq!(s.confirm(), ConfirmOutcome::Selected);
    assert_eq!(s.selected_candidate().unwrap().raw_name(), "apricots");
}
