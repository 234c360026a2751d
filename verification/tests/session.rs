use models_tui::benchmarks::app::BottomView;
use models_tui::session::{
    accept_status_result, cleared_status, copied_status, opened_status, repo_url,
    selection_status, should_fetch_status, status_expired, update_finished_status, view_status,
};

#[test]
fn status_line_clears_after_two_seconds() {
    assert!(!status_expired(2_000_000_000));
    assert!(status_expired(2_000_000_001));
}

#[test]
fn status_fetch_schedule() {
    assert!(should_fetch_status(false, None));
    assert!(!should_fetch_status(false, Some(30_000_000_000)));
    assert!(should_fetch_status(false, Some(61_000_000_000)));
    assert!(should_fetch_status(true, Some(1)));
    assert!(!should_fetch_status(false, Some(1)));
}

#[test]
fn stale_status_results_are_dropped() {
    assert!(accept_status_result(3, 3));
    assert!(accept_status_result(4, 3));
    assert!(!accept_status_result(2, 3));
}

#[test]
fn selection_status_texts() {
    assert_eq!(selection_status("GPT", false, 1, 4), Some("Added GPT (2/4)".to_string()));
    assert_eq!(selection_status("GPT", true, 2, 4), Some("Removed GPT (1/4)".to_string()));
    assert_eq!(selection_status("GPT", false, 4, 4), None);
    assert_eq!(cleared_status(0), None);
    assert_eq!(cleared_status(1), Some("Cleared 1 selection".to_string()));
    assert_eq!(cleared_status(3), Some("Cleared 3 selections".to_string()));
}

#[test]
fn action_status_texts() {
    assert_eq!(view_status(BottomView::Detail), "View: H2H");
    assert_eq!(view_status(BottomView::H2H), "View: Scatter");
    assert_eq!(view_status(BottomView::Radar), "View: H2H");
    assert_eq!(copied_status("a/b"), "Copied: a/b");
    assert_eq!(opened_status("https://x.io"), "Opened: https://x.io");
    assert_eq!(repo_url("owner/repo"), "https://github.com/owner/repo");
    assert_eq!(update_finished_status("Codex", true), "Codex updated");
    assert_eq!(update_finished_status("Codex", false), "Codex update failed \u{2014} see detail panel");
}
