//! The debounce filter.
use codex_ctl::clock::MILLISECOND;
use codex_ctl::session::stabilizer::Stabilizer;

/// Lets some milliseconds pass.
fn pause(ms: u128) {
    let start = std::time::Instant::now();
    while start.elapsed().as_millis() < ms {}
}

#[test]
fn test_stabilizer_no_commit_before_delay() {
    let mut stabilizer = Stabilizer::new(100 * MILLISECOND);
    stabilizer.on_change(vec!["frame1".into()]);
    assert!(stabilizer.try_commit().is_none());
}

#[test]
fn test_stabilizer_commits_after_delay() {
    let mut stabilizer = Stabilizer::new(50 * MILLISECOND);
    stabilizer.on_change(vec!["stable content".into()]);
    pause(80);
    let committed = stabilizer.try_commit();
    assert_eq!(committed, Some(vec!["stable content".to_string()]));
}

#[test]
fn test_stabilizer_resets_on_change() {
    let mut stabilizer = Stabilizer::new(100 * MILLISECOND);
    stabilizer.on_change(vec!["frame1".into()]);
    pause(60);
    stabilizer.on_change(vec!["frame2".into()]);
    pause(60);
    // Only 60ms since last change, not yet stable
    assert!(stabilizer.try_commit().is_none());
    pause(60);
    let committed = stabilizer.try_commit();
    assert_eq!(committed, Some(vec!["frame2".to_string()]));
}

#[test]
fn test_stabilizer_no_double_commit() {
    let mut stabilizer = Stabilizer::new(50 * MILLISECOND);
    stabilizer.on_change(vec!["content".into()]);
    pause(80);
    assert!(stabilizer.try_commit().is_some());
    assert!(stabilizer.try_commit().is_none());
}

#[test]
fn test_stabilizer_pending() {
    let mut stabilizer = Stabilizer::new(100 * MILLISECOND);
    assert!(stabilizer.pending().is_none());
    stabilizer.on_change(vec!["pending".into()]);
    assert_eq!(
        stabilizer.pending(),
        Some(&vec!["pending".to_string()])
    );
}
