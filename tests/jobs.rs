use pty_secret::cancel::JobRegistry;

#[test]
fn registry_holds_one_job() {
    let mut jobs = JobRegistry::new();
    assert_eq!(jobs.current(), None);
    assert!(jobs.start(41));
    assert!(!jobs.start(42));
    assert_eq!(jobs.current(), Some(41));
}

#[test]
fn registry_cancel_then_finish() {
    let mut jobs = JobRegistry::new();
    assert_eq!(jobs.cancel(), None);
    assert!(jobs.start(7));
    assert_eq!(jobs.cancel(), Some(7));
    assert!(!jobs.finish(8));
    assert!(jobs.finish(7));
    assert_eq!(jobs.current(), None);
    assert!(jobs.start(9));
    assert!(!jobs.finish(9));
}
