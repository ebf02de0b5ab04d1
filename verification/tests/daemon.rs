use backupfs::daemon::{DaemonLoop, LoopStep, DEFAULT_INTERVAL_SECS};

#[test]
fn default_interval_is_five_seconds() {
    assert_eq!(DEFAULT_INTERVAL_SECS, 5);
}

#[test]
fn running_loop_polls_and_sleeps() {
    let mut daemon = DaemonLoop::new(DEFAULT_INTERVAL_SECS);
    assert!(daemon.is_running());
    assert_eq!(daemon.next(false), LoopStep::Poll { sleep_secs: 5 });
    assert_eq!(daemon.next(false), LoopStep::Poll { sleep_secs: 5 });
    assert!(daemon.is_running());
}

#[test]
fn interval_is_the_one_given() {
    let mut daemon = DaemonLoop::new(60);
    assert_eq!(daemon.next(false), LoopStep::Poll { sleep_secs: 60 });
}

#[test]
fn cancellation_saves_once_and_ends() {
    let mut daemon = DaemonLoop::new(5);
    assert_eq!(daemon.next(false), LoopStep::Poll { sleep_secs: 5 });
    assert_eq!(daemon.next(true), LoopStep::Save);
    assert!(!daemon.is_running());
    assert_eq!(daemon.next(true), LoopStep::Exit);
    assert_eq!(daemon.next(false), LoopStep::Exit);
    assert!(!daemon.is_running());
}

#[test]
fn cancellation_before_the_first_poll() {
    let mut daemon = DaemonLoop::new(5);
    assert_eq!(daemon.next(true), LoopStep::Save);
    assert_eq!(daemon.next(false), LoopStep::Exit);
}
