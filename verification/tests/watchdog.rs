use mcdebug_launcher::watchdog::{line_is_idle_reset, IdleWatchdog, WatchAction};

#[test]
fn test_line_is_idle_reset_reloading() {
    assert!(line_is_idle_reset("[12:00:00] [main/INFO]: Reloading ResourceManager"));
}

#[test]
fn test_line_is_idle_reset_loading() {
    assert!(line_is_idle_reset("[12:00:00] [main/INFO]: Loading Renderer"));
}

#[test]
fn test_line_is_idle_reset_generating() {
    assert!(line_is_idle_reset("[12:00:00] [Server thread/INFO]: Generating terrain"));
}

#[test]
fn test_line_is_idle_reset_random_output() {
    assert!(!line_is_idle_reset("[12:00:00] [main/INFO]: Player joined the game"));
}

#[test]
fn test_line_is_idle_reset_empty() {
    assert!(!line_is_idle_reset(""));
}

#[test]
fn test_line_is_idle_reset_downloading() {
    assert!(line_is_idle_reset("[12:00:00] [main/INFO]: Downloading terrain"));
}

const SEC: u64 = 1_000_000_000;

#[test]
fn status_counts_idle_seconds_and_remaining() {
    let mut w = IdleWatchdog::new(12345, "test".into(), "/tmp/latest.log".into(), 60, 100 * SEC);
    let s = w.status(130 * SEC + 5);
    assert_eq!(s.last_output_age_secs, 30);
    assert_eq!(s.remaining_secs, 30);
    assert_eq!(s.threshold_secs, 60);
    assert!(s.active);
    w.feed_line("test line", 150 * SEC);
    let s = w.status(150 * SEC);
    assert_eq!(s.last_output_age_secs, 0);
    assert_eq!(s.remaining_secs, 60);
    assert_eq!(s.last_line, "test line");
}

#[test]
fn check_terminates_after_timeout_and_stops_for_dead_process() {
    let mut w = IdleWatchdog::new(1, "t".into(), "/tmp/l".into(), 60, 0);
    assert_eq!(w.check(59 * SEC, true), WatchAction::Wait);
    assert!(w.active);
    assert_eq!(w.check(61 * SEC, true), WatchAction::Terminate { idle_secs: 61 });
    assert!(!w.active);
    let mut w = IdleWatchdog::new(1, "t".into(), "/tmp/l".into(), 60, 0);
    assert_eq!(w.check(5 * SEC, false), WatchAction::Stop);
    assert!(!w.active);
}

#[test]
fn last_line_is_truncated_to_200_chars() {
    let mut w = IdleWatchdog::new(1, "t".into(), "/tmp/l".into(), 60, 0);
    w.feed_line(&"é".repeat(300), 1);
    assert_eq!(w.status(1).last_line.chars().count(), 200);
}
