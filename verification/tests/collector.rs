use mcdebug_launcher::collector::{
    build_correlation_notes, read_idle_timeout_marker, CrashReport, DiagnosticCollector, IdleTimeoutEvent, LaunchRecord, LogEntry,
};

fn sample_event() -> IdleTimeoutEvent {
    IdleTimeoutEvent {
        instance: "t".into(),
        pid: 42,
        idle_seconds: 60,
        timestamp: "2026-08-23T00:00:00Z".into(),
    }
}

#[test]
fn test_correlation_idle_only() {
    let ev = sample_event();
    let notes = build_correlation_notes(false, Some(&ev), None);
    assert_eq!(notes.len(), 1);
    assert!(notes[0].contains("idle watchdog"));
}

#[test]
fn test_correlation_crash_without_ready() {
    let m = LaunchRecord { timestamp: "2026-08-23T01:00:00Z".into(), reached_ready: false };
    let notes = build_correlation_notes(true, None, Some(&m));
    assert!(notes.iter().any(|n| n.contains("never reached the ready state")));
    assert!(notes.iter().any(|n| n.contains("2026-08-23")));
}

#[test]
fn test_correlation_healthy_launch_no_notes() {
    let m = LaunchRecord { timestamp: "2026-08-23T01:00:00Z".into(), reached_ready: true };
    assert!(build_correlation_notes(false, None, Some(&m)).is_empty());
}

#[test]
fn correlation_idle_note_names_seconds_and_time() {
    let ev = sample_event();
    let notes = build_correlation_notes(false, Some(&ev), None);
    assert_eq!(
        notes[0],
        "The game was terminated by the idle watchdog after 60s of silence at 2026-08-23T00:00:00Z — this is a hang/freeze signature, not a JVM crash"
    );
}

#[test]
fn correlation_dated_note_uses_first_ten_bytes() {
    let m = LaunchRecord { timestamp: "2026-08-23T01:00:00Z".into(), reached_ready: true };
    let notes = build_correlation_notes(true, None, Some(&m));
    assert_eq!(
        notes,
        vec!["Crash report(s) dated 2026-08-23 may correspond to the last launch at 2026-08-23T01:00:00Z".to_string()]
    );
    let short = LaunchRecord { timestamp: "2026".into(), reached_ready: true };
    let notes = build_correlation_notes(true, None, Some(&short));
    assert_eq!(notes, vec!["Crash report(s) dated 2026 may correspond to the last launch at 2026".to_string()]);
    let empty = LaunchRecord { timestamp: String::new(), reached_ready: true };
    assert!(build_correlation_notes(true, None, Some(&empty)).is_empty());
}

#[test]
fn crash_file_names_give_dates() {
    let c = DiagnosticCollector::new("/tmp/inst".to_string());
    assert_eq!(c.extract_timestamp_from_crash("crash-2024-01-15_12-30-45-client.txt"), "2024-01-15");
    assert_eq!(c.extract_timestamp_from_crash("latest.txt"), "Unknown");
}

#[test]
fn errors_are_classified() {
    let c = DiagnosticCollector::new("/tmp/inst".to_string());
    assert_eq!(c.classify_error("java.lang.OutOfMemoryError"), "OutOfMemory");
    assert_eq!(c.classify_error("NoClassDefFoundError: x"), "ClassNotFound");
    assert_eq!(c.classify_error("Connection reset"), "Network");
    assert_eq!(c.classify_error("LWJGL failed"), "Graphics");
    assert_eq!(c.classify_error("game crash"), "Crash");
    assert_eq!(c.classify_error("something"), "General");
}

#[test]
fn extract_errors_keeps_error_and_fatal_entries() {
    let c = DiagnosticCollector::new("/tmp/inst".to_string());
    let logs = c.parse_log_content(
        "[12:00:00] [main/INFO] [a/]: fine\n[12:00:01] [main/ERROR] [net/]: Connection lost\n",
    );
    assert_eq!(logs.len(), 2);
    assert_eq!(logs[1].level, "ERROR");
    let reports = vec![CrashReport {
        file_name: "crash-2024-01-15_12-30-45-client.txt".into(),
        content: "at a.B.c(B.java:1)\n".into(),
        timestamp: "2024-01-15".into(),
    }];
    let errors = c.extract_errors(&logs, &reports);
    assert_eq!(errors.len(), 1);
    assert_eq!(errors[0].error_type, "Network");
    assert_eq!(errors[0].stack_trace.as_deref(), Some("at a.B.c(B.java:1)"));
    let none = c.extract_errors(&logs, &[]);
    assert_eq!(none[0].stack_trace, None);
}

#[test]
fn analysis_of_report_entries() {
    let c = DiagnosticCollector::new("/tmp/inst".to_string());
    let logs = vec![
        LogEntry { timestamp: "t".into(), level: "FATAL".into(), source: "s".into(), message: "boom".into() },
        LogEntry { timestamp: "t".into(), level: "odd".into(), source: "s".into(), message: "hi".into() },
    ];
    let s = c.analysis_of(&logs);
    assert_eq!(s.total_lines, 2);
    assert_eq!(s.error_count, 1);
    assert_eq!(s.crash_count, 1);
    assert!(s.categories.is_empty());
}

#[test]
fn test_read_idle_marker_roundtrip() {
    let ev = read_idle_timeout_marker(Ok(sample_event())).unwrap();
    assert_eq!(ev.pid, 42);
    assert_eq!(ev.idle_seconds, 60);
}

#[test]
fn test_read_idle_marker_missing() {
    assert!(read_idle_timeout_marker(Err("No such file or directory".to_string())).is_none());
}
