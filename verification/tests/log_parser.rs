use mcdebug_launcher::log_parser::{
    detect_crash_type, extract_mods, extract_stack_trace, is_continuation, parse_line, CrashType,
    LogParser, Severity,
};

#[test]
fn test_minecraft_format() {
    let line = "[11:07:26.886] [main/WARN] [mixin/]: Error loading class";
    let entry = parse_line(line, 1);
    assert_eq!(entry.timestamp.as_deref(), Some("11:07:26.886"));
    assert_eq!(entry.severity, Severity::Warn);
    assert_eq!(entry.source.as_deref(), Some("mixin/"));
    assert!(entry.message.contains("Error loading class"));
}

#[test]
fn test_exception_line() {
    let line = "java.lang.NullPointerException: Cannot invoke method on null";
    let entry = parse_line(line, 1);
    assert!(entry.is_exception);
    assert_eq!(entry.exception_type.as_deref(), Some("java.lang.NullPointerException"));
}

#[test]
fn test_stack_frame() {
    let line = "\tat java.base/java.lang.Thread.run(Thread.java:1516)";
    let entry = parse_line(line, 1);
    assert!(entry.is_exception);
    assert_eq!(entry.severity, Severity::Error);
}

#[test]
fn test_crash_marker() {
    let line = "---- Minecraft Crash Report ----";
    let entry = parse_line(line, 1);
    assert!(entry.is_crash_marker);
    assert_eq!(entry.severity, Severity::Fatal);
}

#[test]
fn test_category_network() {
    let line = "[12:00:00] [main/ERROR] [net/]: Connection timed out";
    let entry = parse_line(line, 1);
    assert!(entry.categories.contains(&"network/timeout".to_string()));
}

#[test]
fn test_category_memory() {
    let line = "[12:00:00] [main/FATAL] [jvm/]: OutOfMemoryError: Java heap space";
    let entry = parse_line(line, 1);
    assert!(entry.categories.contains(&"performance/memory".to_string()));
}

#[test]
fn test_extract_stack_trace() {
    let text = "Some preamble\nat com.example.Foo.bar(Foo.java:10)\nat com.example.Baz.qux(Baz.java:20)\nNot a stack frame";
    let trace = extract_stack_trace(text, 10);
    assert_eq!(trace.len(), 2);
    assert!(trace[0].contains("com.example.Foo.bar"));
}

#[test]
fn test_detect_crash_type_oom() {
    let crash = "java.lang.OutOfMemoryError: Java heap space";
    assert!(matches!(detect_crash_type(crash), CrashType::OutOfMemory));
}

#[test]
fn test_detect_crash_type_graphics() {
    let crash = "org.lwjgl.opengl.GLException: Cannot create context";
    assert!(matches!(detect_crash_type(crash), CrashType::GraphicsDriver));
}

#[test]
fn test_extract_mods() {
    let text = "Error loading class from mod sodium\nSomething about neoforge";
    let mods = extract_mods(text, 10);
    assert!(mods.contains(&"sodium".to_string()));
    assert!(mods.contains(&"neoforge".to_string()));
}

#[test]
fn test_parser_analyze() {
    let parser = LogParser::new();
    let entries = vec![
        parse_line("[12:00:00] [main/ERROR] [net/]: Connection timed out", 1),
        parse_line("[12:00:01] [main/WARN] [mixin/]: Error loading class", 2),
        parse_line("[12:00:02] [main/INFO] [game/]: Loaded world", 3),
    ];
    let analysis = parser.analyze(&entries);
    assert_eq!(analysis.error_count, 1);
    assert_eq!(analysis.warning_count, 1);
    assert!(analysis.categories.iter().any(|(k, _)| k == "network/timeout"));
}

#[test]
fn test_parse_content() {
    let parser = LogParser::new();
    let content = "[12:00:00] [main/INFO] [game/]: Starting\n[12:00:01] [main/ERROR] [net/]: Failed\n";
    let entries = parser.parse_content(content);
    assert_eq!(entries.len(), 2);
    assert_eq!(entries[1].severity, Severity::Error);
}

#[test]
fn test_is_continuation() {
    assert!(is_continuation("\tat com.example.Foo.bar(Foo.java:10)"));
    assert!(is_continuation("Caused by: java.lang.Exception"));
    assert!(is_continuation("... 10 more"));
    assert!(!is_continuation("[12:00:00] [main/INFO]: Normal line"));
}

#[test]
fn test_parse_line_survives_garbage() {
    let long = "x".repeat(200_000);
    let cases = [
        "",
        "   ",
        "[[[[[[",
        "]]]]]]",
        "\u{0}\u{1}\u{2}",
        "[not a timestamp] [unclosed",
        "[12:99:88] [thread/] [] :",
        long.as_str(),
        "at ",
        "Caused by:",
        "---- minecraft crash report ---- but mangled \u{7}",
    ];
    for (i, line) in cases.iter().enumerate() {
        let e = parse_line(line, i as u64);
        assert!(!e.message.is_empty() || line.trim().is_empty(), "case {i}");
    }
}

#[test]
fn test_analyze_survives_adversarial_entries() {
    let parser = LogParser::new();
    let content = "[[[[\n\n\u{0}at \nCaused by: \n---- Minecraft Crash Report ----\n\
                   [t] [a/ERROR] [b/]: OutOfMemoryError x\u{1}";
    let entries = parser.parse_content(content);
    let analysis = parser.analyze(&entries);
    assert!(analysis.categories.len() >= 1);
}

#[test]
fn parse_content_caps_lines_and_numbers_from_one() {
    let parser = LogParser::with_max_lines(2);
    let entries = parser.parse_content("a\nb\nc\n");
    assert_eq!(entries.len(), 2);
    assert_eq!(entries[0].line_number, 1);
    assert_eq!(entries[1].line_number, 2);
}

#[test]
fn analyze_counts_categories_per_occurrence() {
    let parser = LogParser::new();
    let entries = vec![
        parse_line("[12:00:00] [main/ERROR] [net/]: Connection timed out", 1),
        parse_line("[12:00:01] [main/ERROR] [net/]: read timeout", 2),
    ];
    let analysis = parser.analyze(&entries);
    let timeout = analysis.categories.iter().find(|(k, _)| k == "network/timeout").unwrap();
    assert_eq!(timeout.1, 2);
    assert_eq!(analysis.total_lines, 2);
    assert_eq!(analysis.crash_type.as_deref(), Some("NetworkIssue"));
}

#[test]
fn severity_words_parse_case_insensitively() {
    assert_eq!(Severity::from_str("Warning"), Some(Severity::Warn));
    assert_eq!(Severity::from_str("CRITICAL"), Some(Severity::Fatal));
    assert_eq!(Severity::from_str("verbose"), None);
    assert_eq!(Severity::Error.as_str(), "ERROR");
}

#[test]
fn from_mod_marker_is_found_in_the_text_as_given() {
    assert_eq!(extract_mods("\u{130}from mod \u{e9}", 10), vec!["\u{e9}".to_string()]);
    assert_eq!(extract_mods("Error FROM MOD examplemod: boom", 10), vec!["examplemod".to_string()]);
}

#[test]
fn stack_trace_respects_the_frame_limit() {
    assert!(extract_stack_trace("at a.B.c(B.java:1)", 0).is_empty());
    assert_eq!(extract_stack_trace("at a.B.c(B.java:1)\nat d.E.f(E.java:2)", 1).len(), 1);
}

#[test]
fn severity_names_read_back_in_any_case() {
    for s in [Severity::Debug, Severity::Info, Severity::Warn, Severity::Error, Severity::Fatal] {
        assert_eq!(Severity::from_str(s.as_str()), Some(s));
        assert_eq!(Severity::from_str(&s.as_str().to_lowercase()), Some(s));
    }
    assert_eq!(Severity::from_str("WaRnInG"), Some(Severity::Warn));
    assert_eq!(Severity::from_str("verbose"), None);
}
