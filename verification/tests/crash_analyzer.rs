use mcdebug_launcher::crash_analyzer::{CrashAnalyzer, CrashType};

#[test]
fn out_of_memory_report() {
    let a = CrashAnalyzer::new().analyze("java.lang.OutOfMemoryError: Java heap space").unwrap();
    assert_eq!(a.crash_type, CrashType::OutOfMemory);
    assert_eq!(a.likely_cause, "Insufficient memory allocated to Minecraft");
    assert_eq!(a.summary, "OutOfMemory: Insufficient memory allocated to Minecraft");
    assert_eq!(a.suggestions.len(), 4);
}

#[test]
fn mod_conflict_names_the_mods() {
    let report = "conflict detected\nmods/sodium.jar\nmods/iris.jar\nmods/sodium.jar\n";
    let a = CrashAnalyzer::new().analyze(report).unwrap();
    assert_eq!(a.crash_type, CrashType::ModConflict);
    assert_eq!(a.mod_conflicts, vec!["sodium.jar".to_string(), "iris.jar".to_string()]);
    assert_eq!(a.likely_cause, "Possible conflict between: sodium.jar, iris.jar");
}

#[test]
fn unknown_report_gets_generic_suggestions() {
    let a = CrashAnalyzer::new().analyze("NullPointerException somewhere").unwrap();
    assert_eq!(a.crash_type, CrashType::Unknown);
    assert_eq!(a.suggestions.len(), 4);
    assert_eq!(a.suggestions[3], "A mod is trying to access null data - report to mod author");
}

#[test]
fn mod_id_lines_and_stack_frames() {
    let report = "mod_id: \"create\"\n\tat a.b.C.d(C.java:1)\n\tat a.b.C.e(C.java:2)\nDescription: x\n\tat z.Z.z(Z.java:3)\n";
    let a = CrashAnalyzer::new().analyze(report).unwrap();
    assert_eq!(a.mod_conflicts, vec!["create".to_string()]);
    assert_eq!(a.stack_trace_top, vec!["at a.b.C.d(C.java:1)".to_string(), "at a.b.C.e(C.java:2)".to_string()]);
}
