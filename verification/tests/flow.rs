use mcdebug_launcher::flow::{
    default_condition_timeout, default_poll_ms, default_ready_timeout, strip_bom, validate, StepCheck,
};
use mcdebug_launcher::jar_files::{newest_companion, prefixed_jar, prefixed_jars, stale_companions};

fn s(v: &str) -> String {
    v.to_string()
}

#[test]
fn flow_defaults() {
    assert_eq!(default_ready_timeout(), 120);
    assert_eq!(default_condition_timeout(), 60);
    assert_eq!(default_poll_ms(), 500);
}

#[test]
fn flow_validation() {
    let ok = vec![
        StepCheck::WaitReady { timeout_secs: 120 },
        StepCheck::Sleep { secs_in_range: true },
    ];
    assert_eq!(validate("demo", &ok), Ok(()));
    assert_eq!(validate("   ", &ok), Err(s("flow name must be 1-128 characters")));
    assert_eq!(validate(&"n".repeat(129), &ok), Err(s("flow name must be 1-128 characters")));
    assert_eq!(validate("x", &Vec::new()), Err(s("flow steps must contain 1-256 entries")));
    assert_eq!(
        validate("x", &vec![StepCheck::WaitReady { timeout_secs: 1 }, StepCheck::Sleep { secs_in_range: false }]),
        Err(s("step 1: secs must be finite and within 0-86400"))
    );
    assert_eq!(
        validate("x", &vec![StepCheck::WaitCondition { timeout_secs: 0, poll_ms: 0 }]),
        Err(s("step 0: timeout_secs must be 1-86400"))
    );
    assert_eq!(
        validate("x", &vec![StepCheck::WaitCondition { timeout_secs: 5, poll_ms: 60001 }]),
        Err(s("step 0: poll_ms must be 1-60000"))
    );
    assert_eq!(
        validate("x", &vec![StepCheck::Action { command_is_object: false }]),
        Err(s("step 0: action command must be an object"))
    );
    assert_eq!(
        validate("x", &vec![StepCheck::Schedule { op: s("boom") }]),
        Err(s("step 0: unsupported schedule op \"boom\""))
    );
    assert_eq!(
        validate("x", &vec![StepCheck::Macro { op: s("play") }, StepCheck::Macro { op: s("re\"wind") }]),
        Err(s("step 1: unsupported macro op \"re\\\"wind\""))
    );
}

#[test]
fn bom_is_stripped() {
    let raw = b"\xEF\xBB\xBF{\"name\":\"demo\"}";
    assert_eq!(strip_bom(raw), b"{\"name\":\"demo\"}");
    assert_eq!(strip_bom(b"{}"), b"{}");
    assert_eq!(strip_bom(b"\xEF\xBB"), b"\xEF\xBB");
}

#[test]
fn test_find_companion_jar_in() {
    let mut names: Vec<String> = Vec::new();
    assert!(newest_companion(&names).is_none());
    names.push(s("other-mod.jar"));
    assert!(newest_companion(&names).is_none());
    names.push(s("mdl-agent-companion-1.0.0.jar"));
    assert_eq!(newest_companion(&names), Some(s("mdl-agent-companion-1.0.0.jar")));
    names.push(s("mdl-agent-companion-2.0.0.jar"));
    assert_eq!(newest_companion(&names), Some(s("mdl-agent-companion-2.0.0.jar")));
}

#[test]
fn jar_name_filters() {
    assert!(prefixed_jar("Despotes-v26.0-fabric-1.21.1.jar", "Despotes-"));
    assert!(!prefixed_jar("Despotes-v26.0-fabric-1.21.1.zip", "Despotes-"));
    assert!(!prefixed_jar(".jar", ""));
    assert!(!prefixed_jar("Despotes", "Despotes"));
    let listing = vec![s("AprismPrismate-1.0.jar"), s("sodium.jar"), s("AprismPrismate-2.0.jar.disabled")];
    assert_eq!(prefixed_jars(&listing, "AprismPrismate-"), vec![s("AprismPrismate-1.0.jar")]);
    let installed = vec![s("mdl-agent-companion-1.0.0.jar"), s("mdl-agent-companion-2.0.0.jar")];
    assert_eq!(stale_companions(&installed, "mdl-agent-companion-2.0.0.jar"), vec![s("mdl-agent-companion-1.0.0.jar")]);
}

#[test]
fn newest_companion_compares_version_numbers() {
    let names = vec![s("mdl-agent-companion-9.0.0.jar"), s("mdl-agent-companion-10.0.0.jar")];
    assert_eq!(newest_companion(&names), Some(s("mdl-agent-companion-10.0.0.jar")));
    let names = vec![s("mdl-agent-companion-1.2.0.jar"), s("mdl-agent-companion-1.2.0-beta.jar")];
    assert_eq!(newest_companion(&names), Some(s("mdl-agent-companion-1.2.0.jar")));
}
