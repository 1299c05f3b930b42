//! Hot-attaching Java agents: classifying the helper's failure output and
//! the message each failure reports.
use vstd::prelude::*;
use crate::text;

verus! {

/// Why an attach attempt failed.
#[derive(Debug, Clone, Copy, PartialEq, Eq, Structural)]
pub enum FailureKind {
    NoProcess,
    NotJvm,
    NoModule,
    Other,
}

/// The failure kind the helper's stderr shows; the most specific first:
/// a missing process, then a non-JVM target, then a missing attach module.
pub open spec fn failure_kind(stderr: Seq<char>) -> FailureKind {
    if text::contains(stderr, "NoSuchProcessException"@) {
        FailureKind::NoProcess
    } else if text::contains(stderr, "AttachNotSupportedException"@) || text::contains(stderr, "jvm.dll not loaded"@)
        || text::contains(stderr, "not a java process"@) {
        FailureKind::NotJvm
    } else if text::contains(stderr, "ModuleNotFoundException"@) || text::contains(stderr, "com.sun.tools.attach"@) {
        FailureKind::NoModule
    } else {
        FailureKind::Other
    }
}

/// Classifies the attach helper's stderr.
pub fn classify_attach_failure(stderr: &str) -> (k: FailureKind)
    ensures
        k == failure_kind(stderr@),
{
    if text::str_contains(stderr, "NoSuchProcessException") {
        return FailureKind::NoProcess;
    }
    if text::str_contains(stderr, "AttachNotSupportedException") || text::str_contains(stderr, "jvm.dll not loaded")
        || text::str_contains(stderr, "not a java process") {
        return FailureKind::NotJvm;
    }
    if text::str_contains(stderr, "ModuleNotFoundException") || text::str_contains(stderr, "com.sun.tools.attach") {
        return FailureKind::NoModule;
    }
    FailureKind::Other
}

/// The helper's report as shown to the user: trimmed-non-empty stdout, then
/// trimmed-non-empty stderr, joined by a newline.
pub open spec fn failure_detail(stdout: Seq<char>, stderr: Seq<char>) -> Seq<char> {
    let d = if text::trim(stdout).len() != 0 {
        stdout
    } else {
        Seq::empty()
    };
    if text::trim(stderr).len() != 0 {
        if d.len() != 0 {
            d + "\n"@ + stderr
        } else {
            stderr
        }
    } else {
        d
    }
}

/// Whether the helper reported success: it exited successfully and printed
/// `OK` (surrounding white space ignored).
pub fn attach_succeeded(exit_ok: bool, stdout: &str) -> (r: bool)
    ensures
        r == (exit_ok && text::trim(stdout@) == "OK"@),
{
    let t = text::trim_str(stdout);
    exit_ok && text::str_eq(t.as_str(), "OK")
}

/// The combined helper output shown with a failure.
pub fn failure_detail_text(stdout: &str, stderr: &str) -> (r: String)
    ensures
        r@ == failure_detail(stdout@, stderr@),
{
    let mut detail = String::new();
    let so = text::trim_str(stdout);
    if !so.as_str().is_empty() {
        text::push_str(&mut detail, stdout);
    }
    assert(detail@ =~= if text::trim(stdout@).len() != 0 { stdout@ } else { Seq::<char>::empty() });
    let se = text::trim_str(stderr);
    if !se.as_str().is_empty() {
        if !detail.as_str().is_empty() {
            text::push_str(&mut detail, "\n");
        }
        text::push_str(&mut detail, stderr);
    }
    detail
}

} // verus!
