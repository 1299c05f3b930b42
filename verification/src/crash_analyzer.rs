//! Minecraft crash-report analysis: crash class, likely cause, suggestions,
//! the mods the report names and the top of its stack trace.
use vstd::prelude::*;
use crate::text;
use crate::log_parser;

verus! {

/// Result of analysing one crash report.
#[derive(Debug)]
pub struct CrashAnalysis {
    pub summary: String,
    pub crash_type: CrashType,
    pub likely_cause: String,
    pub suggestions: Vec<String>,
    pub mod_conflicts: Vec<String>,
    pub stack_trace_top: Vec<String>,
}

/// Crash classes a report can fall into.
#[derive(Debug, Clone, Copy, PartialEq, Eq, Structural)]
pub enum CrashType {
    OutOfMemory,
    ModConflict,
    MissingDependency,
    GraphicsDriver,
    JavaVersion,
    CorruptedFile,
    NetworkIssue,
    Unknown,
}

/// The crash analyser (it holds no state).
pub struct CrashAnalyzer;

/// The class of a report, by the same rules the log analysis uses.
pub open spec fn class_of(t: log_parser::CrashType) -> CrashType {
    match t {
        log_parser::CrashType::OutOfMemory => CrashType::OutOfMemory,
        log_parser::CrashType::ModConflict => CrashType::ModConflict,
        log_parser::CrashType::MissingDependency => CrashType::MissingDependency,
        log_parser::CrashType::GraphicsDriver => CrashType::GraphicsDriver,
        log_parser::CrashType::JavaVersion => CrashType::JavaVersion,
        log_parser::CrashType::CorruptedFile => CrashType::CorruptedFile,
        log_parser::CrashType::NetworkIssue => CrashType::NetworkIssue,
        log_parser::CrashType::Unknown => CrashType::Unknown,
    }
}

/// The variant's name, as `{:?}` prints it.
pub open spec fn variant_name(c: CrashType) -> Seq<char> {
    match c {
        CrashType::OutOfMemory => "OutOfMemory"@,
        CrashType::ModConflict => "ModConflict"@,
        CrashType::MissingDependency => "MissingDependency"@,
        CrashType::GraphicsDriver => "GraphicsDriver"@,
        CrashType::JavaVersion => "JavaVersion"@,
        CrashType::CorruptedFile => "CorruptedFile"@,
        CrashType::NetworkIssue => "NetworkIssue"@,
        CrashType::Unknown => "Unknown"@,
    }
}

impl CrashType {
    /// The variant's name.
    pub fn name(&self) -> (r: &'static str)
        ensures
            r@ == variant_name(*self),
    {
        match self {
            CrashType::OutOfMemory => "OutOfMemory",
            CrashType::ModConflict => "ModConflict",
            CrashType::MissingDependency => "MissingDependency",
            CrashType::GraphicsDriver => "GraphicsDriver",
            CrashType::JavaVersion => "JavaVersion",
            CrashType::CorruptedFile => "CorruptedFile",
            CrashType::NetworkIssue => "NetworkIssue",
            CrashType::Unknown => "Unknown",
        }
    }
}

// ---------------------------------------------------------------------------
// Stack trace
// ---------------------------------------------------------------------------

/// A raw line that holds a stack frame.
pub open spec fn is_frame_line(l: Seq<char>) -> bool {
    text::contains(l, "at "@) && (text::contains(l, "("@) || text::contains(l, ".java:"@))
}

/// Frames (trimmed) of the lines `ls`; after the first frame, a non-blank
/// line that does not start with a tab ends the trace.
pub open spec fn frames_from(ls: Seq<Seq<char>>, in_stack: bool) -> Seq<Seq<char>>
    decreases ls.len(),
{
    if ls.len() == 0 {
        Seq::empty()
    } else if is_frame_line(ls[0]) {
        seq![text::trim(ls[0])] + frames_from(ls.drop_first(), true)
    } else if in_stack && text::trim(ls[0]).len() != 0 && !text::starts_with(ls[0], seq!['\t']) {
        Seq::empty()
    } else {
        frames_from(ls.drop_first(), in_stack)
    }
}

fn stack_frames(report: &str) -> (r: Vec<String>)
    ensures
        r.deep_view() == frames_from(text::lines(report@), false),
{
    let chars = text::chars_of(report);
    let ls = text::lines_seq(chars.as_slice());
    let ghost lsv: Seq<Seq<char>> = text::lines(report@);
    let at = text::chars_of("at ");
    let paren = text::chars_of("(");
    let java = text::chars_of(".java:");
    let tab: Vec<char> = vec!['\t'];
    assert(tab@ =~= seq!['\t']);
    let mut out: Vec<String> = Vec::new();
    let mut in_stack = false;
    let mut i: usize = 0;
    assert(lsv.skip(0) =~= lsv);
    assert(out.deep_view() + frames_from(lsv.skip(0), false) =~= frames_from(lsv, false));
    while i < ls.len()
        invariant
            i <= ls@.len(),
            ls@.len() == lsv.len(),
            lsv == text::lines(report@),
            forall|k: int| 0 <= k < ls@.len() ==> #[trigger] ls@[k]@ == lsv[k],
            at@ == "at "@,
            paren@ == "("@,
            java@ == ".java:"@,
            tab@ == seq!['\t'],
            out.deep_view() + frames_from(lsv.skip(i as int), in_stack) == frames_from(lsv, false),
        decreases ls@.len() - i,
    {
        let l = ls[i].as_slice();
        assert(l@ == lsv[i as int]);
        let ghost rest = lsv.skip(i as int);
        assert(rest[0] == lsv[i as int]);
        assert(rest.drop_first() =~= lsv.skip(i + 1));
        let frame = text::contains_seq(l, at.as_slice()) && (text::contains_seq(l, paren.as_slice())
            || text::contains_seq(l, java.as_slice()));
        if frame {
            in_stack = true;
            let t = text::trim_seq(l);
            let ghost before = out.deep_view();
            out.push(text::string_of(t.as_slice()));
            assert(out.deep_view() =~= before.push(t@));
            assert(before.push(t@) + frames_from(lsv.skip(i + 1), true) =~= before + (seq![t@]
                + frames_from(rest.drop_first(), true)));
        } else {
            let t = text::trim_seq(l);
            if in_stack && t.len() != 0 && !text::starts_with_seq(l, tab.as_slice()) {
                assert(out.deep_view() + Seq::<Seq<char>>::empty() =~= out.deep_view());
                return out;
            }
        }
        i += 1;
    }
    assert(lsv.skip(i as int) =~= Seq::<Seq<char>>::empty());
    assert(out.deep_view() + Seq::<Seq<char>>::empty() =~= out.deep_view());
    out
}

// ---------------------------------------------------------------------------
// Mods named by the report
// ---------------------------------------------------------------------------

/// The part of `s` after its last `c` (all of `s` when there is none).
pub open spec fn after_last(s: Seq<char>, c: char) -> Seq<char> {
    match text::rsplit_once(s, c) {
        Some(p) => p.1,
        None => s,
    }
}

/// The part of `s` before its first `c` (all of `s` when there is none).
pub open spec fn before_first(s: Seq<char>, c: char) -> Seq<char> {
    match text::split_once(s, c) {
        Some(p) => p.0,
        None => s,
    }
}

/// The mod a line names: the last `/` segment of a jar path, or the second
/// `:` field of a `mod_id` line, trimmed and unquoted.
pub open spec fn mod_name_of(l: Seq<char>) -> Option<Seq<char>> {
    if text::contains(l, ".jar"@) {
        Some(text::trim(after_last(l, '/')))
    } else if text::contains(l, "mod_id"@) {
        match text::split_once(l, ':') {
            Some(p) => Some(text::trim_char(text::trim(before_first(p.1, ':')), '"')),
            None => None,
        }
    } else {
        None
    }
}

/// Distinct mod names of the lines `ls`, in order of first mention.
pub open spec fn mods_named(ls: Seq<Seq<char>>) -> Seq<Seq<char>>
    decreases ls.len(),
{
    if ls.len() == 0 {
        Seq::empty()
    } else {
        let prev = mods_named(ls.drop_last());
        match mod_name_of(ls.last()) {
            Some(n) => if prev.contains(n) {
                prev
            } else {
                prev.push(n)
            },
            None => prev,
        }
    }
}

/// The mods a crash analysis names are distinct.
pub proof fn law_named_mods_distinct(ls: Seq<Seq<char>>)
    ensures
        forall|a: int, b: int| 0 <= a < b < mods_named(ls).len() ==> #[trigger] mods_named(ls)[a] != #[trigger] mods_named(ls)[b],
    decreases ls.len(),
{
    if ls.len() > 0 {
        law_named_mods_distinct(ls.drop_last());
        let prev = mods_named(ls.drop_last());
        match mod_name_of(ls.last()) {
            Some(n) => if !prev.contains(n) {
                let r = prev.push(n);
                assert forall|a: int, b: int| 0 <= a < b < r.len() implies #[trigger] r[a] != #[trigger] r[b] by {
                    if b == prev.len() {
                        assert(r[a] == prev[a]);
                        assert(prev.contains(prev[a]));
                    } else {
                        assert(r[a] == prev[a] && r[b] == prev[b]);
                    }
                }
            },
            None => {},
        }
    }
}

fn mod_name_line(l: &[char]) -> (r: Option<String>)
    ensures
        r.deep_view() == mod_name_of(l@),
{
    let jar = text::chars_of(".jar");
    let modid = text::chars_of("mod_id");
    if text::contains_seq(l, jar.as_slice()) {
        let seg = match text::rsplit_once_seq(l, '/') {
            Some(p) => p.1,
            None => {
                let w = text::slice_range(l, 0, l.len());
                assert(w@ =~= l@);
                w
            },
        };
        assert(seg@ == after_last(l@, '/'));
        let t = text::trim_seq(seg.as_slice());
        Some(text::string_of(t.as_slice()))
    } else if text::contains_seq(l, modid.as_slice()) {
        match text::split_once_seq(l, ':') {
            Some(p) => {
                let field = match text::split_once_seq(p.1.as_slice(), ':') {
                    Some(q) => q.0,
                    None => p.1,
                };
                let t = text::trim_seq(field.as_slice());
                let u = text::trim_char_seq(t.as_slice(), '"');
                Some(text::string_of(u.as_slice()))
            },
            None => None,
        }
    } else {
        None
    }
}

fn contains_name(v: &Vec<String>, n: &String) -> (r: bool)
    ensures
        r == v.deep_view().contains(n@),
{
    let mut i: usize = 0;
    while i < v.len()
        invariant
            i <= v@.len(),
            forall|k: int| 0 <= k < i ==> v@[k]@ != n@,
        decreases v@.len() - i,
    {
        if text::str_eq(v[i].as_str(), n.as_str()) {
            assert(v.deep_view()[i as int] == n@);
            return true;
        }
        i += 1;
    }
    assert(!v.deep_view().contains(n@)) by {
        if v.deep_view().contains(n@) {
            let k = choose|k: int| 0 <= k < v.deep_view().len() && v.deep_view()[k] == n@;
            assert(v@[k]@ == n@);
        }
    }
    false
}

fn mods_of_report(report: &str) -> (r: Vec<String>)
    ensures
        r.deep_view() == mods_named(text::lines(report@)),
{
    let chars = text::chars_of(report);
    let ls = text::lines_seq(chars.as_slice());
    let ghost lsv: Seq<Seq<char>> = text::lines(report@);
    let mut out: Vec<String> = Vec::new();
    let mut i: usize = 0;
    assert(lsv.take(0) =~= Seq::<Seq<char>>::empty());
    while i < ls.len()
        invariant
            i <= ls@.len(),
            ls@.len() == lsv.len(),
            forall|k: int| 0 <= k < ls@.len() ==> #[trigger] ls@[k]@ == lsv[k],
            out.deep_view() == mods_named(lsv.take(i as int)),
        decreases ls@.len() - i,
    {
        assert(lsv.take(i + 1).drop_last() =~= lsv.take(i as int));
        assert(ls@[i as int]@ == lsv[i as int]);
        match mod_name_line(ls[i].as_slice()) {
            Some(n) => {
                if !contains_name(&out, &n) {
                    let ghost before = out.deep_view();
                    out.push(n);
                    assert(out.deep_view() =~= before.push(n@));
                }
            },
            None => {},
        }
        i += 1;
    }
    assert(lsv.take(i as int) =~= lsv);
    out
}

// ---------------------------------------------------------------------------
// Diagnosis
// ---------------------------------------------------------------------------

/// The likely cause stated for a crash class (`mods` as found in the report).
pub open spec fn likely_cause(c: CrashType, mods: Seq<Seq<char>>) -> Seq<char> {
    match c {
        CrashType::OutOfMemory => "Insufficient memory allocated to Minecraft"@,
        CrashType::MissingDependency => "Missing required classes or libraries"@,
        CrashType::GraphicsDriver => "Graphics driver or OpenGL issue"@,
        CrashType::JavaVersion => "Java version incompatibility"@,
        CrashType::CorruptedFile => "Corrupted game files or mods"@,
        CrashType::NetworkIssue => "Network connectivity problem"@,
        CrashType::ModConflict => if mods.len() > 1 {
            "Possible conflict between: "@ + text::join(mods, ", "@)
        } else {
            "Multiple mods may be conflicting"@
        },
        CrashType::Unknown => "Unable to determine specific crash cause"@,
    }
}

/// Suggestions for a report whose class could not be told.
pub open spec fn generic_suggestions(report: Seq<char>) -> Seq<Seq<char>> {
    seq![
        "Check the full crash report for more details"@,
        "Search for the error message online"@,
        "Try running with minimal mods"@,
    ] + (if text::contains(report, "NullPointerException"@) {
        seq!["A mod is trying to access null data - report to mod author"@]
    } else {
        Seq::empty()
    }) + (if text::contains(report, "StackOverflowError"@) {
        seq!["Possible infinite loop in mod code"@]
    } else {
        Seq::empty()
    })
}

/// Suggestions stated for a crash class.
pub open spec fn suggestions_for(c: CrashType, report: Seq<char>) -> Seq<Seq<char>> {
    match c {
        CrashType::OutOfMemory => seq![
            "Increase JVM heap size using -Xmx argument (e.g., -Xmx4G)"@,
            "Close other applications to free up system memory"@,
            "Remove unused mods or resource packs"@,
            "Use OptiFine or Sodium for better memory management"@,
        ],
        CrashType::MissingDependency => seq![
            "Install required mod loader version"@,
            "Check mod dependencies and install missing mods"@,
            "Update mods to compatible versions"@,
            "Verify Minecraft installation integrity"@,
        ],
        CrashType::GraphicsDriver => seq![
            "Update graphics drivers to the latest version"@,
            "Try running with -Dorg.lwjgl.opengl.Display.allowSoftwareOpenGL=true"@,
            "Check if your GPU supports the required OpenGL version"@,
            "Disable shaders or advanced graphics features"@,
        ],
        CrashType::JavaVersion => seq![
            "Install Java 17 or higher for Minecraft 1.18+"@,
            "Check Java version with 'java -version'"@,
            "Update JAVA_HOME environment variable"@,
        ],
        CrashType::CorruptedFile => seq![
            "Re-download corrupted mod files"@,
            "Verify Minecraft client integrity"@,
            "Clear cache and temporary files"@,
            "Reinstall problematic mods"@,
        ],
        CrashType::NetworkIssue => seq![
            "Check internet connection"@,
            "Verify server availability"@,
            "Check firewall settings"@,
            "Try offline mode if applicable"@,
        ],
        CrashType::ModConflict => seq![
            "Remove mods one by one to identify the conflict"@,
            "Check mod compatibility matrix"@,
            "Update all mods to latest compatible versions"@,
            "Check mod authors' documentation for known conflicts"@,
        ],
        CrashType::Unknown => generic_suggestions(report),
    }
}

fn owned(s: &str) -> (r: String)
    ensures
        r@ == s@,
{
    s.to_owned()
}

fn four(a: &str, b: &str, c: &str, d: &str) -> (r: Vec<String>)
    ensures
        r.deep_view() == seq![a@, b@, c@, d@],
{
    let mut v: Vec<String> = Vec::new();
    v.push(owned(a));
    v.push(owned(b));
    v.push(owned(c));
    v.push(owned(d));
    assert(v.deep_view() =~= seq![a@, b@, c@, d@]);
    v
}

fn generic_suggestion_list(report: &str) -> (r: Vec<String>)
    ensures
        r.deep_view() == generic_suggestions(report@),
{
    let mut v: Vec<String> = Vec::new();
    v.push(owned("Check the full crash report for more details"));
    v.push(owned("Search for the error message online"));
    v.push(owned("Try running with minimal mods"));
    let ghost base = v.deep_view();
    assert(base =~= seq![
        "Check the full crash report for more details"@,
        "Search for the error message online"@,
        "Try running with minimal mods"@,
    ]);
    if text::str_contains(report, "NullPointerException") {
        v.push(owned("A mod is trying to access null data - report to mod author"));
    }
    let ghost mid = v.deep_view();
    assert(mid =~= base + (if text::contains(report@, "NullPointerException"@) {
        seq!["A mod is trying to access null data - report to mod author"@]
    } else {
        Seq::empty()
    }));
    if text::str_contains(report, "StackOverflowError") {
        v.push(owned("Possible infinite loop in mod code"));
    }
    assert(v.deep_view() =~= mid + (if text::contains(report@, "StackOverflowError"@) {
        seq!["Possible infinite loop in mod code"@]
    } else {
        Seq::empty()
    }));
    v
}

fn suggestion_list(c: CrashType, report: &str) -> (r: Vec<String>)
    ensures
        r.deep_view() == suggestions_for(c, report@),
{
    match c {
        CrashType::OutOfMemory => four(
            "Increase JVM heap size using -Xmx argument (e.g., -Xmx4G)",
            "Close other applications to free up system memory",
            "Remove unused mods or resource packs",
            "Use OptiFine or Sodium for better memory management",
        ),
        CrashType::MissingDependency => four(
            "Install required mod loader version",
            "Check mod dependencies and install missing mods",
            "Update mods to compatible versions",
            "Verify Minecraft installation integrity",
        ),
        CrashType::GraphicsDriver => four(
            "Update graphics drivers to the latest version",
            "Try running with -Dorg.lwjgl.opengl.Display.allowSoftwareOpenGL=true",
            "Check if your GPU supports the required OpenGL version",
            "Disable shaders or advanced graphics features",
        ),
        CrashType::JavaVersion => {
            let mut v: Vec<String> = Vec::new();
            v.push(owned("Install Java 17 or higher for Minecraft 1.18+"));
            v.push(owned("Check Java version with 'java -version'"));
            v.push(owned("Update JAVA_HOME environment variable"));
            assert(v.deep_view() =~= suggestions_for(c, report@));
            v
        },
        CrashType::CorruptedFile => four(
            "Re-download corrupted mod files",
            "Verify Minecraft client integrity",
            "Clear cache and temporary files",
            "Reinstall problematic mods",
        ),
        CrashType::NetworkIssue => four(
            "Check internet connection",
            "Verify server availability",
            "Check firewall settings",
            "Try offline mode if applicable",
        ),
        CrashType::ModConflict => four(
            "Remove mods one by one to identify the conflict",
            "Check mod compatibility matrix",
            "Update all mods to latest compatible versions",
            "Check mod authors' documentation for known conflicts",
        ),
        CrashType::Unknown => generic_suggestion_list(report),
    }
}

fn cause_text(c: CrashType, mods: &Vec<String>) -> (r: String)
    ensures
        r@ == likely_cause(c, mods.deep_view()),
{
    match c {
        CrashType::OutOfMemory => owned("Insufficient memory allocated to Minecraft"),
        CrashType::MissingDependency => owned("Missing required classes or libraries"),
        CrashType::GraphicsDriver => owned("Graphics driver or OpenGL issue"),
        CrashType::JavaVersion => owned("Java version incompatibility"),
        CrashType::CorruptedFile => owned("Corrupted game files or mods"),
        CrashType::NetworkIssue => owned("Network connectivity problem"),
        CrashType::ModConflict => {
            if mods.len() > 1 {
                let joined = text::join_strings(mods, ", ");
                assert(mods@.map_values(|p: String| p@) =~= mods.deep_view());
                text::concat2("Possible conflict between: ", joined.as_str())
            } else {
                owned("Multiple mods may be conflicting")
            }
        },
        CrashType::Unknown => owned("Unable to determine specific crash cause"),
    }
}

fn to_class(t: log_parser::CrashType) -> (c: CrashType)
    ensures
        c == class_of(t),
{
    match t {
        log_parser::CrashType::OutOfMemory => CrashType::OutOfMemory,
        log_parser::CrashType::ModConflict => CrashType::ModConflict,
        log_parser::CrashType::MissingDependency => CrashType::MissingDependency,
        log_parser::CrashType::GraphicsDriver => CrashType::GraphicsDriver,
        log_parser::CrashType::JavaVersion => CrashType::JavaVersion,
        log_parser::CrashType::CorruptedFile => CrashType::CorruptedFile,
        log_parser::CrashType::NetworkIssue => CrashType::NetworkIssue,
        log_parser::CrashType::Unknown => CrashType::Unknown,
    }
}

impl CrashAnalyzer {
    pub fn new() -> (a: Self) {
        CrashAnalyzer
    }

    /// Analyses a crash report: its class, the cause and suggestions stated
    /// for that class, the mods it names (distinct, in order), the first ten
    /// frames of its stack trace, and a summary `<class>: <cause>`.
    pub fn analyze(&self, crash_report: &str) -> (r: Result<CrashAnalysis, String>)
        ensures
            r is Ok,
            r matches Ok(a) ==> {
                let c = class_of(log_parser::spec_detect_crash_type(crash_report@));
                let mods = mods_named(text::lines(crash_report@));
                &&& a.crash_type == c
                &&& a.mod_conflicts.deep_view() == mods
                &&& a.likely_cause@ == likely_cause(c, mods)
                &&& a.suggestions.deep_view() == suggestions_for(c, crash_report@)
                &&& a.summary@ == variant_name(c) + ": "@ + likely_cause(c, mods)
                &&& a.stack_trace_top.deep_view() == log_parser::take_at_most(
                    frames_from(text::lines(crash_report@), false),
                    10,
                )
            },
    {
        let crash_type = to_class(log_parser::detect_crash_type(crash_report));
        let mut stack_trace = stack_frames(crash_report);
        let mods = mods_of_report(crash_report);
        let likely = cause_text(crash_type, &mods);
        let suggestions = suggestion_list(crash_type, crash_report);
        let head = text::concat2(crash_type.name(), ": ");
        let summary = text::concat2(head.as_str(), likely.as_str());
        let ghost frames = stack_trace.deep_view();
        if stack_trace.len() > 10 {
            stack_trace.truncate(10);
            assert(stack_trace.deep_view() =~= frames.take(10));
        }
        Ok(
            CrashAnalysis {
                summary,
                crash_type,
                likely_cause: likely,
                suggestions,
                mod_conflicts: mods,
                stack_trace_top: stack_trace,
            },
        )
    }
}

} // verus!
