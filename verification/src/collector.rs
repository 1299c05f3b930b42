//! Diagnostic report model and the computations behind it: log entries,
//! error extraction and classification, crash-report dates, log analysis
//! summary and correlation notes between failures and the last launch.
use vstd::prelude::*;
use crate::text;
use crate::log_parser;

verus! {

/// The full diagnostic report of an instance.
#[derive(Debug)]
pub struct DiagnosticReport {
    pub instance_name: String,
    pub timestamp: String,
    pub system_info: SystemInfo,
    pub logs: Vec<LogEntry>,
    pub crash_reports: Vec<CrashReport>,
    pub errors: Vec<ErrorEntry>,
    pub analysis: Option<LogAnalysisSummary>,
    pub idle_timeout_event: Option<IdleTimeoutEvent>,
    pub last_launch_metrics: Option<LaunchRecord>,
}

/// One recorded idle-watchdog termination.
#[derive(Debug, Clone)]
pub struct IdleTimeoutEvent {
    pub instance: String,
    pub pid: u32,
    pub idle_seconds: u64,
    pub timestamp: String,
}

/// The idle-timeout event an instance recorded, from the decoding of its
/// marker file (`Err` when the file is missing or does not decode).
pub fn read_idle_timeout_marker(decoded: Result<IdleTimeoutEvent, String>) -> (r: Option<IdleTimeoutEvent>)
    ensures
        match decoded {
            Ok(e) => r == Some(e),
            Err(_) => r is None,
        },
{
    match decoded {
        Ok(e) => Some(e),
        Err(_) => None,
    }
}

/// What the correlation notes read of the last recorded launch: when it
/// started, and whether it reached the ready state.
#[derive(Debug, Clone)]
pub struct LaunchRecord {
    pub timestamp: String,
    pub reached_ready: bool,
}

/// Structured log analysis embedded in the report.
#[derive(Debug, Clone)]
pub struct LogAnalysisSummary {
    pub total_lines: u64,
    pub error_count: u64,
    pub warning_count: u64,
    pub crash_count: u64,
    pub detected_mods: Vec<String>,
    pub crash_type: Option<String>,
    pub stack_trace_top: Vec<String>,
    pub categories: Vec<(String, u64)>,
    pub top_errors: Vec<String>,
}

#[derive(Debug)]
pub struct SystemInfo {
    pub os: String,
    pub arch: String,
    pub java_version: Option<String>,
    pub memory_total: Option<u64>,
    pub memory_available: Option<u64>,
}

/// A log line as the report shows it.
#[derive(Debug)]
pub struct LogEntry {
    pub timestamp: String,
    pub level: String,
    pub source: String,
    pub message: String,
}

#[derive(Debug)]
pub struct CrashReport {
    pub file_name: String,
    pub content: String,
    pub timestamp: String,
}

#[derive(Debug)]
pub struct ErrorEntry {
    pub timestamp: String,
    pub error_type: String,
    pub message: String,
    pub stack_trace: Option<String>,
}

/// Collects diagnostics of the instance in `instance_dir`.
pub struct DiagnosticCollector {
    pub instance_dir: String,
}

/// Model of a report log entry: (timestamp, level, source, message).
pub type EntryView = (Seq<char>, Seq<char>, Seq<char>, Seq<char>);

/// Model of an error entry: (timestamp, error type, message, stack trace).
pub type ErrorView = (Seq<char>, Seq<char>, Seq<char>, Option<Seq<char>>);

impl View for LogEntry {
    type V = EntryView;

    open spec fn view(&self) -> EntryView {
        (self.timestamp@, self.level@, self.source@, self.message@)
    }
}

impl View for ErrorEntry {
    type V = ErrorView;

    open spec fn view(&self) -> ErrorView {
        (self.timestamp@, self.error_type@, self.message@, self.stack_trace.deep_view())
    }
}

// ---------------------------------------------------------------------------
// Correlation notes
// ---------------------------------------------------------------------------

pub open spec fn idle_note(idle_seconds: u64, timestamp: Seq<char>) -> Seq<char> {
    "The game was terminated by the idle watchdog after "@ + text::decimal(idle_seconds as nat)
        + "s of silence at "@ + timestamp + " — this is a hang/freeze signature, not a JVM crash"@
}

pub open spec fn not_ready_note() -> Seq<char> {
    "The last recorded launch never reached the ready state — the crash likely happened during startup or world load"@
}

pub open spec fn dated_note(date: Seq<char>, timestamp: Seq<char>) -> Seq<char> {
    "Crash report(s) dated "@ + date + " may correspond to the last launch at "@ + timestamp
}

/// Whether byte 10 of `ts` (or its end, when shorter) falls on a character
/// boundary, so that the date prefix can be cut there.
pub open spec fn date_cut_ok(ts: Seq<char>) -> bool {
    text::utf8_bytes(ts) <= 10 || log_parser::char_index_at_byte(ts, 10) is Some
}

/// The first ten bytes of `ts` (all of it when shorter).
pub open spec fn date_prefix(ts: Seq<char>) -> Seq<char> {
    if text::utf8_bytes(ts) <= 10 {
        ts
    } else {
        match log_parser::char_index_at_byte(ts, 10) {
            Some(k) => ts.take(k),
            None => ts,
        }
    }
}

/// The notes owed for the given evidence, in order: the idle-watchdog note;
/// then, when crash reports exist and a launch was recorded, the
/// not-ready note (if it never became ready) and the same-day note (if its
/// timestamp is not empty).
pub open spec fn correlation_notes(
    has_crashes: bool,
    idle: Option<(u64, Seq<char>)>,
    launch: Option<(Seq<char>, bool)>,
) -> Seq<Seq<char>> {
    let first = match idle {
        Some(ev) => seq![idle_note(ev.0, ev.1)],
        None => Seq::empty(),
    };
    if has_crashes {
        match launch {
            Some(m) => first + (if !m.1 {
                seq![not_ready_note()]
            } else {
                Seq::empty()
            }) + (if date_prefix(m.0).len() != 0 {
                seq![dated_note(date_prefix(m.0), m.0)]
            } else {
                Seq::empty()
            }),
            None => first,
        }
    } else {
        first
    }
}

pub open spec fn idle_view(e: Option<&IdleTimeoutEvent>) -> Option<(u64, Seq<char>)> {
    match e {
        Some(ev) => Some((ev.idle_seconds, ev.timestamp@)),
        None => None,
    }
}

pub open spec fn launch_view(m: Option<&LaunchRecord>) -> Option<(Seq<char>, bool)> {
    match m {
        Some(r) => Some((r.timestamp@, r.reached_ready)),
        None => None,
    }
}

fn utf8_total(s: &[char]) -> (n: u128)
    ensures
        n == text::utf8_bytes(s@),
{
    let mut n: u128 = 0;
    let mut k: usize = 0;
    assert(s@.take(0) =~= Seq::<char>::empty());
    while k < s.len()
        invariant
            k <= s@.len(),
            n == text::utf8_bytes(s@.take(k as int)),
            n <= 4 * k,
        decreases s@.len() - k,
    {
        proof { log_parser::lemma_utf8_bytes_take(s@, k as int); }
        n = n + (text::char_utf8_len(s[k]) as u128);
        k += 1;
    }
    assert(s@.take(k as int) =~= s@);
    n
}

fn date_of(ts: &str) -> (r: String)
    requires
        date_cut_ok(ts@),
    ensures
        r@ == date_prefix(ts@),
{
    let chars = text::chars_of(ts);
    let total = utf8_total(chars.as_slice());
    if total <= 10 {
        text::string_of(chars.as_slice())
    } else {
        match log_parser::char_index_of_byte(chars.as_slice(), 10) {
            Some(k) => {
                proof {
                    let c = choose|j: int| 0 <= j <= ts@.len() && text::utf8_bytes(ts@.take(j)) == 10;
                    assert(0 <= c <= ts@.len());
                }
                text::substring(chars.as_slice(), 0, k)
            },
            None => text::string_of(chars.as_slice()),
        }
    }
}

/// Notes that relate observed failures to the last recorded launch: an idle
/// watchdog kill, a crash in a launch that never became ready, and the date
/// link between crash reports and the launch.
pub fn build_correlation_notes(
    has_crashes: bool,
    idle_event: Option<&IdleTimeoutEvent>,
    launch: Option<&LaunchRecord>,
) -> (notes: Vec<String>)
    requires
        has_crashes && launch is Some ==> date_cut_ok(launch.unwrap().timestamp@),
    ensures
        notes.deep_view() == correlation_notes(has_crashes, idle_view(idle_event), launch_view(launch)),
{
    let mut notes: Vec<String> = Vec::new();
    match idle_event {
        Some(ev) => {
            let secs = text::u64_to_decimal(ev.idle_seconds);
            let mut n = "The game was terminated by the idle watchdog after ".to_owned();
            text::push_chars(&mut n, secs.as_slice());
            text::push_str(&mut n, "s of silence at ");
            text::push_str(&mut n, ev.timestamp.as_str());
            text::push_str(&mut n, " — this is a hang/freeze signature, not a JVM crash");
            notes.push(n);
            assert(notes.deep_view() =~= seq![idle_note(ev.idle_seconds, ev.timestamp@)]);
        },
        None => {
            assert(notes.deep_view() =~= Seq::<Seq<char>>::empty());
        },
    }
    let ghost first = notes.deep_view();
    if has_crashes {
        match launch {
            Some(m) => {
                if !m.reached_ready {
                    notes.push(
                        "The last recorded launch never reached the ready state — the crash likely happened during startup or world load".to_owned(),
                    );
                }
                let ghost mid = notes.deep_view();
                assert(mid =~= first + (if !m.reached_ready {
                    seq![not_ready_note()]
                } else {
                    Seq::empty()
                }));
                let date = date_of(m.timestamp.as_str());
                if !date.as_str().is_empty() {
                    let mut n = "Crash report(s) dated ".to_owned();
                    text::push_str(&mut n, date.as_str());
                    text::push_str(&mut n, " may correspond to the last launch at ");
                    text::push_str(&mut n, m.timestamp.as_str());
                    notes.push(n);
                }
                assert(notes.deep_view() =~= mid + (if date_prefix(m.timestamp@).len() != 0 {
                    seq![dated_note(date_prefix(m.timestamp@), m.timestamp@)]
                } else {
                    Seq::empty()
                }));
            },
            None => {},
        }
    }
    notes
}

// ---------------------------------------------------------------------------
// Log entries, errors and crash reports
// ---------------------------------------------------------------------------

/// The report entry for a parsed log line.
pub open spec fn report_entry(e: log_parser::LogEntryView) -> EntryView {
    (
        match e.timestamp {
            Some(t) => t,
            None => Seq::empty(),
        },
        log_parser::severity_name(e.severity),
        match e.source {
            Some(s) => s,
            None => Seq::empty(),
        },
        e.message,
    )
}

/// Error type of a message, by the first matching keyword rule.
pub open spec fn error_class(m: Seq<char>) -> Seq<char> {
    if text::contains(m, "OutOfMemoryError"@) {
        "OutOfMemory"@
    } else if text::contains(m, "ClassNotFoundException"@) || text::contains(m, "NoClassDefFoundError"@) {
        "ClassNotFound"@
    } else if text::contains(m, "Connection"@) || text::contains(m, "IOException"@) {
        "Network"@
    } else if text::contains(m, "OpenGL"@) || text::contains(m, "LWJGL"@) {
        "Graphics"@
    } else if text::contains(m, "crash"@) {
        "Crash"@
    } else {
        "General"@
    }
}

/// The part of a crash-report file name after `crash-` and before the
/// time (the first `_`).
pub open spec fn crash_date_part(rest: Seq<char>) -> Seq<char> {
    match text::split_once(rest, '_') {
        Some(p) => p.0,
        None => rest,
    }
}

/// Date of a crash-report file name `crash-YYYY-MM-DD_HH-MM-SS-...`: the
/// first three `-`-separated fields of its date part, or `Unknown`.
pub open spec fn crash_file_date(name: Seq<char>) -> Seq<char> {
    if text::starts_with(name, "crash-"@) {
        text::join(log_parser::take_at_most(text::split_char(crash_date_part(name.skip(6)), '-'), 3), "-"@)
    } else {
        "Unknown"@
    }
}

/// The error entries for report entries `logs`: one per `ERROR` or `FATAL`
/// entry, in order, each carrying the same stack trace `trace`.
pub open spec fn error_entries(logs: Seq<EntryView>, trace: Option<Seq<char>>) -> Seq<ErrorView>
    decreases logs.len(),
{
    if logs.len() == 0 {
        Seq::empty()
    } else {
        let prev = error_entries(logs.drop_last(), trace);
        let l = logs.last();
        if l.1 == "ERROR"@ || l.1 == "FATAL"@ {
            prev.push((l.0, error_class(l.3), l.3, trace))
        } else {
            prev
        }
    }
}

/// The stack trace attached to errors: the top ten frames of all crash
/// reports joined by newlines, themselves joined by newlines; `None` when
/// there is no frame.
pub open spec fn crash_trace(contents: Seq<Seq<char>>) -> Option<Seq<char>> {
    let frames = log_parser::spec_extract_stack_trace(text::join(contents, "\n"@), 10);
    if frames.len() == 0 {
        None
    } else {
        Some(text::join(frames, "\n"@))
    }
}

pub open spec fn entries_of(v: Seq<LogEntry>) -> Seq<EntryView> {
    v.map_values(|e: LogEntry| e@)
}

pub open spec fn errors_of(v: Seq<ErrorEntry>) -> Seq<ErrorView> {
    v.map_values(|e: ErrorEntry| e@)
}

pub open spec fn contents_of(v: Seq<CrashReport>) -> Seq<Seq<char>> {
    v.map_values(|c: CrashReport| c.content@)
}

/// The log entry the analyser sees for a report entry.
pub open spec fn analysed_entry(l: EntryView) -> log_parser::LogEntryView {
    log_parser::LogEntryView {
        line_number: 0,
        timestamp: Some(l.0),
        severity: match log_parser::severity_of_lower(text::spec_to_lowercase(l.1)) {
            Some(s) => s,
            None => log_parser::Severity::Info,
        },
        source: Some(l.2),
        message: l.3,
        is_exception: false,
        exception_type: None,
        is_crash_marker: l.1 == "FATAL"@,
        categories: Seq::empty(),
    }
}

pub proof fn lemma_no_categories(es: Seq<log_parser::LogEntryView>)
    requires
        forall|i: int| 0 <= i < es.len() ==> (#[trigger] es[i]).categories.len() == 0,
    ensures
        log_parser::total_categories(es) == 0,
    decreases es.len(),
{
    if es.len() > 0 {
        lemma_no_categories(es.drop_last());
    }
}

fn opt_or_empty(o: &Option<String>) -> (r: String)
    ensures
        r@ == match o.deep_view() {
            Some(t) => t,
            None => Seq::<char>::empty(),
        },
{
    match o {
        Some(t) => t.clone(),
        None => String::new(),
    }
}

fn error_class_of(m: &str) -> (r: String)
    ensures
        r@ == error_class(m@),
{
    if text::str_contains(m, "OutOfMemoryError") {
        "OutOfMemory".to_owned()
    } else if text::str_contains(m, "ClassNotFoundException") || text::str_contains(m, "NoClassDefFoundError") {
        "ClassNotFound".to_owned()
    } else if text::str_contains(m, "Connection") || text::str_contains(m, "IOException") {
        "Network".to_owned()
    } else if text::str_contains(m, "OpenGL") || text::str_contains(m, "LWJGL") {
        "Graphics".to_owned()
    } else if text::str_contains(m, "crash") {
        "Crash".to_owned()
    } else {
        "General".to_owned()
    }
}

fn clone_opt(o: &Option<String>) -> (r: Option<String>)
    ensures
        r.deep_view() == o.deep_view(),
{
    match o {
        Some(t) => Some(t.clone()),
        None => None,
    }
}

impl DiagnosticCollector {
    pub fn new(instance_dir: String) -> (c: Self)
        ensures
            c.instance_dir@ == instance_dir@,
    {
        DiagnosticCollector { instance_dir }
    }

    /// Report entries for log content: each parsed line (at most 5000) with
    /// its timestamp and source (empty when absent), level name and message.
    pub fn parse_log_content(&self, content: &str) -> (r: Vec<LogEntry>)
        ensures
            entries_of(r@) == log_parser::parsed_lines(content@, 5000).map_values(
                |e: log_parser::LogEntryView| report_entry(e),
            ),
    {
        let parser = log_parser::LogParser::new();
        let parsed = parser.parse_content(content);
        let ghost want = log_parser::parsed_lines(content@, 5000).map_values(
            |e: log_parser::LogEntryView| report_entry(e),
        );
        let mut out: Vec<LogEntry> = Vec::new();
        let mut i: usize = 0;
        while i < parsed.len()
            invariant
                i <= parsed@.len(),
                log_parser::entries_view(parsed@) == log_parser::parsed_lines(content@, 5000),
                want == log_parser::parsed_lines(content@, 5000).map_values(
                    |e: log_parser::LogEntryView| report_entry(e),
                ),
                out@.len() == i,
                forall|k: int| 0 <= k < i ==> (#[trigger] out@[k])@ == report_entry(parsed@[k]@),
            decreases parsed@.len() - i,
        {
            let p = &parsed[i];
            out.push(
                LogEntry {
                    timestamp: opt_or_empty(&p.timestamp),
                    level: p.severity.as_str().to_owned(),
                    source: opt_or_empty(&p.source),
                    message: p.message.clone(),
                },
            );
            i += 1;
        }
        assert(entries_of(out@).len() == want.len());
        assert forall|k: int| 0 <= k < want.len() implies entries_of(out@)[k] == want[k] by {
            assert(log_parser::entries_view(parsed@)[k] == parsed@[k]@);
        }
        assert(entries_of(out@) =~= want);
        out
    }

    /// Date of a crash report from its file name.
    pub fn extract_timestamp_from_crash(&self, file_name: &str) -> (r: String)
        ensures
            r@ == crash_file_date(file_name@),
    {
        let chars = text::chars_of(file_name);
        let prefix = text::chars_of("crash-");
        if text::starts_with_seq(chars.as_slice(), prefix.as_slice()) {
            proof { reveal_strlit("crash-"); }
            let after = text::slice_range(chars.as_slice(), 6, chars.len());
            assert(after@ =~= file_name@.skip(6));
            let rest = match text::split_once_seq(after.as_slice(), '_') {
                Some((d, _t)) => d,
                None => after,
            };
            assert(rest@ == crash_date_part(file_name@.skip(6)));
            let parts = text::split_char_seq(rest.as_slice(), '-');
            let mut strs: Vec<String> = Vec::new();
            let mut i: usize = 0;
            while i < parts.len() && i < 3
                invariant
                    i <= parts@.len(),
                    i <= 3,
                    strs@.len() == i,
                    forall|k: int| 0 <= k < i ==> (#[trigger] strs@[k])@ == parts@[k]@,
                decreases parts@.len() - i,
            {
                strs.push(text::string_of(parts[i].as_slice()));
                i += 1;
            }
            let r = text::join_strings(&strs, "-");
            proof {
                let want = log_parser::take_at_most(text::split_char(rest@, '-'), 3);
                assert(parts@.map_values(|p: Vec<char>| p@) == text::split_char(rest@, '-'));
                assert(strs@.map_values(|p: String| p@) =~= want) by {
                    assert forall|k: int| 0 <= k < want.len() implies strs@.map_values(|p: String| p@)[k] == want[k] by {
                        assert(parts@.map_values(|p: Vec<char>| p@)[k] == parts@[k]@);
                    }
                }
            }
            r
        } else {
            "Unknown".to_owned()
        }
    }

    /// Error type of a log message.
    pub fn classify_error(&self, message: &str) -> (r: String)
        ensures
            r@ == error_class(message@),
    {
        error_class_of(message)
    }

    /// One error entry per `ERROR` or `FATAL` log entry, classified, each
    /// with the stack trace found in the crash reports.
    pub fn extract_errors(&self, logs: &[LogEntry], crash_reports: &[CrashReport]) -> (r: Vec<ErrorEntry>)
        ensures
            errors_of(r@) == error_entries(entries_of(logs@), crash_trace(contents_of(crash_reports@))),
    {
        let mut contents: Vec<String> = Vec::new();
        let mut c: usize = 0;
        while c < crash_reports.len()
            invariant
                c <= crash_reports@.len(),
                contents@.len() == c,
                forall|k: int| 0 <= k < c ==> (#[trigger] contents@[k])@ == crash_reports@[k].content@,
            decreases crash_reports@.len() - c,
        {
            contents.push(crash_reports[c].content.clone());
            c += 1;
        }
        assert(contents@.map_values(|p: String| p@) =~= contents_of(crash_reports@));
        let crash_text = text::join_strings(&contents, "\n");
        let frames = log_parser::extract_stack_trace(crash_text.as_str(), 10);
        let trace: Option<String> = if frames.len() == 0 {
            None
        } else {
            let j = text::join_strings(&frames, "\n");
            assert(frames@.map_values(|p: String| p@) =~= frames.deep_view());
            Some(j)
        };
        let ghost tv = crash_trace(contents_of(crash_reports@));
        assert(trace.deep_view() == tv);
        let ghost lv = entries_of(logs@);
        let mut errors: Vec<ErrorEntry> = Vec::new();
        let mut i: usize = 0;
        assert(lv.take(0) =~= Seq::<EntryView>::empty());
        while i < logs.len()
            invariant
                i <= logs@.len(),
                lv == entries_of(logs@),
                trace.deep_view() == tv,
                errors_of(errors@) == error_entries(lv.take(i as int), tv),
            decreases logs@.len() - i,
        {
            let l = &logs[i];
            assert(lv.take(i + 1).drop_last() =~= lv.take(i as int));
            assert(lv.take(i + 1).last() == l@);
            if text::str_eq(l.level.as_str(), "ERROR") || text::str_eq(l.level.as_str(), "FATAL") {
                let ghost before = errors_of(errors@);
                errors.push(
                    ErrorEntry {
                        timestamp: l.timestamp.clone(),
                        error_type: error_class_of(l.message.as_str()),
                        message: l.message.clone(),
                        stack_trace: clone_opt(&trace),
                    },
                );
                assert(errors_of(errors@) =~= before.push((l.timestamp@, error_class(l.message@), l.message@, tv)));
            }
            i += 1;
        }
        assert(lv.take(i as int) =~= lv);
        errors
    }

    /// The log analysis of report entries, each seen as a line with its
    /// timestamp, level (`INFO` when the level word is unknown), source and
    /// message, a crash marker when its level is `FATAL`.
    pub fn analysis_of(&self, logs: &[LogEntry]) -> (s: LogAnalysisSummary)
        ensures
            ({
                let es = entries_of(logs@).map_values(|l: EntryView| analysed_entry(l));
                let combined = text::join(log_parser::messages(es), "\n"@);
                &&& s.total_lines == es.len()
                &&& s.error_count == log_parser::count_errors(es)
                &&& s.warning_count == log_parser::count_warnings(es)
                &&& s.crash_count == log_parser::count_crash_markers(es)
                &&& s.top_errors.deep_view() == log_parser::take_at_most(log_parser::error_messages(es), 20)
                &&& log_parser::is_category_table(log_parser::counts_view(s.categories@), es)
                &&& s.crash_type.deep_view() == (if s.crash_count > 0 || s.error_count > 0 {
                    Some(log_parser::crash_type_name(log_parser::spec_detect_crash_type(combined)))
                } else {
                    None
                })
                &&& s.stack_trace_top.deep_view() == log_parser::spec_extract_stack_trace(combined, 10)
                &&& s.detected_mods.deep_view() == log_parser::take_at_most(log_parser::mods_found(combined), 15)
            }),
    {
        let ghost want = entries_of(logs@).map_values(|l: EntryView| analysed_entry(l));
        let mut parsed: Vec<log_parser::LogEntry> = Vec::new();
        let mut i: usize = 0;
        while i < logs.len()
            invariant
                i <= logs@.len(),
                want == entries_of(logs@).map_values(|l: EntryView| analysed_entry(l)),
                parsed@.len() == i,
                forall|k: int| 0 <= k < i ==> (#[trigger] parsed@[k])@ == analysed_entry(logs@[k]@),
            decreases logs@.len() - i,
        {
            let l = &logs[i];
            let severity = match log_parser::Severity::from_str(l.level.as_str()) {
                Some(s) => s,
                None => log_parser::Severity::Info,
            };
            let cats: Vec<String> = Vec::new();
            assert(cats.deep_view() =~= Seq::<Seq<char>>::empty());
            parsed.push(
                log_parser::LogEntry {
                    line_number: 0,
                    timestamp: Some(l.timestamp.clone()),
                    severity,
                    source: Some(l.source.clone()),
                    message: l.message.clone(),
                    is_exception: false,
                    exception_type: None,
                    is_crash_marker: text::str_eq(l.level.as_str(), "FATAL"),
                    categories: cats,
                },
            );
            i += 1;
        }
        assert forall|k: int| 0 <= k < want.len() implies log_parser::entries_view(parsed@)[k] == want[k] by {
            assert(entries_of(logs@)[k] == logs@[k]@);
        }
        assert(log_parser::entries_view(parsed@) =~= want);
        proof {
            assert forall|k: int| 0 <= k < want.len() implies (#[trigger] want[k]).categories.len() == 0 by {
                assert(want[k] == analysed_entry(entries_of(logs@)[k]));
            }
            lemma_no_categories(want);
        }
        let parser = log_parser::LogParser::new();
        let a = parser.analyze(parsed.as_slice());
        LogAnalysisSummary {
            total_lines: a.total_lines,
            error_count: a.error_count,
            warning_count: a.warning_count,
            crash_count: a.crash_count,
            detected_mods: a.detected_mods,
            crash_type: a.crash_type,
            stack_trace_top: a.stack_trace_top,
            categories: a.categories,
            top_errors: a.top_errors,
        }
    }
}

} // verus!
