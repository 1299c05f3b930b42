//! Log line parsing and whole-log analysis.
//!
//! Recognised line shapes: Minecraft (`[HH:MM:SS.mmm] [Thread/LEVEL] [Source]:
//! Message`), PCL2 (`HH:MM:SS.mmm L <thread> [Source] Message`), stack frames,
//! `Caused by:` lines, bare exception lines and crash-report markers.
use vstd::prelude::*;
use crate::text;

verus! {

/// PCL2 launcher line: `11:06:52.030 W <19 · MyImage PicLoader 105#> [MyImage] message`.
pub const PCL2_LINE: &'static str = r"^(\d{2}:\d{2}:\d{2}(?:\.\d+)?)\s+([A-Z])\s+<[^>]+>\s+\[([^\]]+)\]\s*(.*)$";

/// Minecraft line: `[11:07:26.886] [main/WARN] [mixin/]: message`.
pub const MC_LINE: &'static str = r"^\[(\d{2}:\d{2}:\d{2}(?:\.\d+)?)\]\s+\[([^/]+)/([A-Z]+)\]\s+\[([^\]]+)\]:\s*(.*)$";

/// Exception line: `java.lang.Exception: message`.
pub const EXCEPTION_TYPE: &'static str = r"^([\w.]+(?:Exception|Error|Throwable))(?::\s*(.*))?$";

/// `Caused by: ...` line.
pub const CAUSED_BY: &'static str = r"^Caused by:\s+([\w.]+(?:Exception|Error|Throwable))(?::\s*(.*))?$";

/// Crash-report markers (case-insensitive).
pub const CRASH_MARKER: &'static str = r"(?i)(----\s*minecraft crash report\s*----|preparing crash report|崩溃报告|游戏崩溃|Minecraft 已崩溃|Minecraft 尚未加载完成)";

// ---------------------------------------------------------------------------
// Regular expressions (regex crate)
// ---------------------------------------------------------------------------

/// The capture groups (`None` for a group that did not take part) of the
/// leftmost-first match of `pattern` in `text`, or `None` when there is no
/// match, as the regex crate computes them.
pub uninterp spec fn spec_regex_captures(pattern: Seq<char>, text: Seq<char>) -> Option<
    Seq<Option<Seq<char>>>,
>;

pub open spec fn groups_view(v: Seq<Option<String>>) -> Seq<Option<Seq<char>>> {
    v.map_values(|o: Option<String>| o.deep_view())
}

/// `regex::Regex::new(pattern)` followed by `Regex::captures(text)`: every
/// group of the match as an owned string. The groups are named, not
/// described: regex semantics (Unicode classes, leftmost-first alternation)
/// are the crate's. A pattern that does not compile gives `None`; every
/// pattern this crate passes is a constant that compiles.
#[verifier::external_body]
fn regex_captures(pattern: &str, text: &str) -> (r: Option<Vec<Option<String>>>)
    ensures
        match r {
            Some(v) => spec_regex_captures(pattern@, text@) == Some(groups_view(v@)),
            None => spec_regex_captures(pattern@, text@) is None,
        },
{
    let re = regex::Regex::new(pattern).ok()?;
    let caps = re.captures(text)?;
    Some(caps.iter().map(|m| m.map(|m| m.as_str().to_string())).collect())
}

/// Group `i` of a capture list (`None` beyond its end).
pub open spec fn group(g: Seq<Option<Seq<char>>>, i: int) -> Option<Seq<char>> {
    if 0 <= i < g.len() {
        g[i]
    } else {
        None
    }
}

fn get_group(caps: &Vec<Option<String>>, i: usize) -> (r: Option<String>)
    ensures
        r.deep_view() == group(groups_view(caps@), i as int),
{
    if i < caps.len() {
        match &caps[i] {
            Some(s) => Some(s.clone()),
            None => None,
        }
    } else {
        None
    }
}

// ---------------------------------------------------------------------------
// Severity
// ---------------------------------------------------------------------------

/// Log severity level, ordered from least to most severe.
#[derive(Clone, Copy, Debug, PartialEq, Eq, Structural, PartialOrd, Ord, Hash)]
pub enum Severity {
    Debug,
    Info,
    Warn,
    Error,
    Fatal,
}

/// Severity named by an already-lowercased level word.
pub open spec fn severity_of_lower(l: Seq<char>) -> Option<Severity> {
    if l == "debug"@ || l == "trace"@ || l == "t"@ {
        Some(Severity::Debug)
    } else if l == "info"@ || l == "information"@ || l == "i"@ {
        Some(Severity::Info)
    } else if l == "warn"@ || l == "warning"@ || l == "w"@ {
        Some(Severity::Warn)
    } else if l == "error"@ || l == "err"@ || l == "e"@ {
        Some(Severity::Error)
    } else if l == "fatal"@ || l == "critical"@ || l == "f"@ || l == "c"@ {
        Some(Severity::Fatal)
    } else {
        None
    }
}

pub open spec fn severity_name(s: Severity) -> Seq<char> {
    match s {
        Severity::Debug => "DEBUG"@,
        Severity::Info => "INFO"@,
        Severity::Warn => "WARN"@,
        Severity::Error => "ERROR"@,
        Severity::Fatal => "FATAL"@,
    }
}

impl Severity {
    /// Parses a level word, case-insensitively (Unicode lowercase mapping;
    /// on ASCII words, ASCII lower-casing).
    pub fn from_str(s: &str) -> (r: Option<Severity>)
        ensures
            r == severity_of_lower(text::spec_to_lowercase(s@)),
            (forall|i: int| 0 <= i < s@.len() ==> s@[i] <= '\u{7f}') ==> r == severity_of_lower(text::ascii_lower(s@)),
    {
        let lower = text::to_lowercase(s);
        Self::from_lower(lower.as_str())
    }

    /// The severity an already-lowercased level word names.
    pub fn from_lower(l: &str) -> (r: Option<Severity>)
        ensures
            r == severity_of_lower(l@),
    {
        if text::str_eq(l, "debug") || text::str_eq(l, "trace") || text::str_eq(l, "t") {
            Some(Severity::Debug)
        } else if text::str_eq(l, "info") || text::str_eq(l, "information") || text::str_eq(l, "i") {
            Some(Severity::Info)
        } else if text::str_eq(l, "warn") || text::str_eq(l, "warning") || text::str_eq(l, "w") {
            Some(Severity::Warn)
        } else if text::str_eq(l, "error") || text::str_eq(l, "err") || text::str_eq(l, "e") {
            Some(Severity::Error)
        } else if text::str_eq(l, "fatal") || text::str_eq(l, "critical") || text::str_eq(l, "f")
            || text::str_eq(l, "c") {
            Some(Severity::Fatal)
        } else {
            None
        }
    }

    /// Upper-case level name.
    pub fn as_str(&self) -> (r: &'static str)
        ensures
            r@ == severity_name(*self),
    {
        match self {
            Severity::Debug => "DEBUG",
            Severity::Info => "INFO",
            Severity::Warn => "WARN",
            Severity::Error => "ERROR",
            Severity::Fatal => "FATAL",
        }
    }
}


/// Level names read back: each upper-case name is ASCII, and parsing it
/// (which ignores ASCII case) gives the severity again.
pub proof fn law_severity_round_trip(s: Severity)
    ensures
        forall|i: int| 0 <= i < severity_name(s).len() ==> severity_name(s)[i] <= '\u{7f}',
        severity_of_lower(text::ascii_lower(severity_name(s))) == Some(s),
{
    reveal_strlit("DEBUG");
    reveal_strlit("INFO");
    reveal_strlit("WARN");
    reveal_strlit("ERROR");
    reveal_strlit("FATAL");
    reveal_strlit("debug");
    reveal_strlit("info");
    reveal_strlit("warn");
    reveal_strlit("error");
    reveal_strlit("fatal");
    reveal_strlit("trace");
    reveal_strlit("t");
    reveal_strlit("information");
    reveal_strlit("i");
    reveal_strlit("warning");
    reveal_strlit("w");
    reveal_strlit("err");
    reveal_strlit("e");
    reveal_strlit("critical");
    reveal_strlit("f");
    reveal_strlit("c");
    assert("debug"@[0] == 'd');
    assert("trace"@[0] == 't');
    assert("t"@[0] == 't');
    assert("info"@[0] == 'i');
    assert("information"@[0] == 'i');
    assert("i"@[0] == 'i');
    assert("warn"@[0] == 'w');
    assert("warning"@[0] == 'w');
    assert("w"@[0] == 'w');
    assert("error"@[0] == 'e');
    assert("err"@[0] == 'e');
    assert("e"@[0] == 'e');
    assert("fatal"@[0] == 'f');
    assert("critical"@[0] == 'c');
    assert("f"@[0] == 'f');
    assert("c"@[0] == 'c');
    assert("err"@.len() == 3 && "error"@.len() == 5 && "warn"@.len() == 4 && "warning"@.len() == 7);
    assert("fatal"@[1] == 'a' && "f"@.len() == 1 && "info"@.len() == 4 && "information"@.len() == 11);
    match s {
        Severity::Debug => {
            assert(text::ascii_lower("DEBUG"@) =~= "debug"@);
            assert(severity_name(s) == "DEBUG"@);
            assert(severity_of_lower("debug"@) == Some(Severity::Debug));
        },
        Severity::Info => {
            assert(text::ascii_lower("INFO"@) =~= "info"@);
            assert(severity_name(s) == "INFO"@);
            assert(severity_of_lower("info"@) == Some(Severity::Info));
        },
        Severity::Warn => {
            assert(text::ascii_lower("WARN"@) =~= "warn"@);
            assert(severity_name(s) == "WARN"@);
            assert(severity_of_lower("warn"@) == Some(Severity::Warn));
        },
        Severity::Error => {
            assert(text::ascii_lower("ERROR"@) =~= "error"@);
            assert(severity_name(s) == "ERROR"@);
            assert(severity_of_lower("error"@) == Some(Severity::Error));
        },
        Severity::Fatal => {
            assert(text::ascii_lower("FATAL"@) =~= "fatal"@);
            assert(severity_name(s) == "FATAL"@);
            assert(severity_of_lower("fatal"@) == Some(Severity::Fatal));
        },
    }
}

// ---------------------------------------------------------------------------
// Parsed entries
// ---------------------------------------------------------------------------

/// A parsed log entry.
#[derive(Debug, Clone)]
pub struct LogEntry {
    pub line_number: u64,
    pub timestamp: Option<String>,
    pub severity: Severity,
    pub source: Option<String>,
    pub message: String,
    pub is_exception: bool,
    pub exception_type: Option<String>,
    pub is_crash_marker: bool,
    pub categories: Vec<String>,
}

/// Mathematical model of a [`LogEntry`]: its strings as character sequences.
pub struct LogEntryView {
    pub line_number: u64,
    pub timestamp: Option<Seq<char>>,
    pub severity: Severity,
    pub source: Option<Seq<char>>,
    pub message: Seq<char>,
    pub is_exception: bool,
    pub exception_type: Option<Seq<char>>,
    pub is_crash_marker: bool,
    pub categories: Seq<Seq<char>>,
}

impl View for LogEntry {
    type V = LogEntryView;

    open spec fn view(&self) -> LogEntryView {
        LogEntryView {
            line_number: self.line_number,
            timestamp: self.timestamp.deep_view(),
            severity: self.severity,
            source: self.source.deep_view(),
            message: self.message@,
            is_exception: self.is_exception,
            exception_type: self.exception_type.deep_view(),
            is_crash_marker: self.is_crash_marker,
            categories: self.categories.deep_view(),
        }
    }
}

// ---------------------------------------------------------------------------
// Categories
// ---------------------------------------------------------------------------

#[verifier::opaque]
pub open spec fn has(l: Seq<char>, n: &str) -> bool {
    text::contains(l, n@)
}

#[verifier::opaque]
pub open spec fn cat_if(b: bool, name: &str) -> Seq<Seq<char>> {
    if b {
        seq![name@]
    } else {
        Seq::empty()
    }
}

/// Network and class-loading categories of an already-lowercased message.
pub open spec fn network_categories(l: Seq<char>) -> Seq<Seq<char>> {
    Seq::empty()
        + cat_if(has(l, "ssl") || has(l, "handshake") || has(l, "tls"), "network/ssl")
        + cat_if(has(l, "timeout") || has(l, "timed out") || has(l, "连接超时"), "network/timeout")
        + cat_if(
        has(l, "packet") || has(l, "decode") || has(l, "netty") || has(l, "网络包"),
        "network/packet",
    )
        + cat_if(
        has(l, "classnotfound") || has(l, "noclassdeffound") || has(l, "找不到类"),
        "mod/class-missing",
    )
}

/// Mod, resource, performance and environment categories of an already-lowercased message.
pub open spec fn runtime_env_categories(l: Seq<char>) -> Seq<Seq<char>> {
    Seq::empty()
        + cat_if(has(l, "mixin"), "mod/mixin")
        + cat_if(
        has(l, "model") || has(l, "blockstate") || has(l, "资源包") || has(l, "pack_format"),
        "resource/model",
    )
        + cat_if(has(l, "outofmemory") || has(l, "heap") || has(l, "内存"), "performance/memory")
        + cat_if(has(l, "stackoverflowerror"), "performance/stack-overflow")
        + cat_if(
        has(l, "java version") || has(l, "jni") || has(l, "unsafe") || has(l, "java 版本"),
        "environment/java-version",
    )
        + cat_if(
        has(l, "lwjgl") || has(l, "opengl") || has(l, "graphics") || has(l, "显卡"),
        "environment/graphics",
    )
}

/// Crash and data categories of an already-lowercased message.
pub open spec fn data_categories(l: Seq<char>) -> Seq<Seq<char>> {
    Seq::empty()
        + cat_if(has(l, "crash") || has(l, "崩溃"), "crash")
        + cat_if(has(l, "json") || has(l, "parse") || has(l, "解析"), "data/json-parse")
        + cat_if(has(l, "filenotfound") || has(l, "文件不存在") || has(l, "missing"), "data/file-missing")
        + cat_if(has(l, "nullpointer") || has(l, "空指针"), "runtime/null-pointer")
        + cat_if(has(l, "argumentexception") || has(l, "illegalargument"), "runtime/illegal-argument")
}

/// The categories after the network ones, of an already-lowercased message.
pub open spec fn other_categories(l: Seq<char>) -> Seq<Seq<char>> {
    runtime_env_categories(l) + data_categories(l)
}

/// Categories whose keywords occur in an already-lowercased message.
pub open spec fn raw_categories(l: Seq<char>) -> Seq<Seq<char>> {
    network_categories(l) + other_categories(l)
}

/// Categories of an already-lowercased message (`other` when none applies).
pub open spec fn categories_of(l: Seq<char>) -> Seq<Seq<char>> {
    if raw_categories(l).len() == 0 {
        seq!["other"@]
    } else {
        raw_categories(l)
    }
}

proof fn lemma_categories_include(l: Seq<char>)
    ensures
        raw_categories(l).len() > 0 ==> categories_of(l) == raw_categories(l),
        forall|c: Seq<char>| network_categories(l).contains(c) ==> categories_of(l).contains(c),
        forall|c: Seq<char>| runtime_env_categories(l).contains(c) ==> categories_of(l).contains(c),
        forall|c: Seq<char>| data_categories(l).contains(c) ==> categories_of(l).contains(c),
{
    broadcast use vstd::seq_lib::group_seq_properties;
    assert(raw_categories(l) == network_categories(l) + (runtime_env_categories(l) + data_categories(l)));
}

/// A lower-cased message gets each network category whose keywords it
/// contains.
pub proof fn law_network_categories(l: Seq<char>)
    ensures
        (text::contains(l, "ssl"@) || text::contains(l, "handshake"@) || text::contains(l, "tls"@)) ==> categories_of(l).contains("network/ssl"@),
        (text::contains(l, "timeout"@) || text::contains(l, "timed out"@) || text::contains(l, "连接超时"@)) ==> categories_of(l).contains("network/timeout"@),
        (text::contains(l, "packet"@) || text::contains(l, "decode"@) || text::contains(l, "netty"@) || text::contains(l, "网络包"@)) ==> categories_of(l).contains("network/packet"@),
        (text::contains(l, "classnotfound"@) || text::contains(l, "noclassdeffound"@) || text::contains(l, "找不到类"@)) ==> categories_of(l).contains("mod/class-missing"@),
{
    broadcast use vstd::seq_lib::group_seq_properties;
    reveal(has);
    reveal(cat_if);
    lemma_categories_include(l);
}

/// A lower-cased message gets each runtime category whose keywords it
/// contains.
pub proof fn law_runtime_categories(l: Seq<char>)
    ensures
        (text::contains(l, "mixin"@)) ==> categories_of(l).contains("mod/mixin"@),
        (text::contains(l, "model"@) || text::contains(l, "blockstate"@) || text::contains(l, "资源包"@) || text::contains(l, "pack_format"@)) ==> categories_of(l).contains("resource/model"@),
        (text::contains(l, "outofmemory"@) || text::contains(l, "heap"@) || text::contains(l, "内存"@)) ==> categories_of(l).contains("performance/memory"@),
        (text::contains(l, "stackoverflowerror"@)) ==> categories_of(l).contains("performance/stack-overflow"@),
        (text::contains(l, "java version"@) || text::contains(l, "jni"@) || text::contains(l, "unsafe"@) || text::contains(l, "java 版本"@)) ==> categories_of(l).contains("environment/java-version"@),
        (text::contains(l, "lwjgl"@) || text::contains(l, "opengl"@) || text::contains(l, "graphics"@) || text::contains(l, "显卡"@)) ==> categories_of(l).contains("environment/graphics"@),
{
    broadcast use vstd::seq_lib::group_seq_properties;
    reveal(has);
    reveal(cat_if);
    lemma_categories_include(l);
}

/// A lower-cased message gets each data category whose keywords it
/// contains.
pub proof fn law_data_categories(l: Seq<char>)
    ensures
        (text::contains(l, "crash"@) || text::contains(l, "崩溃"@)) ==> categories_of(l).contains("crash"@),
        (text::contains(l, "json"@) || text::contains(l, "parse"@) || text::contains(l, "解析"@)) ==> categories_of(l).contains("data/json-parse"@),
        (text::contains(l, "filenotfound"@) || text::contains(l, "文件不存在"@) || text::contains(l, "missing"@)) ==> categories_of(l).contains("data/file-missing"@),
        (text::contains(l, "nullpointer"@) || text::contains(l, "空指针"@)) ==> categories_of(l).contains("runtime/null-pointer"@),
        (text::contains(l, "argumentexception"@) || text::contains(l, "illegalargument"@)) ==> categories_of(l).contains("runtime/illegal-argument"@),
{
    broadcast use vstd::seq_lib::group_seq_properties;
    reveal(has);
    reveal(cat_if);
    lemma_categories_include(l);
}

/// A lower-cased message with none of the category keywords gets the one
/// category `other`.
pub proof fn law_uncategorized_is_other(l: Seq<char>)
    requires
        !text::contains(l, "ssl"@) && !text::contains(l, "handshake"@) && !text::contains(l, "tls"@) && !text::contains(l, "timeout"@) && !text::contains(l, "timed out"@) && !text::contains(l, "连接超时"@) && !text::contains(l, "packet"@) && !text::contains(l, "decode"@) && !text::contains(l, "netty"@) && !text::contains(l, "网络包"@) && !text::contains(l, "classnotfound"@) && !text::contains(l, "noclassdeffound"@) && !text::contains(l, "找不到类"@) && !text::contains(l, "mixin"@) && !text::contains(l, "model"@) && !text::contains(l, "blockstate"@) && !text::contains(l, "资源包"@) && !text::contains(l, "pack_format"@) && !text::contains(l, "outofmemory"@) && !text::contains(l, "heap"@) && !text::contains(l, "内存"@) && !text::contains(l, "stackoverflowerror"@) && !text::contains(l, "java version"@) && !text::contains(l, "jni"@) && !text::contains(l, "unsafe"@) && !text::contains(l, "java 版本"@) && !text::contains(l, "lwjgl"@) && !text::contains(l, "opengl"@) && !text::contains(l, "graphics"@) && !text::contains(l, "显卡"@) && !text::contains(l, "crash"@) && !text::contains(l, "崩溃"@) && !text::contains(l, "json"@) && !text::contains(l, "parse"@) && !text::contains(l, "解析"@) && !text::contains(l, "filenotfound"@) && !text::contains(l, "文件不存在"@) && !text::contains(l, "missing"@) && !text::contains(l, "nullpointer"@) && !text::contains(l, "空指针"@) && !text::contains(l, "argumentexception"@) && !text::contains(l, "illegalargument"@),
    ensures
        categories_of(l) == seq!["other"@],
{
    reveal(has);
    reveal(cat_if);
}


fn has_exec(l: &[char], n: &str) -> (r: bool)
    ensures
        r == has(l@, n),
{
    let nv = text::chars_of(n);
    proof { reveal(has); }
    text::contains_seq(l, nv.as_slice())
}

fn push_if(v: &mut Vec<String>, b: bool, name: &str)
    ensures
        final(v).deep_view() == old(v).deep_view() + cat_if(b, name),
{
    let ghost before = v.deep_view();
    proof { reveal(cat_if); }
    if b {
        v.push(name.to_owned());
        assert(v.deep_view() =~= before + seq![name@]);
    } else {
        assert(v.deep_view() =~= before + Seq::<Seq<char>>::empty());
    }
}

#[verifier::spinoff_prover]
fn push_network_categories(v: &mut Vec<String>, l: &[char])
    ensures
        final(v).deep_view() == old(v).deep_view() + network_categories(l@),
{
    let ghost before = v.deep_view();
    push_if(v, has_exec(l, "ssl") || has_exec(l, "handshake") || has_exec(l, "tls"), "network/ssl");
    push_if(
        v,
        has_exec(l, "timeout") || has_exec(l, "timed out") || has_exec(l, "连接超时"),
        "network/timeout",
    );
    push_if(
        v,
        has_exec(l, "packet") || has_exec(l, "decode") || has_exec(l, "netty") || has_exec(l, "网络包"),
        "network/packet",
    );
    push_if(
        v,
        has_exec(l, "classnotfound") || has_exec(l, "noclassdeffound") || has_exec(l, "找不到类"),
        "mod/class-missing",
    );
    assert(v.deep_view() =~= before + network_categories(l@));
}

#[verifier::rlimit(80)]
#[verifier::spinoff_prover]
fn push_runtime_env_categories(v: &mut Vec<String>, l: &[char])
    ensures
        final(v).deep_view() == old(v).deep_view() + runtime_env_categories(l@),
{
    let ghost before = v.deep_view();
    push_if(v, has_exec(l, "mixin"), "mod/mixin");
    push_if(
        v,
        has_exec(l, "model") || has_exec(l, "blockstate") || has_exec(l, "资源包") || has_exec(l, "pack_format"),
        "resource/model",
    );
    push_if(
        v,
        has_exec(l, "outofmemory") || has_exec(l, "heap") || has_exec(l, "内存"),
        "performance/memory",
    );
    push_if(v, has_exec(l, "stackoverflowerror"), "performance/stack-overflow");
    push_if(
        v,
        has_exec(l, "java version") || has_exec(l, "jni") || has_exec(l, "unsafe") || has_exec(l, "java 版本"),
        "environment/java-version",
    );
    push_if(
        v,
        has_exec(l, "lwjgl") || has_exec(l, "opengl") || has_exec(l, "graphics") || has_exec(l, "显卡"),
        "environment/graphics",
    );
    assert(v.deep_view() =~= before + runtime_env_categories(l@));
}

#[verifier::spinoff_prover]
fn push_data_categories(v: &mut Vec<String>, l: &[char])
    ensures
        final(v).deep_view() == old(v).deep_view() + data_categories(l@),
{
    let ghost before = v.deep_view();
    push_if(v, has_exec(l, "crash") || has_exec(l, "崩溃"), "crash");
    push_if(v, has_exec(l, "json") || has_exec(l, "parse") || has_exec(l, "解析"), "data/json-parse");
    push_if(
        v,
        has_exec(l, "filenotfound") || has_exec(l, "文件不存在") || has_exec(l, "missing"),
        "data/file-missing",
    );
    push_if(v, has_exec(l, "nullpointer") || has_exec(l, "空指针"), "runtime/null-pointer");
    push_if(
        v,
        has_exec(l, "argumentexception") || has_exec(l, "illegalargument"),
        "runtime/illegal-argument",
    );
    assert(v.deep_view() =~= before + data_categories(l@));
}

fn push_other_categories(v: &mut Vec<String>, l: &[char])
    ensures
        final(v).deep_view() == old(v).deep_view() + other_categories(l@),
{
    let ghost before = v.deep_view();
    push_runtime_env_categories(v, l);
    push_data_categories(v, l);
    assert(v.deep_view() =~= before + other_categories(l@));
}

/// Error categories of an already-lowercased message.
pub fn categorize_lower(lower: &str) -> (r: Vec<String>)
    ensures
        r.deep_view() == categories_of(lower@),
{
    let l = text::chars_of(lower);
    let l = l.as_slice();
    let mut v: Vec<String> = Vec::new();
    assert(v.deep_view() =~= Seq::<Seq<char>>::empty());
    push_network_categories(&mut v, l);
    push_other_categories(&mut v, l);
    assert(v.deep_view() =~= raw_categories(lower@));
    if v.len() == 0 {
        v.push("other".to_owned());
        assert(v.deep_view() =~= seq!["other"@]);
    }
    v
}

/// Error categories of a message, matched on its Unicode lowercase form.
pub fn categorize(message: &str) -> (r: Vec<String>)
    ensures
        r.deep_view() == categories_of(text::spec_to_lowercase(message@)),
{
    let lower = text::to_lowercase(message);
    categorize_lower(lower.as_str())
}


// ---------------------------------------------------------------------------
// Single-line parsing
// ---------------------------------------------------------------------------

pub open spec fn exc_caps(m: Seq<char>) -> Option<Seq<Option<Seq<char>>>> {
    spec_regex_captures(EXCEPTION_TYPE@, m)
}

pub open spec fn caused_caps(m: Seq<char>) -> Option<Seq<Option<Seq<char>>>> {
    spec_regex_captures(CAUSED_BY@, m)
}

pub open spec fn first_group(c: Option<Seq<Option<Seq<char>>>>) -> Option<Seq<char>> {
    match c {
        Some(g) => group(g, 1),
        None => None,
    }
}

/// Whether a message is an exception line or a `Caused by:` line.
pub open spec fn message_is_exception(m: Seq<char>) -> bool {
    exc_caps(m) is Some || caused_caps(m) is Some
}

/// The exception class a message names, from the exception pattern first.
pub open spec fn message_exception_type(m: Seq<char>) -> Option<Seq<char>> {
    match first_group(exc_caps(m)) {
        Some(t) => Some(t),
        None => first_group(caused_caps(m)),
    }
}

pub open spec fn is_crash_marker_line(line: Seq<char>) -> bool {
    spec_regex_captures(CRASH_MARKER@, line) is Some
}

/// Severity letter of a PCL2 line.
pub open spec fn pcl2_severity(c: Seq<char>) -> Severity {
    if c == "T"@ || c == "D"@ {
        Severity::Debug
    } else if c == "I"@ {
        Severity::Info
    } else if c == "W"@ {
        Severity::Warn
    } else if c == "E"@ {
        Severity::Error
    } else if c == "F"@ {
        Severity::Fatal
    } else {
        Severity::Info
    }
}

pub open spec fn or_empty(o: Option<Seq<char>>) -> Seq<char> {
    match o {
        Some(t) => t,
        None => Seq::empty(),
    }
}

pub open spec fn message_categories(m: Seq<char>) -> Seq<Seq<char>> {
    categories_of(text::spec_to_lowercase(m))
}

/// Entry of a line in PCL2 format with capture groups `g`.
pub open spec fn pcl2_entry(g: Seq<Option<Seq<char>>>, line: Seq<char>, n: u64) -> LogEntryView {
    let message = or_empty(group(g, 4));
    let sev = match group(g, 2) {
        Some(c) => c,
        None => "I"@,
    };
    LogEntryView {
        line_number: n,
        timestamp: group(g, 1),
        severity: pcl2_severity(sev),
        source: group(g, 3),
        message,
        is_exception: message_is_exception(message),
        exception_type: message_exception_type(message),
        is_crash_marker: is_crash_marker_line(line),
        categories: message_categories(message),
    }
}

/// Entry of a line in Minecraft format with capture groups `g`.
pub open spec fn mc_entry(g: Seq<Option<Seq<char>>>, line: Seq<char>, n: u64) -> LogEntryView {
    let message = or_empty(group(g, 5));
    let level = match group(g, 3) {
        Some(c) => c,
        None => "INFO"@,
    };
    LogEntryView {
        line_number: n,
        timestamp: group(g, 1),
        severity: match severity_of_lower(text::spec_to_lowercase(level)) {
            Some(s) => s,
            None => Severity::Info,
        },
        source: group(g, 4),
        message,
        is_exception: message_is_exception(message),
        exception_type: message_exception_type(message),
        is_crash_marker: is_crash_marker_line(line),
        categories: message_categories(message),
    }
}

/// A stack-frame line: `at ...` after leading whitespace, mentioning a Java
/// source position or a parenthesis.
pub open spec fn is_stack_frame_line(line: Seq<char>) -> bool {
    text::starts_with(text::trim_start(line), "at "@) && (text::contains(line, ".java:"@)
        || text::contains(line, "("@))
}

pub open spec fn simple_entry(
    n: u64,
    severity: Severity,
    message: Seq<char>,
    is_exception: bool,
    exception_type: Option<Seq<char>>,
    is_crash_marker: bool,
    categories: Seq<Seq<char>>,
) -> LogEntryView {
    LogEntryView {
        line_number: n,
        timestamp: None,
        severity,
        source: None,
        message,
        is_exception,
        exception_type,
        is_crash_marker,
        categories,
    }
}

/// Entry of a line that matches neither timestamped format.
pub open spec fn plain_entry(line: Seq<char>, n: u64) -> LogEntryView {
    let t = text::trim(line);
    if is_stack_frame_line(line) {
        simple_entry(n, Severity::Error, t, true, None, false, seq!["stack-trace"@])
    } else if caused_caps(t) is Some {
        simple_entry(n, Severity::Error, t, true, first_group(caused_caps(t)), false, message_categories(t))
    } else if exc_caps(t) is Some {
        simple_entry(n, Severity::Error, t, true, first_group(exc_caps(t)), false, message_categories(t))
    } else if is_crash_marker_line(line) {
        simple_entry(n, Severity::Fatal, t, false, None, true, seq!["crash"@])
    } else if t.len() == 0 {
        simple_entry(n, Severity::Info, t, false, None, false, seq!["empty"@])
    } else {
        simple_entry(n, Severity::Info, t, false, None, false, message_categories(t))
    }
}

/// What [`parse_line`] returns: PCL2 format first, then Minecraft format,
/// then the plain-line rules.
pub open spec fn spec_parse_line(line: Seq<char>, n: u64) -> LogEntryView {
    match spec_regex_captures(PCL2_LINE@, line) {
        Some(g) => pcl2_entry(g, line, n),
        None => match spec_regex_captures(MC_LINE@, line) {
            Some(g) => mc_entry(g, line, n),
            None => plain_entry(line, n),
        },
    }
}

/// Every parsed line keeps its line number, has at least one category,
/// and is an exception entry whenever it names an exception class; a crash
/// marker read by the plain-line rules is fatal.
pub proof fn law_parsed_entry_invariants(line: Seq<char>, n: u64)
    ensures
        spec_parse_line(line, n).line_number == n,
        spec_parse_line(line, n).categories.len() > 0,
        spec_parse_line(line, n).exception_type is Some ==> spec_parse_line(line, n).is_exception,
        spec_regex_captures(PCL2_LINE@, line) is None && spec_regex_captures(MC_LINE@, line) is None
            && spec_parse_line(line, n).is_crash_marker ==> spec_parse_line(line, n).severity == Severity::Fatal,
{
    reveal_strlit("other");
    reveal_strlit("stack-trace");
    reveal_strlit("crash");
    reveal_strlit("empty");
}

fn opt_or_empty(o: Option<String>) -> (r: String)
    ensures
        r@ == or_empty(o.deep_view()),
{
    match o {
        Some(t) => t,
        None => String::new(),
    }
}

/// Exception facts of a message: whether it is an exception line and the
/// exception class it names.
pub fn exception_info(message: &str) -> (r: (bool, Option<String>))
    ensures
        r.0 == message_is_exception(message@),
        r.1.deep_view() == message_exception_type(message@),
{
    let e = regex_captures(EXCEPTION_TYPE, message);
    let c = regex_captures(CAUSED_BY, message);
    let is_exc = e.is_some() || c.is_some();
    let from_e = match &e {
        Some(g) => get_group(g, 1),
        None => None,
    };
    let ty = match from_e {
        Some(t) => Some(t),
        None => match &c {
            Some(g) => get_group(g, 1),
            None => None,
        },
    };
    (is_exc, ty)
}

/// Whether a line carries a crash-report marker.
pub fn line_is_crash_marker(line: &str) -> (r: bool)
    ensures
        r == is_crash_marker_line(line@),
{
    regex_captures(CRASH_MARKER, line).is_some()
}

/// Builds the entry of a PCL2-format line from its capture groups.
pub fn entry_from_pcl2(caps: &Vec<Option<String>>, line: &str, line_number: u64) -> (e: LogEntry)
    ensures
        e@ == pcl2_entry(groups_view(caps@), line@, line_number),
{
    let timestamp = get_group(caps, 1);
    let sev = match get_group(caps, 2) {
        Some(c) => c,
        None => "I".to_owned(),
    };
    let source = get_group(caps, 3);
    let message = opt_or_empty(get_group(caps, 4));
    let sv = sev.as_str();
    let severity = if text::str_eq(sv, "T") || text::str_eq(sv, "D") {
        Severity::Debug
    } else if text::str_eq(sv, "I") {
        Severity::Info
    } else if text::str_eq(sv, "W") {
        Severity::Warn
    } else if text::str_eq(sv, "E") {
        Severity::Error
    } else if text::str_eq(sv, "F") {
        Severity::Fatal
    } else {
        Severity::Info
    };
    let (is_exception, exception_type) = exception_info(message.as_str());
    let is_crash_marker = line_is_crash_marker(line);
    let categories = categorize(message.as_str());
    LogEntry {
        line_number,
        timestamp,
        severity,
        source,
        message,
        is_exception,
        exception_type,
        is_crash_marker,
        categories,
    }
}

/// Builds the entry of a Minecraft-format line from its capture groups.
pub fn entry_from_mc(caps: &Vec<Option<String>>, line: &str, line_number: u64) -> (e: LogEntry)
    ensures
        e@ == mc_entry(groups_view(caps@), line@, line_number),
{
    let timestamp = get_group(caps, 1);
    let level = match get_group(caps, 3) {
        Some(c) => c,
        None => "INFO".to_owned(),
    };
    let source = get_group(caps, 4);
    let message = opt_or_empty(get_group(caps, 5));
    let severity = match Severity::from_str(level.as_str()) {
        Some(s) => s,
        None => Severity::Info,
    };
    let (is_exception, exception_type) = exception_info(message.as_str());
    let is_crash_marker = line_is_crash_marker(line);
    let categories = categorize(message.as_str());
    LogEntry {
        line_number,
        timestamp,
        severity,
        source,
        message,
        is_exception,
        exception_type,
        is_crash_marker,
        categories,
    }
}

fn one_string(s: &str) -> (r: Vec<String>)
    ensures
        r.deep_view() == seq![s@],
{
    let mut v: Vec<String> = Vec::new();
    v.push(s.to_owned());
    assert(v.deep_view() =~= seq![s@]);
    v
}

/// Builds the entry of a line in neither timestamped format.
pub fn entry_from_plain(line: &str, line_number: u64) -> (e: LogEntry)
    ensures
        e@ == plain_entry(line@, line_number),
{
    let chars = text::chars_of(line);
    let ts = text::trim_start_seq(chars.as_slice());
    let at = text::chars_of("at ");
    let java = text::chars_of(".java:");
    let paren = text::chars_of("(");
    let t = text::trim_str(line);
    if text::starts_with_seq(ts.as_slice(), at.as_slice()) && (text::contains_seq(
        chars.as_slice(),
        java.as_slice(),
    ) || text::contains_seq(chars.as_slice(), paren.as_slice())) {
        return LogEntry {
            line_number,
            timestamp: None,
            severity: Severity::Error,
            source: None,
            message: t,
            is_exception: true,
            exception_type: None,
            is_crash_marker: false,
            categories: one_string("stack-trace"),
        };
    }
    match regex_captures(CAUSED_BY, t.as_str()) {
        Some(g) => {
            let exception_type = get_group(&g, 1);
            let categories = categorize(t.as_str());
            return LogEntry {
                line_number,
                timestamp: None,
                severity: Severity::Error,
                source: None,
                message: t,
                is_exception: true,
                exception_type,
                is_crash_marker: false,
                categories,
            };
        },
        None => {},
    }
    match regex_captures(EXCEPTION_TYPE, t.as_str()) {
        Some(g) => {
            let exception_type = get_group(&g, 1);
            let categories = categorize(t.as_str());
            return LogEntry {
                line_number,
                timestamp: None,
                severity: Severity::Error,
                source: None,
                message: t,
                is_exception: true,
                exception_type,
                is_crash_marker: false,
                categories,
            };
        },
        None => {},
    }
    if line_is_crash_marker(line) {
        return LogEntry {
            line_number,
            timestamp: None,
            severity: Severity::Fatal,
            source: None,
            message: t,
            is_exception: false,
            exception_type: None,
            is_crash_marker: true,
            categories: one_string("crash"),
        };
    }
    let categories = if t.as_str().is_empty() {
        one_string("empty")
    } else {
        categorize(t.as_str())
    };
    LogEntry {
        line_number,
        timestamp: None,
        severity: Severity::Info,
        source: None,
        message: t,
        is_exception: false,
        exception_type: None,
        is_crash_marker: false,
        categories,
    }
}

/// Parses a single log line.
pub fn parse_line(line: &str, line_number: u64) -> (e: LogEntry)
    ensures
        e@ == spec_parse_line(line@, line_number),
{
    match regex_captures(PCL2_LINE, line) {
        Some(g) => {
            return entry_from_pcl2(&g, line, line_number);
        },
        None => {},
    }
    match regex_captures(MC_LINE, line) {
        Some(g) => {
            return entry_from_mc(&g, line, line_number);
        },
        None => {},
    }
    entry_from_plain(line, line_number)
}

/// Whether a line continues the previous entry (stack frames, `Caused by:`,
/// `...` elisions and indented text).
pub open spec fn spec_is_continuation(line: Seq<char>) -> bool {
    let t = text::trim_start(line);
    ||| text::starts_with(t, "at "@)
    ||| text::starts_with(t, "Caused by:"@)
    ||| text::starts_with(t, "..."@)
    ||| text::starts_with(t, seq!['\t'])
    ||| (text::starts_with(t, seq![' ']) && t.len() != 0 && !t.contains('[') && !t.contains(':'))
}

/// Whether a line is a continuation of a previous log entry.
pub fn is_continuation(line: &str) -> (r: bool)
    ensures
        r == spec_is_continuation(line@),
{
    let chars = text::chars_of(line);
    let t = text::trim_start_seq(chars.as_slice());
    let t = t.as_slice();
    let at = text::chars_of("at ");
    let caused = text::chars_of("Caused by:");
    let dots = text::chars_of("...");
    let tab: Vec<char> = vec!['\t'];
    let space: Vec<char> = vec![' '];
    assert(tab@ =~= seq!['\t']);
    assert(space@ =~= seq![' ']);
    text::starts_with_seq(t, at.as_slice()) || text::starts_with_seq(t, caused.as_slice())
        || text::starts_with_seq(t, dots.as_slice()) || text::starts_with_seq(t, tab.as_slice()) || (
    text::starts_with_seq(t, space.as_slice()) && t.len() != 0 && !text::contains_char(t, '[')
        && !text::contains_char(t, ':'))
}


// ---------------------------------------------------------------------------
// Stack traces
// ---------------------------------------------------------------------------

/// A trimmed line that counts as a frame when extracting stack traces.
pub open spec fn is_trace_frame(t: Seq<char>) -> bool {
    (text::starts_with(t, "at "@) || text::starts_with(t, "Caused by:"@)) && (text::contains(
        t,
        ".java:"@,
    ) || text::contains(t, "("@))
}

/// A trimmed line that ends a stack trace once one has started.
pub open spec fn ends_trace(t: Seq<char>) -> bool {
    t.len() != 0 && !text::starts_with(t, seq!['\t']) && !text::starts_with(t, "at "@)
}

/// Frames collected from `ls`: each frame line (trimmed) is kept; a
/// non-frame, non-blank line after the first frame ends the trace; at most
/// `room` frames are kept.
pub open spec fn trace_from(ls: Seq<Seq<char>>, in_stack: bool, room: nat) -> Seq<Seq<char>>
    decreases ls.len(),
{
    if ls.len() == 0 || room == 0 {
        Seq::empty()
    } else {
        let t = text::trim(ls[0]);
        if is_trace_frame(t) {
            if room == 1 {
                seq![t]
            } else {
                seq![t] + trace_from(ls.drop_first(), true, (room - 1) as nat)
            }
        } else if in_stack && ends_trace(t) {
            Seq::empty()
        } else {
            trace_from(ls.drop_first(), in_stack, room)
        }
    }
}

proof fn lemma_trace_from_len(ls: Seq<Seq<char>>, in_stack: bool, room: nat)
    ensures
        trace_from(ls, in_stack, room).len() <= room,
    decreases ls.len(),
{
    if ls.len() > 0 && room > 0 {
        let t = text::trim(ls[0]);
        if is_trace_frame(t) {
            if room > 1 {
                lemma_trace_from_len(ls.drop_first(), true, (room - 1) as nat);
            }
        } else if !(in_stack && ends_trace(t)) {
            lemma_trace_from_len(ls.drop_first(), in_stack, room);
        }
    }
}

/// The top `max_frames` frames of the stack trace in `s`.
pub open spec fn spec_extract_stack_trace(s: Seq<char>, max_frames: nat) -> Seq<Seq<char>> {
    trace_from(text::lines(s), false, max_frames)
}

/// Extracts a stack trace from a block of text; returns the top frames in
/// order.
pub fn extract_stack_trace(s: &str, max_frames: usize) -> (r: Vec<String>)
    ensures
        r.deep_view() == spec_extract_stack_trace(s@, max_frames as nat),
        r@.len() <= max_frames,
{
    proof {
        lemma_trace_from_len(text::lines(s@), false, max_frames as nat);
    }
    if max_frames == 0 {
        return Vec::new();
    }
    let chars = text::chars_of(s);
    let ls = text::lines_seq(chars.as_slice());
    let ghost lsv: Seq<Seq<char>> = text::lines(s@);
    let ghost ls_view = ls@.map_values(|l: Vec<char>| l@);
    assert(ls_view =~= lsv);
    let at = text::chars_of("at ");
    let caused = text::chars_of("Caused by:");
    let java = text::chars_of(".java:");
    let paren = text::chars_of("(");
    let tab: Vec<char> = vec!['\t'];
    assert(tab@ =~= seq!['\t']);
    let mut out: Vec<String> = Vec::new();
    let mut in_stack = false;
    let mut i: usize = 0;
    assert(lsv.skip(0) =~= lsv);
    assert(out.deep_view() + trace_from(lsv.skip(0), false, max_frames as nat) =~= trace_from(lsv, false, max_frames as nat));
    while i < ls.len()
        invariant
            i <= ls@.len(),
            ls@.len() == lsv.len(),
            forall|k: int| 0 <= k < ls@.len() ==> #[trigger] ls@[k]@ == lsv[k],
            lsv == text::lines(s@),
            at@ == "at "@,
            caused@ == "Caused by:"@,
            java@ == ".java:"@,
            paren@ == "("@,
            tab@ == seq!['\t'],
            out@.len() < max_frames,
            out.deep_view() + trace_from(lsv.skip(i as int), in_stack, (max_frames - out@.len()) as nat)
                == trace_from(lsv, false, max_frames as nat),
        decreases ls@.len() - i,
    {
        let t = text::trim_seq(ls[i].as_slice());
        let ghost rest = lsv.skip(i as int);
        assert(rest[0] == lsv[i as int]);
        assert(rest.drop_first() =~= lsv.skip(i + 1));
        let frame = (text::starts_with_seq(t.as_slice(), at.as_slice()) || text::starts_with_seq(
            t.as_slice(),
            caused.as_slice(),
        )) && (text::contains_seq(t.as_slice(), java.as_slice()) || text::contains_seq(
            t.as_slice(),
            paren.as_slice(),
        ));
        if frame {
            in_stack = true;
            let ghost before = out.deep_view();
            out.push(text::string_of(t.as_slice()));
            assert(out.deep_view() =~= before.push(t@));
            if out.len() >= max_frames {
                assert(out.deep_view() =~= trace_from(lsv, false, max_frames as nat));
                return out;
            }
            assert(before.push(t@) + trace_from(lsv.skip(i + 1), true, (max_frames - out@.len()) as nat)
                =~= before + (seq![t@] + trace_from(rest.drop_first(), true, (max_frames - before.len() - 1) as nat)));
        } else if in_stack && t.len() != 0 && !text::starts_with_seq(t.as_slice(), tab.as_slice())
            && !text::starts_with_seq(t.as_slice(), at.as_slice()) {
            assert(out.deep_view() + Seq::<Seq<char>>::empty() =~= out.deep_view());
            return out;
        }
        i += 1;
    }
    assert(lsv.skip(i as int) =~= Seq::<Seq<char>>::empty());
    assert(out.deep_view() + Seq::<Seq<char>>::empty() =~= out.deep_view());
    out
}


// ---------------------------------------------------------------------------
// Crash classification and mods
// ---------------------------------------------------------------------------

/// Crash classes recognised in crash text.
#[derive(Clone, Copy, Debug, PartialEq, Eq, Structural)]
pub enum CrashType {
    OutOfMemory,
    ModConflict,
    MissingDependency,
    GraphicsDriver,
    JavaVersion,
    CorruptedFile,
    NetworkIssue,
    Unknown,
}

pub open spec fn crash_type_name(c: CrashType) -> Seq<char> {
    match c {
        CrashType::OutOfMemory => "OutOfMemory"@,
        CrashType::ModConflict => "ModConflict"@,
        CrashType::MissingDependency => "MissingDependency"@,
        CrashType::GraphicsDriver => "GraphicsDriver"@,
        CrashType::JavaVersion => "JavaVersion"@,
        CrashType::CorruptedFile => "CorruptedFile"@,
        CrashType::NetworkIssue => "NetworkIssue"@,
        CrashType::Unknown => "Unknown"@,
    }
}

impl CrashType {
    pub fn as_str(&self) -> (r: &'static str)
        ensures
            r@ == crash_type_name(*self),
    {
        match self {
            CrashType::OutOfMemory => "OutOfMemory",
            CrashType::ModConflict => "ModConflict",
            CrashType::MissingDependency => "MissingDependency",
            CrashType::GraphicsDriver => "GraphicsDriver",
            CrashType::JavaVersion => "JavaVersion",
            CrashType::CorruptedFile => "CorruptedFile",
            CrashType::NetworkIssue => "NetworkIssue",
            CrashType::Unknown => "Unknown",
        }
    }
}

/// A line naming a mod jar or a mod id.
pub open spec fn is_mod_line(l: Seq<char>) -> bool {
    text::contains(l, ".jar"@) || text::contains(l, "mod_id"@)
}

/// Number of lines that name a mod jar or a mod id.
pub open spec fn mod_line_count(ls: Seq<Seq<char>>) -> nat
    decreases ls.len(),
{
    if ls.len() == 0 {
        0
    } else {
        mod_line_count(ls.drop_last()) + if is_mod_line(ls.last()) {
            1nat
        } else {
            0nat
        }
    }
}

/// The mod lines of a crash text are the lines mentioning `.jar` or
/// `mod_id`: their count is the length of that filter.
pub proof fn law_mod_line_count(ls: Seq<Seq<char>>)
    ensures
        mod_line_count(ls) == ls.filter(|x: Seq<char>| text::contains(x, ".jar"@) || text::contains(x, "mod_id"@)).len(),
    decreases ls.len(),
{
    reveal(Seq::filter);
    if ls.len() > 0 {
        law_mod_line_count(ls.drop_last());
    }
}

/// Crash class of a crash text, by the first matching rule.
pub open spec fn spec_detect_crash_type(r: Seq<char>) -> CrashType {
    if has(r, "OutOfMemoryError") || has(r, "Java heap space") {
        CrashType::OutOfMemory
    } else if has(r, "ClassNotFoundException") || has(r, "NoClassDefFoundError") || has(
        r,
        "NoSuchMethodError",
    ) {
        CrashType::MissingDependency
    } else if has(r, "OpenGL") || has(r, "GLFW") || has(r, "graphics driver") || has(r, "GLException") {
        CrashType::GraphicsDriver
    } else if has(r, "UnsupportedClassVersionError") || has(r, "java.lang.VerifyError") {
        CrashType::JavaVersion
    } else if has(r, "ZipException") || has(r, "corrupt") || has(r, "invalid") {
        CrashType::CorruptedFile
    } else if has(r, "IOException") || has(r, "Connection") || has(r, "SocketException") {
        CrashType::NetworkIssue
    } else if has(r, "conflict") || has(r, "incompatible") || mod_line_count(text::lines(r)) > 3 {
        CrashType::ModConflict
    } else {
        CrashType::Unknown
    }
}

/// How a crash report is classified, by the first group of keywords it
/// contains, groups taken in this order: out of memory (`OutOfMemoryError`,
/// `Java heap space`); a missing dependency (`ClassNotFoundException`,
/// `NoClassDefFoundError`, `NoSuchMethodError`); the graphics driver
/// (`OpenGL`, `GLFW`, `graphics driver`, `GLException`); the Java version
/// (`UnsupportedClassVersionError`, `java.lang.VerifyError`); a corrupted
/// file (`ZipException`, `corrupt`, `invalid`); the network (`IOException`,
/// `Connection`, `SocketException`); a mod conflict (`conflict`,
/// `incompatible`, or more than three lines naming a mod); else unknown.
pub proof fn law_crash_classes(r: Seq<char>)
    ensures
        (text::contains(r, "OutOfMemoryError"@) || text::contains(r, "Java heap space"@)) ==> spec_detect_crash_type(r) == CrashType::OutOfMemory,
        !(text::contains(r, "OutOfMemoryError"@) || text::contains(r, "Java heap space"@)) && (text::contains(r, "ClassNotFoundException"@) || text::contains(r, "NoClassDefFoundError"@) || text::contains(r, "NoSuchMethodError"@)) ==> spec_detect_crash_type(r) == CrashType::MissingDependency,
        !(text::contains(r, "OutOfMemoryError"@) || text::contains(r, "Java heap space"@)) && !(text::contains(r, "ClassNotFoundException"@) || text::contains(r, "NoClassDefFoundError"@) || text::contains(r, "NoSuchMethodError"@)) && (text::contains(r, "OpenGL"@) || text::contains(r, "GLFW"@) || text::contains(r, "graphics driver"@) || text::contains(r, "GLException"@)) ==> spec_detect_crash_type(r) == CrashType::GraphicsDriver,
        !(text::contains(r, "OutOfMemoryError"@) || text::contains(r, "Java heap space"@)) && !(text::contains(r, "ClassNotFoundException"@) || text::contains(r, "NoClassDefFoundError"@) || text::contains(r, "NoSuchMethodError"@)) && !(text::contains(r, "OpenGL"@) || text::contains(r, "GLFW"@) || text::contains(r, "graphics driver"@) || text::contains(r, "GLException"@)) && (text::contains(r, "UnsupportedClassVersionError"@) || text::contains(r, "java.lang.VerifyError"@)) ==> spec_detect_crash_type(r) == CrashType::JavaVersion,
        !(text::contains(r, "OutOfMemoryError"@) || text::contains(r, "Java heap space"@)) && !(text::contains(r, "ClassNotFoundException"@) || text::contains(r, "NoClassDefFoundError"@) || text::contains(r, "NoSuchMethodError"@)) && !(text::contains(r, "OpenGL"@) || text::contains(r, "GLFW"@) || text::contains(r, "graphics driver"@) || text::contains(r, "GLException"@)) && !(text::contains(r, "UnsupportedClassVersionError"@) || text::contains(r, "java.lang.VerifyError"@)) && (text::contains(r, "ZipException"@) || text::contains(r, "corrupt"@) || text::contains(r, "invalid"@)) ==> spec_detect_crash_type(r) == CrashType::CorruptedFile,
        !(text::contains(r, "OutOfMemoryError"@) || text::contains(r, "Java heap space"@)) && !(text::contains(r, "ClassNotFoundException"@) || text::contains(r, "NoClassDefFoundError"@) || text::contains(r, "NoSuchMethodError"@)) && !(text::contains(r, "OpenGL"@) || text::contains(r, "GLFW"@) || text::contains(r, "graphics driver"@) || text::contains(r, "GLException"@)) && !(text::contains(r, "UnsupportedClassVersionError"@) || text::contains(r, "java.lang.VerifyError"@)) && !(text::contains(r, "ZipException"@) || text::contains(r, "corrupt"@) || text::contains(r, "invalid"@)) && (text::contains(r, "IOException"@) || text::contains(r, "Connection"@) || text::contains(r, "SocketException"@)) ==> spec_detect_crash_type(r) == CrashType::NetworkIssue,
        !(text::contains(r, "OutOfMemoryError"@) || text::contains(r, "Java heap space"@)) && !(text::contains(r, "ClassNotFoundException"@) || text::contains(r, "NoClassDefFoundError"@) || text::contains(r, "NoSuchMethodError"@)) && !(text::contains(r, "OpenGL"@) || text::contains(r, "GLFW"@) || text::contains(r, "graphics driver"@) || text::contains(r, "GLException"@)) && !(text::contains(r, "UnsupportedClassVersionError"@) || text::contains(r, "java.lang.VerifyError"@)) && !(text::contains(r, "ZipException"@) || text::contains(r, "corrupt"@) || text::contains(r, "invalid"@)) && !(text::contains(r, "IOException"@) || text::contains(r, "Connection"@) || text::contains(r, "SocketException"@)) && (text::contains(r, "conflict"@) || text::contains(r, "incompatible"@)) ==> spec_detect_crash_type(r)
            == CrashType::ModConflict,
        !(text::contains(r, "OutOfMemoryError"@) || text::contains(r, "Java heap space"@)) && !(text::contains(r, "ClassNotFoundException"@) || text::contains(r, "NoClassDefFoundError"@) || text::contains(r, "NoSuchMethodError"@)) && !(text::contains(r, "OpenGL"@) || text::contains(r, "GLFW"@) || text::contains(r, "graphics driver"@) || text::contains(r, "GLException"@)) && !(text::contains(r, "UnsupportedClassVersionError"@) || text::contains(r, "java.lang.VerifyError"@)) && !(text::contains(r, "ZipException"@) || text::contains(r, "corrupt"@) || text::contains(r, "invalid"@)) && !(text::contains(r, "IOException"@) || text::contains(r, "Connection"@) || text::contains(r, "SocketException"@)) && !(text::contains(r, "conflict"@) || text::contains(r, "incompatible"@)) ==> (spec_detect_crash_type(r)
            == CrashType::Unknown <==> mod_line_count(text::lines(r)) <= 3),
{
    reveal(has);
}

/// Counts the lines of `s` that name a mod jar or a mod id.
pub fn count_mod_lines(s: &[char]) -> (n: usize)
    ensures
        n == mod_line_count(text::lines(s@)),
{
    let ls = text::lines_seq(s);
    let ghost lsv = text::lines(s@);
    let jar = text::chars_of(".jar");
    let modid = text::chars_of("mod_id");
    let mut n: usize = 0;
    let mut i: usize = 0;
    while i < ls.len()
        invariant
            i <= ls@.len(),
            ls@.len() == lsv.len(),
            forall|k: int| 0 <= k < ls@.len() ==> #[trigger] ls@[k]@ == lsv[k],
            jar@ == ".jar"@,
            modid@ == "mod_id"@,
            n == mod_line_count(lsv.take(i as int)),
            n <= i,
        decreases ls@.len() - i,
    {
        assert(lsv.take(i + 1).drop_last() =~= lsv.take(i as int));
        assert(ls@[i as int]@ == lsv[i as int]);
        if text::contains_seq(ls[i].as_slice(), jar.as_slice()) || text::contains_seq(
            ls[i].as_slice(),
            modid.as_slice(),
        ) {
            n += 1;
        }
        i += 1;
    }
    assert(lsv.take(i as int) =~= lsv);
    n
}

/// Detects the crash type from the full crash text.
pub fn detect_crash_type(crash_report: &str) -> (c: CrashType)
    ensures
        c == spec_detect_crash_type(crash_report@),
{
    let r = text::chars_of(crash_report);
    let r = r.as_slice();
    if has_exec(r, "OutOfMemoryError") || has_exec(r, "Java heap space") {
        CrashType::OutOfMemory
    } else if has_exec(r, "ClassNotFoundException") || has_exec(r, "NoClassDefFoundError")
        || has_exec(r, "NoSuchMethodError") {
        CrashType::MissingDependency
    } else if has_exec(r, "OpenGL") || has_exec(r, "GLFW") || has_exec(r, "graphics driver")
        || has_exec(r, "GLException") {
        CrashType::GraphicsDriver
    } else if has_exec(r, "UnsupportedClassVersionError") || has_exec(r, "java.lang.VerifyError") {
        CrashType::JavaVersion
    } else if has_exec(r, "ZipException") || has_exec(r, "corrupt") || has_exec(r, "invalid") {
        CrashType::CorruptedFile
    } else if has_exec(r, "IOException") || has_exec(r, "Connection") || has_exec(r, "SocketException") {
        CrashType::NetworkIssue
    } else if has_exec(r, "conflict") || has_exec(r, "incompatible") || count_mod_lines(r) > 3 {
        CrashType::ModConflict
    } else {
        CrashType::Unknown
    }
}

/// Known mods whose keywords occur in lowercased text, in table order.
pub open spec fn known_mods(l: Seq<char>) -> Seq<Seq<char>> {
    Seq::empty()
        + cat_if(has(l, "be_quiet_negotiator"), "be_quiet_negotiator")
        + cat_if(has(l, "sodium"), "sodium")
        + cat_if(has(l, "iris"), "iris")
        + cat_if(has(l, "lithium"), "lithium")
        + cat_if(has(l, "mixin"), "mixin")
        + cat_if(has(l, "neoforge"), "neoforge")
        + cat_if(has(l, "forge"), "forge")
        + cat_if(has(l, "fabric"), "fabric")
        + cat_if(has(l, "optifine"), "optifine")
        + cat_if(has(l, "create"), "create")
        + cat_if(has(l, "arknights"), "arknights_endfield")
        + cat_if(has(l, "crash_assistant"), "crash_assistant")
        + cat_if(has(l, "yumi_mc"), "yumi_mc_core")
        + cat_if(has(l, "replaymod"), "replaymod")
        + cat_if(has(l, "reforgedplaymod"), "reforgedplaymod")
}

/// A character that may appear in a mod name after `from mod `.
pub open spec fn is_mod_name_char(c: char) -> bool {
    text::spec_is_alphanumeric(c) || c == '_' || c == '-'
}

/// Length of the longest prefix of `s` made of mod-name characters.
pub open spec fn mod_name_len(s: Seq<char>, i: int) -> int
    decreases s.len() - i,
{
    if 0 <= i < s.len() && is_mod_name_char(s[i]) {
        mod_name_len(s, i + 1)
    } else {
        i
    }
}

/// The mod named after the first `from mod ` in the text (letters matched
/// without regard to case): the run of name characters that follows it.
pub open spec fn from_mod_name(s: Seq<char>) -> Option<Seq<char>> {
    match text::find(text::ascii_lower(s), "from mod "@) {
        Some(ci) => {
            let rest = s.skip(ci + 9);
            let n = mod_name_len(rest, 0);
            if n > 0 {
                Some(rest.take(n))
            } else {
                None
            }
        },
        None => None,
    }
}

/// Distinct mod names found in a text: known mods in table order, then the
/// `from mod` name when it is not already listed.
pub open spec fn mods_found(s: Seq<char>) -> Seq<Seq<char>> {
    let l = text::spec_to_lowercase(s);
    let k = known_mods(l);
    match from_mod_name(s) {
        Some(n) => if k.contains(n) {
            k
        } else {
            k.push(n)
        },
        None => k,
    }
}

pub open spec fn take_at_most<A>(s: Seq<A>, max: nat) -> Seq<A> {
    if s.len() <= max {
        s
    } else {
        s.take(max as int)
    }
}

/// Character index of `s` at which its UTF-8 encoding reaches byte `b`.
pub open spec fn char_index_at_byte(s: Seq<char>, b: int) -> Option<int> {
    if exists|k: int| 0 <= k <= s.len() && text::utf8_bytes(s.take(k)) == b {
        Some(choose|k: int| 0 <= k <= s.len() && text::utf8_bytes(s.take(k)) == b)
    } else {
        None
    }
}

pub proof fn lemma_utf8_bytes_take(s: Seq<char>, k: int)
    requires
        0 <= k < s.len(),
    ensures
        text::utf8_bytes(s.take(k + 1)) == text::utf8_bytes(s.take(k)) + text::utf8_len(s[k]),
        text::utf8_bytes(s.take(k + 1)) > text::utf8_bytes(s.take(k)),
{
    assert(s.take(k + 1).drop_last() =~= s.take(k));
}

pub proof fn lemma_utf8_bytes_strict(s: Seq<char>, a: int, b: int)
    requires
        0 <= a < b <= s.len(),
    ensures
        text::utf8_bytes(s.take(a)) < text::utf8_bytes(s.take(b)),
    decreases b - a,
{
    lemma_utf8_bytes_take(s, b - 1);
    if a < b - 1 {
        lemma_utf8_bytes_strict(s, a, b - 1);
    }
}

/// The character index of `s` whose UTF-8 byte offset is `b`, if any.
pub fn char_index_of_byte(s: &[char], b: u128) -> (r: Option<usize>)
    ensures
        r matches Some(k) ==> char_index_at_byte(s@, b as int) == Some(k as int),
        r is None ==> char_index_at_byte(s@, b as int) is None,
{
    let mut acc: u128 = 0;
    let mut k: usize = 0;
    assert(s@.take(0) =~= Seq::<char>::empty());
    while k < s.len() && acc < b
        invariant
            k <= s@.len(),
            acc == text::utf8_bytes(s@.take(k as int)),
            acc <= 4 * k,
            forall|j: int| 0 <= j < k ==> text::utf8_bytes(#[trigger] s@.take(j)) < b,
        decreases s@.len() - k,
    {
        proof { lemma_utf8_bytes_take(s@, k as int); }
        acc = acc + (text::char_utf8_len(s[k]) as u128);
        k += 1;
    }
    if acc == b {
        proof {
            assert(0 <= k <= s@.len() && text::utf8_bytes(s@.take(k as int)) == b);
            let c = choose|j: int| 0 <= j <= s@.len() && text::utf8_bytes(s@.take(j)) == b;
            if c < k {
                assert(text::utf8_bytes(s@.take(c)) < b);
            } else if c > k {
                lemma_utf8_bytes_strict(s@, k as int, c);
            }
        }
        Some(k)
    } else {
        proof {
            assert forall|j: int| 0 <= j <= s@.len() implies text::utf8_bytes(s@.take(j)) != b by {
                if j < k {
                } else if j > k {
                    lemma_utf8_bytes_strict(s@, k as int, j);
                    if k == s@.len() {
                    }
                }
            }
        }
        None
    }
}

fn mod_name_at(s: &[char], start: usize) -> (r: Option<String>)
    requires
        start <= s@.len(),
    ensures
        ({
            let rest = s@.skip(start as int);
            let n = mod_name_len(rest, 0);
            &&& r matches Some(t) ==> n > 0 && t@ == rest.take(n)
            &&& r is None ==> n <= 0
        }),
{
    let ghost rest = s@.skip(start as int);
    let mut i = start;
    while i < s.len() && (text::char_is_alphanumeric(s[i]) || s[i] == '_' || s[i] == '-')
        invariant
            start <= i <= s@.len(),
            rest == s@.skip(start as int),
            mod_name_len(rest, (i - start) as int) == mod_name_len(rest, 0),
        decreases s@.len() - i,
    {
        assert(rest[(i - start) as int] == s@[i as int]);
        i += 1;
    }
    proof {
        if i < s@.len() {
            assert(rest[(i - start) as int] == s@[i as int]);
        }
    }
    if i > start {
        let t = text::substring(s, start, i);
        assert(t@ =~= rest.take((i - start) as int));
        Some(t)
    } else {
        None
    }
}

fn push_if_mod(v: &mut Vec<String>, l: &[char], pat: &str, name: &str)
    ensures
        final(v).deep_view() == old(v).deep_view() + cat_if(has(l@, pat), name),
{
    let b = has_exec(l, pat);
    push_if(v, b, name);
}

fn contains_string(v: &Vec<String>, t: &String) -> (r: bool)
    ensures
        r == v.deep_view().contains(t@),
{
    let mut i: usize = 0;
    while i < v.len()
        invariant
            i <= v@.len(),
            forall|j: int| 0 <= j < i ==> v@[j]@ != t@,
        decreases v@.len() - i,
    {
        if text::str_eq(v[i].as_str(), t.as_str()) {
            assert(v.deep_view()[i as int] == t@);
            return true;
        }
        i += 1;
    }
    proof {
        if v.deep_view().contains(t@) {
            let j = choose|j: int| 0 <= j < v.deep_view().len() && v.deep_view()[j] == t@;
            assert(v@[j]@ == t@);
        }
    }
    false
}

/// The distinct mod names a text mentions, in a fixed order.
pub fn mods_in(s: &str) -> (r: Vec<String>)
    ensures
        r.deep_view() == mods_found(s@),
{
    let lower = text::to_lowercase(s);
    let lv = text::chars_of(lower.as_str());
    let l = lv.as_slice();
    let mut v: Vec<String> = Vec::new();
    assert(v.deep_view() =~= Seq::<Seq<char>>::empty());
    push_if_mod(&mut v, l, "be_quiet_negotiator", "be_quiet_negotiator");
    push_if_mod(&mut v, l, "sodium", "sodium");
    push_if_mod(&mut v, l, "iris", "iris");
    push_if_mod(&mut v, l, "lithium", "lithium");
    push_if_mod(&mut v, l, "mixin", "mixin");
    push_if_mod(&mut v, l, "neoforge", "neoforge");
    push_if_mod(&mut v, l, "forge", "forge");
    push_if_mod(&mut v, l, "fabric", "fabric");
    push_if_mod(&mut v, l, "optifine", "optifine");
    push_if_mod(&mut v, l, "create", "create");
    push_if_mod(&mut v, l, "arknights", "arknights_endfield");
    push_if_mod(&mut v, l, "crash_assistant", "crash_assistant");
    push_if_mod(&mut v, l, "yumi_mc", "yumi_mc_core");
    push_if_mod(&mut v, l, "replaymod", "replaymod");
    push_if_mod(&mut v, l, "reforgedplaymod", "reforgedplaymod");
    let ghost k = v.deep_view();
    assert(k == known_mods(lower@));
    let sv = text::chars_of(s);
    let folded = text::ascii_lower_seq(sv.as_slice());
    let needle = text::chars_of("from mod ");
    let total = sv.len();
    let name: Option<String> = match text::find_from(folded.as_slice(), needle.as_slice(), 0) {
        Some(ci) => {
            proof {
                reveal_strlit("from mod ");
                text::lemma_first_occurrence_from(folded@, "from mod "@, 0);
                assert(needle@.len() == 9);
                assert(folded@.len() == sv@.len());
                assert(ci + 9 <= folded@.len());
                assert(ci + 9 <= total);
            }
            mod_name_at(sv.as_slice(), ci + 9)
        },
        None => None,
    };
    match name {
        Some(n) => {
            if !contains_string(&v, &n) {
                v.push(n);
            }
        },
        None => {},
    }
    v
}

/// Extracts mod names from a crash report or log excerpt: at most `max`
/// distinct names.
pub fn extract_mods(s: &str, max: usize) -> (r: Vec<String>)
    ensures
        r.deep_view() == take_at_most(mods_found(s@), max as nat),
{
    let mut all = mods_in(s);
    if all.len() > max {
        all.truncate(max);
        assert(all.deep_view() =~= mods_found(s@).take(max as int));
    }
    all
}


// ---------------------------------------------------------------------------
// Whole-log analysis
// ---------------------------------------------------------------------------

fn clone_opt(o: &Option<String>) -> (r: Option<String>)
    ensures
        r.deep_view() == o.deep_view(),
{
    match o {
        Some(t) => Some(t.clone()),
        None => None,
    }
}

pub fn clone_strings(v: &Vec<String>) -> (r: Vec<String>)
    ensures
        r.deep_view() == v.deep_view(),
{
    let mut r: Vec<String> = Vec::new();
    let mut i: usize = 0;
    while i < v.len()
        invariant
            i <= v@.len(),
            r@.len() == i,
            forall|k: int| 0 <= k < i ==> #[trigger] r@[k]@ == v@[k]@,
        decreases v@.len() - i,
    {
        r.push(v[i].clone());
        i += 1;
    }
    assert(r.deep_view() =~= v.deep_view());
    r
}

impl LogEntry {
    /// A copy of this entry.
    pub fn copy(&self) -> (r: LogEntry)
        ensures
            r@ == self@,
    {
        LogEntry {
            line_number: self.line_number,
            timestamp: clone_opt(&self.timestamp),
            severity: self.severity,
            source: clone_opt(&self.source),
            message: self.message.clone(),
            is_exception: self.is_exception,
            exception_type: clone_opt(&self.exception_type),
            is_crash_marker: self.is_crash_marker,
            categories: clone_strings(&self.categories),
        }
    }
}

pub open spec fn entries_view(v: Seq<LogEntry>) -> Seq<LogEntryView> {
    v.map_values(|e: LogEntry| e@)
}

pub open spec fn is_error_severity(s: Severity) -> bool {
    s == Severity::Error || s == Severity::Fatal
}

pub open spec fn count_errors(es: Seq<LogEntryView>) -> nat
    decreases es.len(),
{
    if es.len() == 0 {
        0
    } else {
        count_errors(es.drop_last()) + if is_error_severity(es.last().severity) {
            1nat
        } else {
            0nat
        }
    }
}

pub open spec fn count_warnings(es: Seq<LogEntryView>) -> nat
    decreases es.len(),
{
    if es.len() == 0 {
        0
    } else {
        count_warnings(es.drop_last()) + if es.last().severity == Severity::Warn {
            1nat
        } else {
            0nat
        }
    }
}

pub open spec fn count_crash_markers(es: Seq<LogEntryView>) -> nat
    decreases es.len(),
{
    if es.len() == 0 {
        0
    } else {
        count_crash_markers(es.drop_last()) + if es.last().is_crash_marker {
            1nat
        } else {
            0nat
        }
    }
}

/// Messages of the error and fatal entries, in order.
pub open spec fn error_messages(es: Seq<LogEntryView>) -> Seq<Seq<char>>
    decreases es.len(),
{
    if es.len() == 0 {
        Seq::empty()
    } else if is_error_severity(es.last().severity) {
        error_messages(es.drop_last()).push(es.last().message)
    } else {
        error_messages(es.drop_last())
    }
}

pub open spec fn messages(es: Seq<LogEntryView>) -> Seq<Seq<char>> {
    es.map_values(|e: LogEntryView| e.message)
}

/// Occurrences of category `k` in one category list.
pub open spec fn occ_in(cats: Seq<Seq<char>>, k: Seq<char>) -> nat
    decreases cats.len(),
{
    if cats.len() == 0 {
        0
    } else {
        occ_in(cats.drop_last(), k) + if cats.last() == k {
            1nat
        } else {
            0nat
        }
    }
}

/// Occurrences of category `k` over all entries.
pub open spec fn occ(es: Seq<LogEntryView>, k: Seq<char>) -> nat
    decreases es.len(),
{
    if es.len() == 0 {
        0
    } else {
        occ(es.drop_last(), k) + occ_in(es.last().categories, k)
    }
}

/// Total number of category labels over all entries.
pub open spec fn total_categories(es: Seq<LogEntryView>) -> nat
    decreases es.len(),
{
    if es.len() == 0 {
        0
    } else {
        total_categories(es.drop_last()) + es.last().categories.len()
    }
}

pub proof fn lemma_occ_in_bound(cats: Seq<Seq<char>>, k: Seq<char>)
    ensures
        occ_in(cats, k) <= cats.len(),
    decreases cats.len(),
{
    if cats.len() > 0 {
        lemma_occ_in_bound(cats.drop_last(), k);
    }
}

pub proof fn lemma_occ_bound(es: Seq<LogEntryView>, k: Seq<char>)
    ensures
        occ(es, k) <= total_categories(es),
    decreases es.len(),
{
    if es.len() > 0 {
        lemma_occ_bound(es.drop_last(), k);
        lemma_occ_in_bound(es.last().categories, k);
    }
}

pub proof fn lemma_total_prefix(es: Seq<LogEntryView>, i: int)
    requires
        0 <= i <= es.len(),
    ensures
        total_categories(es.take(i)) <= total_categories(es),
    decreases es.len() - i,
{
    if i < es.len() {
        lemma_total_prefix(es, i + 1);
        assert(es.take(i + 1).drop_last() =~= es.take(i));
    } else {
        assert(es.take(i) =~= es);
    }
}

pub open spec fn counts_view(c: Seq<(String, u64)>) -> Seq<(Seq<char>, u64)> {
    c.map_values(|p: (String, u64)| (p.0@, p.1))
}

pub open spec fn keys_distinct(c: Seq<(Seq<char>, u64)>) -> bool {
    forall|i: int, j: int| 0 <= i < j < c.len() ==> c[i].0 != c[j].0
}

pub open spec fn has_key(c: Seq<(Seq<char>, u64)>, k: Seq<char>) -> bool {
    exists|i: int| 0 <= i < c.len() && c[i].0 == k
}

/// The category table of entries `es`: one row per category that occurs,
/// holding its number of occurrences.
pub open spec fn is_category_table(c: Seq<(Seq<char>, u64)>, es: Seq<LogEntryView>) -> bool {
    &&& keys_distinct(c)
    &&& forall|i: int| 0 <= i < c.len() ==> c[i].1 == occ(es, #[trigger] c[i].0)
    &&& forall|k: Seq<char>| has_key(c, k) <==> occ(es, k) > 0
}

/// Adds one occurrence of `k` to a category table.
fn bump(c: &mut Vec<(String, u64)>, k: &String, Ghost(before): Ghost<spec_fn(Seq<char>) -> nat>)
    requires
        keys_distinct(counts_view(old(c)@)),
        forall|i: int| 0 <= i < old(c)@.len() ==> old(c)@[i].1 == before(#[trigger] old(c)@[i].0@),
        forall|kk: Seq<char>| has_key(counts_view(old(c)@), kk) <==> before(kk) > 0,
        before(k@) < u64::MAX,
    ensures
        keys_distinct(counts_view(final(c)@)),
        forall|i: int| 0 <= i < final(c)@.len() ==> final(c)@[i].1 == before(#[trigger] final(c)@[i].0@)
            + if final(c)@[i].0@ == k@ { 1nat } else { 0nat },
        forall|kk: Seq<char>| has_key(counts_view(final(c)@), kk) <==> (before(kk) + if kk == k@ {
            1nat
        } else {
            0nat
        }) > 0,
{
    let ghost cv0 = counts_view(c@);
    let mut i: usize = 0;
    while i < c.len()
        invariant
            i <= c@.len(),
            c@ == old(c)@,
            cv0 == counts_view(old(c)@),
            keys_distinct(cv0),
            forall|j: int| 0 <= j < old(c)@.len() ==> old(c)@[j].1 == before(#[trigger] old(c)@[j].0@),
            forall|kk: Seq<char>| has_key(cv0, kk) <==> before(kk) > 0,
            before(k@) < u64::MAX,
            forall|j: int| 0 <= j < i ==> c@[j].0@ != k@,
        decreases c@.len() - i,
    {
        if text::str_eq(c[i].0.as_str(), k.as_str()) {
            let v = c[i].1;
            assert(cv0[i as int] == (c@[i as int].0@, c@[i as int].1));
            assert(v == before(k@));
            let name = c[i].0.clone();
            c.set(i, (name, v + 1));
            proof {
                let cv = counts_view(c@);
                assert forall|a: int| 0 <= a < cv.len() implies cv[a].0 == cv0[a].0 by {
                    assert(cv[a] == (c@[a].0@, c@[a].1));
                    assert(cv0[a] == (old(c)@[a].0@, old(c)@[a].1));
                }
                assert forall|a: int, b: int| 0 <= a < b < cv.len() implies cv[a].0 != cv[b].0 by {
                    assert(cv[a].0 == cv0[a].0);
                    assert(cv[b].0 == cv0[b].0);
                }
                assert forall|a: int| 0 <= a < c@.len() implies c@[a].1 == before(#[trigger] c@[a].0@)
                    + if c@[a].0@ == k@ { 1nat } else { 0nat } by {
                    assert(cv[a] == (c@[a].0@, c@[a].1));
                    assert(cv0[a] == (old(c)@[a].0@, old(c)@[a].1));
                    if a != i {
                        assert(c@[a] == old(c)@[a]);
                        assert(cv0[a].0 != cv0[i as int].0);
                    }
                }
                assert forall|kk: Seq<char>| has_key(cv, kk) <==> (before(kk) + if kk == k@ { 1nat } else { 0nat }) > 0 by {
                    if has_key(cv, kk) {
                        let j = choose|j: int| 0 <= j < cv.len() && cv[j].0 == kk;
                        assert(cv0[j].0 == kk);
                    }
                    if has_key(cv0, kk) {
                        let j = choose|j: int| 0 <= j < cv0.len() && cv0[j].0 == kk;
                        assert(cv[j].0 == kk);
                    }
                    if kk == k@ {
                        assert(cv[i as int].0 == kk);
                    }
                }
            }
            return;
        }
        i += 1;
    }
    proof {
        assert(!has_key(cv0, k@)) by {
            if has_key(cv0, k@) {
                let j = choose|j: int| 0 <= j < cv0.len() && cv0[j].0 == k@;
                assert(c@[j].0@ == k@);
            }
        }
    }
    c.push((k.clone(), 1));
    proof {
        let cv = counts_view(c@);
        assert(cv =~= cv0.push((k@, 1u64)));
        assert forall|a: int, b: int| 0 <= a < b < cv.len() implies cv[a].0 != cv[b].0 by {
            if b == cv0.len() {
                assert(cv[a].0 == cv0[a].0);
                if cv0[a].0 == k@ {
                    assert(c@[a].0@ == k@);
                }
            }
        }
        assert forall|a: int| 0 <= a < c@.len() implies c@[a].1 == before(#[trigger] c@[a].0@)
            + if c@[a].0@ == k@ { 1nat } else { 0nat } by {
            if a < cv0.len() {
                assert(c@[a] == old(c)@[a]);
            }
        }
        assert forall|kk: Seq<char>| has_key(cv, kk) <==> (before(kk) + if kk == k@ { 1nat } else { 0nat }) > 0 by {
            if has_key(cv, kk) {
                let j = choose|j: int| 0 <= j < cv.len() && cv[j].0 == kk;
                if j < cv0.len() {
                    assert(cv0[j].0 == kk);
                }
            }
            if has_key(cv0, kk) {
                let j = choose|j: int| 0 <= j < cv0.len() && cv0[j].0 == kk;
                assert(cv[j].0 == kk);
            }
            if kk == k@ {
                assert(cv[cv0.len() as int].0 == kk);
            }
        }
    }
}

/// Full analysis result for a log.
#[derive(Debug, Clone)]
pub struct LogAnalysis {
    pub total_lines: u64,
    pub error_count: u64,
    pub warning_count: u64,
    pub crash_count: u64,
    pub entries: Vec<LogEntry>,
    pub top_errors: Vec<String>,
    pub detected_mods: Vec<String>,
    pub crash_type: Option<String>,
    pub stack_trace_top: Vec<String>,
    /// Occurrences of each category (one row per category, in order of
    /// first appearance).
    pub categories: Vec<(String, u64)>,
}

/// A log parser that caps the number of lines it reads.
pub struct LogParser {
    pub max_lines: usize,
}

pub open spec fn parsed_lines(s: Seq<char>, max: nat) -> Seq<LogEntryView> {
    let ls = text::lines(s);
    Seq::new(
        if ls.len() <= max {
            ls.len()
        } else {
            max
        },
        |i: int| spec_parse_line(ls[i], (i + 1) as u64),
    )
}

impl LogParser {
    pub fn new() -> (p: Self)
        ensures
            p.max_lines == 5000,
    {
        Self { max_lines: 5000 }
    }

    pub fn with_max_lines(max_lines: usize) -> (p: Self)
        ensures
            p.max_lines == max_lines,
    {
        Self { max_lines }
    }

    /// Parses in-memory log content: one entry per line (numbered from 1),
    /// at most `max_lines` of them.
    pub fn parse_content(&self, content: &str) -> (r: Vec<LogEntry>)
        ensures
            entries_view(r@) == parsed_lines(content@, self.max_lines as nat),
    {
        let ls = text::lines_str(content);
        let ghost lsv = text::lines(content@);
        let mut out: Vec<LogEntry> = Vec::new();
        let mut i: usize = 0;
        while i < ls.len() && i < self.max_lines
            invariant
                i <= ls@.len(),
                i <= self.max_lines,
                ls@.len() == lsv.len(),
                forall|k: int| 0 <= k < ls@.len() ==> #[trigger] ls@[k]@ == lsv[k],
                out@.len() == i,
                forall|k: int| 0 <= k < i ==> #[trigger] out@[k]@ == spec_parse_line(lsv[k], (k + 1) as u64),
            decreases ls@.len() - i,
        {
            assert(i < ls@.len());
            let n: u64 = (i + 1) as u64;
            out.push(parse_line(ls[i].as_str(), n));
            i += 1;
        }
        let ghost want = parsed_lines(content@, self.max_lines as nat);
        assert(entries_view(out@).len() == want.len());
        assert forall|k: int| 0 <= k < want.len() implies entries_view(out@)[k] == want[k] by {
            assert(out@[k]@ == spec_parse_line(lsv[k], (k + 1) as u64));
        }
        assert(entries_view(out@) =~= want);
        out
    }

    /// Analyzes parsed entries: counts, the first twenty error messages,
    /// per-category occurrences, and crash type, top stack frames and mods of
    /// the messages joined by newlines.
    pub fn analyze(&self, entries: &[LogEntry]) -> (a: LogAnalysis)
        requires
            total_categories(entries_view(entries@)) < u64::MAX,
        ensures
            ({
                let es = entries_view(entries@);
                let combined = text::join(messages(es), "\n"@);
                &&& a.total_lines == es.len()
                &&& a.error_count == count_errors(es)
                &&& a.warning_count == count_warnings(es)
                &&& a.crash_count == count_crash_markers(es)
                &&& entries_view(a.entries@) == es
                &&& a.top_errors.deep_view() == take_at_most(error_messages(es), 20)
                &&& is_category_table(counts_view(a.categories@), es)
                &&& a.crash_type.deep_view() == (if a.crash_count > 0 || a.error_count > 0 {
                    Some(crash_type_name(spec_detect_crash_type(combined)))
                } else {
                    None
                })
                &&& a.stack_trace_top.deep_view() == spec_extract_stack_trace(combined, 10)
                &&& a.detected_mods.deep_view() == take_at_most(mods_found(combined), 15)
            }),
    {
        let ghost es = entries_view(entries@);
        let mut error_count: u64 = 0;
        let mut warning_count: u64 = 0;
        let mut crash_count: u64 = 0;
        let mut categories: Vec<(String, u64)> = Vec::new();
        let mut top_errors: Vec<String> = Vec::new();
        let mut copies: Vec<LogEntry> = Vec::new();
        let mut msgs: Vec<String> = Vec::new();
        let mut i: usize = 0;
        assert(es.take(0) =~= Seq::<LogEntryView>::empty());
        while i < entries.len()
            invariant
                i <= entries@.len(),
                es == entries_view(entries@),
                total_categories(es) < u64::MAX,
                error_count == count_errors(es.take(i as int)),
                warning_count == count_warnings(es.take(i as int)),
                crash_count == count_crash_markers(es.take(i as int)),
                error_count <= i,
                warning_count <= i,
                crash_count <= i,
                entries_view(copies@) == es.take(i as int),
                msgs.deep_view() == messages(es.take(i as int)),
                top_errors.deep_view() == take_at_most(error_messages(es.take(i as int)), 20),
                is_category_table(counts_view(categories@), es.take(i as int)),
            decreases entries@.len() - i,
        {
            let e = &entries[i];
            let ghost ev = e@;
            let ghost pre = es.take(i as int);
            let ghost pre1 = es.take(i + 1);
            assert(pre1.drop_last() =~= pre);
            assert(pre1.last() == ev);
            assert(es[i as int] == ev);
            let ghost em0 = error_messages(pre);
            if e.severity == Severity::Error || e.severity == Severity::Fatal {
                assert(error_messages(pre1) == em0.push(ev.message));
                error_count += 1;
                if top_errors.len() < 20 {
                    let ghost t0 = top_errors.deep_view();
                    top_errors.push(e.message.clone());
                    assert(top_errors.deep_view() =~= t0.push(ev.message));
                    assert(top_errors.deep_view() =~= take_at_most(em0.push(ev.message), 20));
                } else {
                    assert(em0.push(ev.message).take(20) =~= em0.take(20));
                }
            } else if e.severity == Severity::Warn {
                warning_count += 1;
            }
            if e.is_crash_marker {
                crash_count += 1;
            }
            let mut j: usize = 0;
            let ghost cats = ev.categories;
            proof { lemma_total_prefix(es, i + 1); }
            assert(cats.take(0) =~= Seq::<Seq<char>>::empty());
            proof {
                assert forall|m: int| 0 <= m < categories@.len() implies categories@[m].1 == occ(pre, #[trigger] categories@[m].0@)
                    + occ_in(cats.take(0), categories@[m].0@) by {
                    assert(counts_view(categories@)[m] == (categories@[m].0@, categories@[m].1));
                    assert(counts_view(categories@)[m].1 == occ(pre, counts_view(categories@)[m].0));
                }
            }
            while j < e.categories.len()
                invariant
                    j <= e.categories@.len(),
                    cats == e.categories.deep_view(),
                    total_categories(pre1) < u64::MAX,
                    pre1.len() > 0,
                    pre1.last().categories == cats,
                    pre1.drop_last() == pre,
                    keys_distinct(counts_view(categories@)),
                    forall|m: int| 0 <= m < categories@.len() ==> categories@[m].1 == occ(pre, #[trigger] categories@[m].0@)
                        + occ_in(cats.take(j as int), categories@[m].0@),
                    forall|kk: Seq<char>| has_key(counts_view(categories@), kk) <==> occ(pre, kk) + occ_in(cats.take(j as int), kk) > 0,
                decreases e.categories@.len() - j,
            {
                let k = &e.categories[j];
                assert(cats.take(j + 1).drop_last() =~= cats.take(j as int));
                assert(cats[j as int] == k@);
                proof {
                    lemma_occ_bound(pre1, k@);
                    lemma_occ_in_bound(cats.take(j as int), k@);
                    assert(occ(pre1, k@) == occ(pre, k@) + occ_in(cats, k@));
                    assert(cats =~= cats.take(j + 1) + cats.skip(j + 1));
                    lemma_occ_in_split(cats, j + 1, k@);
                }
                let ghost f = |kk: Seq<char>| occ(pre, kk) + occ_in(cats.take(j as int), kk);
                proof {
                    assert forall|m: int| 0 <= m < categories@.len() implies categories@[m].1 == f(#[trigger] categories@[m].0@) by {}
                    assert forall|kk: Seq<char>| has_key(counts_view(categories@), kk) <==> f(kk) > 0 by {}
                }
                bump(&mut categories, k, Ghost(f));
                j += 1;
            }
            assert(cats.take(j as int) =~= cats);
            proof {
                assert forall|m: int| 0 <= m < categories@.len() implies categories@[m].1 == occ(pre1, #[trigger] counts_view(categories@)[m].0) by {
                    assert(counts_view(categories@)[m].0 == categories@[m].0@);
                }
                assert forall|kk: Seq<char>| has_key(counts_view(categories@), kk) <==> occ(pre1, kk) > 0 by {}
            }
            copies.push(e.copy());
            assert(entries_view(copies@) =~= pre1);
            let ghost msgs0 = msgs.deep_view();
            msgs.push(e.message.clone());
            assert(msgs.deep_view() =~= msgs0.push(ev.message));
            assert(messages(pre1) =~= messages(pre).push(ev.message));
            i += 1;
        }
        assert(es.take(i as int) =~= es);
        let joined = text::join_strings(&msgs, "\n");
        assert(msgs@.map_values(|p: String| p@) =~= msgs.deep_view());
        let crash_type = if crash_count > 0 || error_count > 0 {
            Some(detect_crash_type(joined.as_str()).as_str().to_owned())
        } else {
            None
        };
        let stack_trace_top = extract_stack_trace(joined.as_str(), 10);
        let detected_mods = extract_mods(joined.as_str(), 15);
        LogAnalysis {
            total_lines: entries.len() as u64,
            error_count,
            warning_count,
            crash_count,
            entries: copies,
            top_errors,
            detected_mods,
            crash_type,
            stack_trace_top,
            categories,
        }
    }
}

pub proof fn lemma_occ_in_split(cats: Seq<Seq<char>>, j: int, k: Seq<char>)
    requires
        0 <= j <= cats.len(),
    ensures
        occ_in(cats.take(j), k) <= occ_in(cats, k),
    decreases cats.len() - j,
{
    if j < cats.len() {
        lemma_occ_in_split(cats, j + 1, k);
        assert(cats.take(j + 1).drop_last() =~= cats.take(j));
    } else {
        assert(cats.take(j) =~= cats);
    }
}

} // verus!
