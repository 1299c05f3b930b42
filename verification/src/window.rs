//! Game window attribution: instance names in window titles, and the
//! guards that decide which process belongs to which instance.
use vstd::prelude::*;
use crate::text;

verus! {

/// The title prefix given to launched game windows.
pub const TITLE_PREFIX: &'static str = "MDL: ";

/// Information about a discovered game window.
#[derive(Debug, Clone)]
pub struct GameWindowInfo {
    /// Instance name (from the title when possible, else from the caller).
    pub instance: String,
    pub title: String,
    pub pid: Option<u32>,
    pub width: i32,
    pub height: i32,
    /// Window handle as an integer, for diagnostics.
    pub handle: u64,
}

/// The instance a title `MDL: <name> [mods]` names: the text after the
/// prefix up to the first `[`, trimmed; none when that is empty.
pub open spec fn title_instance(title: Seq<char>) -> Option<Seq<char>> {
    match text::strip_prefix(title, TITLE_PREFIX@) {
        Some(rest) => {
            let name = match text::first_char_from(rest, '[', 0) {
                Some(i) => rest.take(i),
                None => rest,
            };
            if text::trim(name).len() == 0 {
                None
            } else {
                Some(text::trim(name))
            }
        },
        None => None,
    }
}

/// Extracts the instance name from a window title like `MDL: name [mods]`.
pub fn instance_from_title(title: &str) -> (r: Option<String>)
    ensures
        match r {
            Some(n) => title_instance(title@) == Some(n@),
            None => title_instance(title@) is None,
        },
{
    let chars = text::chars_of(title);
    let prefix = text::chars_of(TITLE_PREFIX);
    let rest = match text::strip_prefix_seq(chars.as_slice(), prefix.as_slice()) {
        Some(r) => r,
        None => return None,
    };
    let name = match text::find_char_from(rest.as_slice(), '[', 0) {
        Some(i) => {
            proof { text::lemma_first_char_from(rest@, '[', 0); }
            text::slice_range(rest.as_slice(), 0, i)
        },
        None => text::slice_range(rest.as_slice(), 0, rest.len()),
    };
    assert(name@ =~= match text::first_char_from(rest@, '[', 0) {
        Some(i) => rest@.take(i),
        None => rest@,
    });
    let t = text::trim_seq(name.as_slice());
    if t.len() == 0 {
        None
    } else {
        Some(text::string_of(t.as_slice()))
    }
}

/// Number of claims on `pid`.
pub open spec fn claims_on(claims: Seq<(Seq<char>, u32)>, pid: u32) -> nat
    decreases claims.len(),
{
    if claims.len() == 0 {
        0
    } else {
        claims_on(claims.drop_last(), pid) + if claims.last().1 == pid {
            1nat
        } else {
            0nat
        }
    }
}

/// The claims on PIDs claimed exactly once among `all`, in order.
pub open spec fn unambiguous(claims: Seq<(Seq<char>, u32)>, all: Seq<(Seq<char>, u32)>) -> Seq<(Seq<char>, u32)>
    decreases claims.len(),
{
    if claims.len() == 0 {
        Seq::empty()
    } else if claims_on(all, claims.last().1) == 1 {
        unambiguous(claims.drop_last(), all).push(claims.last())
    } else {
        unambiguous(claims.drop_last(), all)
    }
}

pub open spec fn claims_view(v: Seq<(String, u32)>) -> Seq<(Seq<char>, u32)> {
    v.map_values(|p: (String, u32)| (p.0@, p.1))
}

fn count_claims(claims: &Vec<(String, u32)>, pid: u32) -> (n: usize)
    ensures
        n == claims_on(claims_view(claims@), pid),
{
    let ghost cv = claims_view(claims@);
    let mut n: usize = 0;
    let mut i: usize = 0;
    assert(cv.take(0) =~= Seq::<(Seq<char>, u32)>::empty());
    while i < claims.len()
        invariant
            i <= claims@.len(),
            cv == claims_view(claims@),
            n == claims_on(cv.take(i as int), pid),
            n <= i,
        decreases claims@.len() - i,
    {
        assert(cv.take(i + 1).drop_last() =~= cv.take(i as int));
        assert(cv.take(i + 1).last() == (claims@[i as int].0@, claims@[i as int].1));
        if claims[i].1 == pid {
            n += 1;
        }
        i += 1;
    }
    assert(cv.take(i as int) =~= cv);
    n
}

/// Drops every claim on a PID that two or more instances claim: such a PID
/// cannot be attributed to either.
pub fn drop_ambiguous_claims(claims: Vec<(String, u32)>) -> (kept: Vec<(String, u32)>)
    ensures
        claims_view(kept@) == unambiguous(claims_view(claims@), claims_view(claims@)),
{
    let ghost cv = claims_view(claims@);
    let mut kept: Vec<(String, u32)> = Vec::new();
    let mut i: usize = 0;
    assert(cv.take(0) =~= Seq::<(Seq<char>, u32)>::empty());
    while i < claims.len()
        invariant
            i <= claims@.len(),
            cv == claims_view(claims@),
            claims_view(kept@) == unambiguous(cv.take(i as int), cv),
        decreases claims@.len() - i,
    {
        assert(cv.take(i + 1).drop_last() =~= cv.take(i as int));
        assert(cv.take(i + 1).last() == (claims@[i as int].0@, claims@[i as int].1));
        let ghost before = claims_view(kept@);
        if count_claims(&claims, claims[i].1) == 1 {
            kept.push((claims[i].0.clone(), claims[i].1));
            assert(claims_view(kept@) =~= before.push((claims@[i as int].0@, claims@[i as int].1)));
        }
        i += 1;
    }
    assert(cv.take(i as int) =~= cv);
    kept
}

/// Characters that may follow an instance's directory marker.
pub open spec fn is_boundary(c: char) -> bool {
    c == '\\' || c == '/' || c == ' ' || c == '"' || c == '\''
}

/// Whether, scanning `hay` from `from` for `marker` (each search resuming
/// after the previous occurrence), some occurrence ends the text or is
/// followed by a boundary character.
pub open spec fn segment_from(hay: Seq<char>, marker: Seq<char>, from: int) -> bool
    decreases hay.len() - from,
{
    if marker.len() == 0 || from < 0 || from > hay.len() {
        false
    } else {
        match text::first_occurrence_from(hay, marker, from) {
            Some(p) => {
                let e = p + marker.len();
                if p < from || e > hay.len() {
                    false
                } else if e == hay.len() || is_boundary(hay[e]) {
                    true
                } else {
                    segment_from(hay, marker, e)
                }
            },
            None => false,
        }
    }
}

fn contains_path_segment(hay: &[char], marker: &[char]) -> (r: bool)
    requires
        marker@.len() > 0,
    ensures
        r == segment_from(hay@, marker@, 0),
{
    let mut from: usize = 0;
    while from <= hay.len()
        invariant
            marker@.len() > 0,
            segment_from(hay@, marker@, 0) == segment_from(hay@, marker@, from as int),
        decreases hay@.len() + 1 - from,
    {
        match text::find_from(hay, marker, from) {
            Some(p) => {
                proof { text::lemma_first_occurrence_from(hay@, marker@, from as int); }
                let e = p + marker.len();
                if e == hay.len() || hay[e] == '\\' || hay[e] == '/' || hay[e] == ' ' || hay[e] == '"'
                    || hay[e] == '\'' {
                    return true;
                }
                from = e;
            },
            None => {
                return false;
            },
        }
    }
    false
}

/// A game process of a given instance: `java`/`javaw` (optionally `.exe`)
/// whose command line holds `instances\<name>` or `instances/<name>`
/// followed by a boundary or the end, all compared ASCII case-insensitively.
pub open spec fn identity(process_name: Seq<char>, cmd_line: Seq<char>, instance: Seq<char>) -> bool {
    let base = text::ascii_lower(process_name);
    let cmd = text::ascii_lower(cmd_line);
    let inst = text::ascii_lower(instance);
    (base == "java"@ || base == "javaw"@ || base == "java.exe"@ || base == "javaw.exe"@) && (segment_from(
        cmd,
        "instances\\"@ + inst,
        0,
    ) || segment_from(cmd, "instances/"@ + inst, 0))
}

/// Whether a process (name and command line) is the game of `instance`.
pub fn identity_matches(process_name: &str, cmd_line: &str, instance: &str) -> (r: bool)
    ensures
        r == identity(process_name@, cmd_line@, instance@),
{
    let base = text::ascii_lower_str(process_name);
    let b = base.as_slice();
    let j = text::chars_of("java");
    let jw = text::chars_of("javaw");
    let je = text::chars_of("java.exe");
    let jwe = text::chars_of("javaw.exe");
    let is_java = text::seq_eq(b, j.as_slice()) || text::seq_eq(b, jw.as_slice()) || text::seq_eq(
        b,
        je.as_slice(),
    ) || text::seq_eq(b, jwe.as_slice());
    if !is_java {
        return false;
    }
    let cmd = text::ascii_lower_str(cmd_line);
    let inst = text::ascii_lower_str(instance);
    let mut win = text::chars_of("instances\\");
    let mut nix = text::chars_of("instances/");
    proof {
        reveal_strlit("instances\\");
        reveal_strlit("instances/");
    }
    let ghost w0 = win@;
    let ghost n0 = nix@;
    let mut k: usize = 0;
    while k < inst.len()
        invariant
            k <= inst@.len(),
            win@ == w0 + inst@.take(k as int),
            nix@ == n0 + inst@.take(k as int),
        decreases inst@.len() - k,
    {
        win.push(inst[k]);
        nix.push(inst[k]);
        assert(inst@.take(k + 1) =~= inst@.take(k as int).push(inst@[k as int]));
        assert(w0 + inst@.take(k + 1) =~= (w0 + inst@.take(k as int)).push(inst@[k as int]));
        assert(n0 + inst@.take(k + 1) =~= (n0 + inst@.take(k as int)).push(inst@[k as int]));
        k += 1;
    }
    assert(inst@.take(k as int) =~= inst@);
    contains_path_segment(cmd.as_slice(), win.as_slice()) || contains_path_segment(cmd.as_slice(), nix.as_slice())
}

} // verus!
