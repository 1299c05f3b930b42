//! Maven coordinates `group:artifact:version[:classifier]` and the paths and
//! URLs of their jars.
use vstd::prelude::*;
use crate::text;
use crate::paths;

verus! {

/// The text before the first `@` (a packaging suffix such as `@jar`).
pub open spec fn before_at(s: Seq<char>) -> Seq<char> {
    match text::split_once(s, '@') {
        Some(p) => p.0,
        None => s,
    }
}

/// The parts of a coordinate: (group path with `/` for `.`, artifact,
/// version, jar file name). With `strip_type`, `@type` suffixes of the
/// version and classifier are dropped. Needs at least three `:` fields.
pub open spec fn coordinate(name: Seq<char>, strip_type: bool) -> Option<(Seq<char>, Seq<char>, Seq<char>, Seq<char>)> {
    let parts = text::split_char(name, ':');
    if parts.len() < 3 {
        None
    } else {
        let version = if strip_type {
            before_at(parts[2])
        } else {
            parts[2]
        };
        let jar = if parts.len() > 3 {
            parts[1] + "-"@ + version + "-"@ + (if strip_type {
                before_at(parts[3])
            } else {
                parts[3]
            }) + ".jar"@
        } else {
            parts[1] + "-"@ + version + ".jar"@
        };
        Some((text::replace_char(parts[0], '.', "/"@), parts[1], version, jar))
    }
}

/// `group/artifact/version/jar` of a coordinate.
pub open spec fn relative_path(c: (Seq<char>, Seq<char>, Seq<char>, Seq<char>)) -> Seq<char> {
    c.0 + "/"@ + c.1 + "/"@ + c.2 + "/"@ + c.3
}

/// `s` without its trailing copies of `c`.
pub open spec fn trim_end_char(s: Seq<char>, c: char) -> Seq<char> {
    s.take(text::back_char_from(s, c, s.len() as int))
}

/// `str::trim_end_matches` with a single character, on a slice.
pub fn trim_end_char_seq(s: &[char], c: char) -> (r: Vec<char>)
    ensures
        r@ == trim_end_char(s@, c),
{
    let mut j = s.len();
    while j > 0 && s[j - 1] == c
        invariant
            j <= s@.len(),
            text::back_char_from(s@, c, j as int) == text::back_char_from(s@, c, s@.len() as int),
        decreases j,
    {
        j -= 1;
    }
    text::slice_range(s, 0, j)
}

fn before_at_seq(s: &[char]) -> (r: Vec<char>)
    ensures
        r@ == before_at(s@),
{
    match text::split_once_seq(s, '@') {
        Some((a, _)) => a,
        None => text::slice_range(s, 0, s.len()),
    }
}

fn cat(parts: &[&[char]]) -> (r: Vec<char>)
    ensures
        r@ == parts@.fold_left(Seq::<char>::empty(), |acc: Seq<char>, p: &[char]| acc + p@),
{
    let mut out: Vec<char> = Vec::new();
    let mut i: usize = 0;
    assert(parts@.take(0).fold_left(Seq::<char>::empty(), |acc: Seq<char>, p: &[char]| acc + p@) =~= Seq::<char>::empty());
    while i < parts.len()
        invariant
            i <= parts@.len(),
            out@ == parts@.take(i as int).fold_left(Seq::<char>::empty(), |acc: Seq<char>, p: &[char]| acc + p@),
        decreases parts@.len() - i,
    {
        let p = parts[i];
        let mut j: usize = 0;
        let ghost before = out@;
        while j < p.len()
            invariant
                j <= p@.len(),
                out@ == before + p@.take(j as int),
            decreases p@.len() - j,
        {
            out.push(p[j]);
            assert(before + p@.take(j + 1) =~= (before + p@.take(j as int)).push(p@[j as int]));
            j += 1;
        }
        assert(p@.take(j as int) =~= p@);
        assert(parts@.take(i + 1).drop_last() =~= parts@.take(i as int));
        i += 1;
    }
    assert(parts@.take(i as int) =~= parts@);
    out
}

/// The parts of a coordinate, as strings.
pub fn coordinate_parts(name: &str, strip_type: bool) -> (r: Option<(String, String, String, String)>)
    ensures
        match r {
            Some(t) => coordinate(name@, strip_type) == Some((t.0@, t.1@, t.2@, t.3@)),
            None => coordinate(name@, strip_type) is None,
        },
{
    let chars = text::chars_of(name);
    let parts = text::split_char_seq(chars.as_slice(), ':');
    if parts.len() < 3 {
        return None;
    }
    let ghost pv = text::split_char(name@, ':');
    assert(parts@[0]@ == pv[0] && parts@[1]@ == pv[1] && parts@[2]@ == pv[2]);
    let version = if strip_type {
        before_at_seq(parts[2].as_slice())
    } else {
        text::slice_range(parts[2].as_slice(), 0, parts[2].len())
    };
    assert(version@ =~= if strip_type { before_at(pv[2]) } else { pv[2] });
    let dash = vec!['-'];
    let dotjar = text::chars_of(".jar");
    let jar = if parts.len() > 3 {
        assert(parts@[3]@ == pv[3]);
        let cls = if strip_type {
            before_at_seq(parts[3].as_slice())
        } else {
            text::slice_range(parts[3].as_slice(), 0, parts[3].len())
        };
        assert(cls@ =~= if strip_type { before_at(pv[3]) } else { pv[3] });
        let pieces: [&[char]; 6] = [
            parts[1].as_slice(),
            dash.as_slice(),
            version.as_slice(),
            dash.as_slice(),
            cls.as_slice(),
            dotjar.as_slice(),
        ];
        let r = cat(&pieces);
        proof {
            reveal_with_fuel(Seq::fold_left, 7);
            assert(dash@ =~= "-"@) by { reveal_strlit("-"); }
        }
        assert(r@ =~= pv[1] + "-"@ + version@ + "-"@ + cls@ + ".jar"@);
        r
    } else {
        let pieces: [&[char]; 4] = [parts[1].as_slice(), dash.as_slice(), version.as_slice(), dotjar.as_slice()];
        let r = cat(&pieces);
        proof {
            reveal_with_fuel(Seq::fold_left, 5);
            assert(dash@ =~= "-"@) by { reveal_strlit("-"); }
        }
        assert(r@ =~= pv[1] + "-"@ + version@ + ".jar"@);
        r
    };
    let slash = text::chars_of("/");
    let group = text::replace_char_seq(parts[0].as_slice(), '.', slash.as_slice());
    Some(
        (
            text::string_of(group.as_slice()),
            text::string_of(parts[1].as_slice()),
            text::string_of(version.as_slice()),
            text::string_of(jar.as_slice()),
        ),
    )
}

/// `group/artifact/version/jar` relative path of a library coordinate, or
/// an error naming a malformed coordinate.
pub fn library_name_to_path(library_name: &str, strip_type: bool) -> (r: Result<String, String>)
    ensures
        match coordinate(library_name@, strip_type) {
            Some(c) => r matches Ok(p) && p@ == relative_path(c),
            None => r matches Err(e) && e@ == "Invalid library name format: "@ + library_name@,
        },
{
    match coordinate_parts(library_name, strip_type) {
        Some((g, a, v, j)) => {
            let mut s = g;
            text::push_str(&mut s, "/");
            text::push_str(&mut s, a.as_str());
            text::push_str(&mut s, "/");
            text::push_str(&mut s, v.as_str());
            text::push_str(&mut s, "/");
            text::push_str(&mut s, j.as_str());
            Ok(s)
        },
        None => Err(text::concat2("Invalid library name format: ", library_name)),
    }
}

/// Where a library lives under `libraries_dir`: its coordinate path, or
/// the name itself joined on when it is no coordinate.
pub open spec fn library_path(name: Seq<char>, libraries_dir: Seq<char>) -> Seq<char> {
    match coordinate(name, true) {
        Some(c) => paths::joined(paths::joined(paths::joined(paths::joined(libraries_dir, c.0), c.1), c.2), c.3),
        None => paths::joined(libraries_dir, name),
    }
}

/// The path of a library jar under the libraries directory.
pub fn get_library_path_from_name(name: &str, libraries_dir: &str) -> (r: String)
    ensures
        r@ == library_path(name@, libraries_dir@),
{
    match coordinate_parts(name, true) {
        Some((g, a, v, j)) => {
            let p1 = paths::join(libraries_dir, g.as_str());
            let p2 = paths::join(p1.as_str(), a.as_str());
            let p3 = paths::join(p2.as_str(), v.as_str());
            paths::join(p3.as_str(), j.as_str())
        },
        None => paths::join(libraries_dir, name),
    }
}

/// The download URL of a library in a Maven repository: the repository
/// root without trailing `/`, then the coordinate path; empty for a
/// malformed coordinate.
pub open spec fn artifact_url(name: Seq<char>, base_url: Seq<char>) -> Seq<char> {
    match coordinate(name, true) {
        Some(c) => trim_end_char(base_url, '/') + "/"@ + relative_path(c),
        None => Seq::empty(),
    }
}

/// The download URL of a library from its coordinate and repository root.
pub fn maven_artifact_url(name: &str, base_url: &str) -> (r: String)
    ensures
        r@ == artifact_url(name@, base_url@),
{
    match library_name_to_path(name, true) {
        Ok(rel) => {
            let b = text::chars_of(base_url);
            let t = trim_end_char_seq(b.as_slice(), '/');
            let mut s = text::string_of(t.as_slice());
            text::push_str(&mut s, "/");
            text::push_str(&mut s, rel.as_str());
            s
        },
        Err(_) => String::new(),
    }
}

} // verus!
