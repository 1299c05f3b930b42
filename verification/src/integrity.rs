//! Integrity checks of an instance's files: which libraries are checked
//! against their published SHA-1, where asset objects live, and the marker
//! that records a verified asset index.
use vstd::prelude::*;
use crate::text;
use crate::paths;
use crate::digest;
use crate::modpack;
use crate::launch_args::{self, Rule};

verus! {

/// Whether a file's contents (`None` when it cannot be read) match a
/// published SHA-1 (lower-case hex).
pub open spec fn sha1_ok(bytes: Option<Seq<u8>>, expected: Seq<char>) -> bool {
    match bytes {
        Some(b) => modpack::hex_of(digest::sha1_of(b)) == expected,
        None => false,
    }
}

/// Checks a file's contents against its published SHA-1.
pub fn file_matches_sha1(bytes: Option<&[u8]>, expected: &str) -> (r: bool)
    ensures
        r == sha1_ok(match bytes {
            Some(b) => Some(b@),
            None => None,
        }, expected@),
{
    match bytes {
        Some(b) => {
            let h = digest::sha1_hex(b);
            text::str_eq(h.as_str(), expected)
        },
        None => false,
    }
}

/// A file whose contents were written from a download that matched its
/// published SHA-1 passes the check again, so a second import or repair
/// fetches nothing for it; a file that cannot be read never passes.
pub proof fn law_verified_file_passes_again(contents: Seq<u8>, published: Seq<char>)
    requires
        published == modpack::hex_of(digest::sha1_of(contents)),
    ensures
        sha1_ok(Some(contents), published),
        !sha1_ok(None, published),
{
}

/// What the integrity check reads of a library of a version file.
#[derive(Debug, Clone)]
pub struct LibraryEntry {
    pub name: String,
    pub rules: Option<Vec<Rule>>,
    /// URL and SHA-1 of the library's artifact, when it has one.
    pub artifact: Option<(String, String)>,
}

/// A library is checked when its rules allow it on `os` and its artifact
/// has a URL and a SHA-1.
pub open spec fn library_checked(l: LibraryEntry, os: Seq<char>) -> bool {
    &&& match l.rules {
        Some(rs) => launch_args::rules_allow(rs@.map_values(|x: Rule| launch_args::rule_view(x)), os),
        None => true,
    }
    &&& l.artifact matches Some(a) && a.0@.len() != 0 && a.1@.len() != 0
}

/// Whether the integrity check verifies a library on `os`.
pub fn checks_library(l: &LibraryEntry, os: &str) -> (r: bool)
    ensures
        r == library_checked(*l, os@),
{
    let allowed = match &l.rules {
        Some(rs) => launch_args::check_rules(rs, os),
        None => true,
    };
    if !allowed {
        return false;
    }
    match &l.artifact {
        Some(a) => !a.0.as_str().is_empty() && !a.1.as_str().is_empty(),
        None => false,
    }
}

/// The leading characters of `s` that make up its first two UTF-8 bytes,
/// when the second byte ends a character.
pub open spec fn two_byte_prefix(s: Seq<char>) -> Option<Seq<char>> {
    if s.len() >= 1 && text::utf8_len(s[0]) == 2 {
        Some(s.take(1))
    } else if s.len() >= 2 && text::utf8_len(s[0]) == 1 && text::utf8_len(s[1]) == 1 {
        Some(s.take(2))
    } else {
        None
    }
}

proof fn lemma_utf8_bytes_at_least_len(s: Seq<char>)
    ensures
        text::utf8_bytes(s) >= s.len(),
        s.len() == 1 ==> text::utf8_bytes(s) == text::utf8_len(s[0]),
    decreases s.len(),
{
    if s.len() > 0 {
        lemma_utf8_bytes_at_least_len(s.drop_last());
    }
}

/// Where an asset object is stored: under the directory named by the first
/// two bytes of its hash. A hash of fewer than two bytes has no object path;
/// a hash whose second byte falls inside a character is not a path the
/// store can hold and is not accepted.
pub fn asset_object_path(objects_dir: &str, hash: &str) -> (r: Option<String>)
    requires
        text::utf8_bytes(hash@) < 2 || two_byte_prefix(hash@) is Some,
    ensures
        text::utf8_bytes(hash@) < 2 ==> r is None,
        text::utf8_bytes(hash@) >= 2 ==> (r matches Some(p) && p@ == paths::joined(
            paths::joined(objects_dir@, two_byte_prefix(hash@)->0),
            hash@,
        )),
{
    let c = text::chars_of(hash);
    proof {
        lemma_utf8_bytes_at_least_len(hash@);
    }
    if c.len() == 0 || (c.len() == 1 && text::char_utf8_len(c[0]) == 1) {
        return None;
    }
    let n: usize = if text::char_utf8_len(c[0]) == 2 {
        1
    } else {
        2
    };
    let head = text::substring(c.as_slice(), 0, n);
    let dir = paths::join(objects_dir, head.as_str());
    Some(paths::join(dir.as_str(), hash))
}

/// The marker file recording that an asset index was verified.
pub fn verification_marker(assets_dir: &str, index_id: &str) -> (r: String)
    ensures
        r@ == paths::joined(assets_dir@, ".verified-"@ + index_id@),
{
    let name = text::concat2(".verified-", index_id);
    paths::join(assets_dir, name.as_str())
}

/// The text of a verification marker.
pub fn marker_text(checked: u32, now_secs: u64) -> (r: String)
    ensures
        r@ == "verified "@ + text::decimal(checked as nat) + " objects at "@ + text::decimal(now_secs as nat) + "\n"@,
{
    let mut s = "verified ".to_owned();
    let c = text::u64_to_decimal(checked as u64);
    text::push_chars(&mut s, c.as_slice());
    text::push_str(&mut s, " objects at ");
    let n = text::u64_to_decimal(now_secs);
    text::push_chars(&mut s, n.as_slice());
    text::push_str(&mut s, "\n");
    s
}

} // verus!
