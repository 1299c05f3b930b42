//! Modrinth content kinds, search hits and query encoding.
use vstd::prelude::*;
use crate::text;
use vstd::string::StringSliceAdditionalSpecFns;

verus! {

pub const MODRINTH_API: &'static str = "https://api.modrinth.com/v2";

/// Kinds of content that can be searched and installed.
#[derive(Debug, Clone, Copy, PartialEq, Eq, Structural)]
pub enum ContentKind {
    Mod,
    ResourcePack,
    Shader,
}

pub open spec fn project_type_of(k: ContentKind) -> Seq<char> {
    match k {
        ContentKind::Mod => "mod"@,
        ContentKind::ResourcePack => "resourcepack"@,
        ContentKind::Shader => "shader"@,
    }
}

pub open spec fn instance_dir_of(k: ContentKind) -> Seq<char> {
    match k {
        ContentKind::Mod => "mods"@,
        ContentKind::ResourcePack => "resourcepacks"@,
        ContentKind::Shader => "shaderpacks"@,
    }
}

impl ContentKind {
    /// The Modrinth project type of this kind.
    pub fn project_type(&self) -> (r: &'static str)
        ensures
            r@ == project_type_of(*self),
    {
        match self {
            ContentKind::Mod => "mod",
            ContentKind::ResourcePack => "resourcepack",
            ContentKind::Shader => "shader",
        }
    }

    /// The instance sub-directory this kind is installed into.
    pub fn instance_dir(&self) -> (r: &'static str)
        ensures
            r@ == instance_dir_of(*self),
    {
        match self {
            ContentKind::Mod => "mods",
            ContentKind::ResourcePack => "resourcepacks",
            ContentKind::Shader => "shaderpacks",
        }
    }
}

/// One search result.
#[derive(Debug, Clone)]
pub struct SearchHit {
    pub project_id: String,
    pub slug: String,
    pub title: String,
    pub description: String,
    pub downloads: u64,
    pub icon_url: String,
    pub latest_version: String,
}

/// Bytes sent unescaped: ASCII letters, digits, `-`, `_`, `.` and `~`.
pub open spec fn unreserved(b: u8) -> bool {
    (65 <= b <= 90) || (97 <= b <= 122) || (48 <= b <= 57) || b == 45 || b == 95 || b == 46 || b == 126
}

/// Upper-case hex digit of `d < 16`.
pub open spec fn hex_upper(d: u8) -> char {
    if d < 10 {
        (48 + d) as char
    } else {
        (55 + d) as char
    }
}

pub open spec fn encode_byte(b: u8) -> Seq<char> {
    if unreserved(b) {
        seq![b as char]
    } else {
        seq!['%', hex_upper(b / 16), hex_upper(b % 16)]
    }
}

/// Percent-encoding of a byte string.
pub open spec fn url_encoded(bs: Seq<u8>) -> Seq<char>
    decreases bs.len(),
{
    if bs.len() == 0 {
        Seq::empty()
    } else {
        url_encoded(bs.drop_last()) + encode_byte(bs.last())
    }
}

fn hex_digit(d: u8) -> (c: char)
    requires
        d < 16,
    ensures
        c == hex_upper(d),
{
    if d < 10 {
        (48 + d) as char
    } else {
        (55 + d) as char
    }
}

/// Percent-encodes the UTF-8 bytes of `s` for a query string.
pub fn urlencoded(s: &str) -> (r: String)
    ensures
        r@ == url_encoded(s.spec_bytes()),
{
    let bytes = s.as_bytes();
    let mut out: Vec<char> = Vec::new();
    let mut i: usize = 0;
    assert(bytes@.take(0) =~= Seq::<u8>::empty());
    while i < bytes.len()
        invariant
            i <= bytes@.len(),
            bytes@ == s.spec_bytes(),
            out@ == url_encoded(bytes@.take(i as int)),
        decreases bytes@.len() - i,
    {
        let b = bytes[i];
        assert(bytes@.take(i + 1).drop_last() =~= bytes@.take(i as int));
        assert(bytes@.take(i + 1).last() == b);
        let ghost before = out@;
        if (65 <= b && b <= 90) || (97 <= b && b <= 122) || (48 <= b && b <= 57) || b == 45 || b == 95 || b == 46
            || b == 126 {
            out.push(b as char);
        } else {
            out.push('%');
            out.push(hex_digit(b / 16));
            out.push(hex_digit(b % 16));
        }
        assert(out@ =~= before + encode_byte(b));
        i += 1;
    }
    assert(bytes@.take(i as int) =~= bytes@);
    text::string_of(out.as_slice())
}

} // verus!
