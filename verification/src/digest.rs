//! Digests: SHA-1 and SHA-256 of byte strings and their hex form, checksum
//! listings (`SHA256SUMS.txt`), digest checks of downloads, and RCON
//! passwords derived from a digest.
use vstd::prelude::*;
use crate::text;
use crate::modpack;

verus! {

/// The SHA-1 digest of `data`, as the `sha1` crate computes it.
pub uninterp spec fn sha1_of(data: Seq<u8>) -> Seq<u8>;

/// The SHA-256 digest of `data`, as the `sha2` crate computes it.
pub uninterp spec fn sha256_of(data: Seq<u8>) -> Seq<u8>;

/// `sha1::Sha1::digest`: the digest of `data`, 20 bytes (the output size of
/// `Sha1Core` is `U20`). Its value is named, not described.
#[verifier::external_body]
fn sha1_digest(data: &[u8]) -> (d: Vec<u8>)
    ensures
        d@ == sha1_of(data@),
        d@.len() == 20,
{
    <sha1::Sha1 as sha1::Digest>::digest(data).to_vec()
}

/// `sha2::Sha256::digest`: the digest of `data`, 32 bytes (`Sha256` is
/// declared with output size `U32`). Its value is named, not described.
#[verifier::external_body]
fn sha256_digest(data: &[u8]) -> (d: Vec<u8>)
    ensures
        d@ == sha256_of(data@),
        d@.len() == 32,
{
    <sha2::Sha256 as sha2::Digest>::digest(data).to_vec()
}

/// Lower-case hex of the SHA-1 digest of `data`.
pub fn sha1_hex(data: &[u8]) -> (r: String)
    ensures
        r@ == modpack::hex_of(sha1_of(data@)),
        r@.len() == 40,
{
    let d = sha1_digest(data);
    proof { lemma_hex_len(d@); }
    modpack::encode(d.as_slice())
}

/// Lower-case hex of the SHA-256 digest of `data`.
pub fn sha256_hex(data: &[u8]) -> (r: String)
    ensures
        r@ == modpack::hex_of(sha256_of(data@)),
        r@.len() == 64,
{
    let d = sha256_digest(data);
    proof { lemma_hex_len(d@); }
    modpack::encode(d.as_slice())
}

pub proof fn lemma_hex_len(bs: Seq<u8>)
    ensures
        modpack::hex_of(bs).len() == 2 * bs.len(),
        forall|i: int| 0 <= i < modpack::hex_of(bs).len() ==> is_lower_hex(#[trigger] modpack::hex_of(bs)[i]),
    decreases bs.len(),
{
    if bs.len() > 0 {
        lemma_hex_len(bs.drop_last());
        let b = bs.last();
        assert(b / 16 < 16 && b % 16 < 16);
        let h = modpack::hex_of(bs);
        let p = modpack::hex_of(bs.drop_last());
        assert forall|i: int| 0 <= i < h.len() implies is_lower_hex(#[trigger] h[i]) by {
            if i < p.len() {
                assert(h[i] == p[i]);
            }
        }
    }
}

/// A lower-case hex digit.
pub open spec fn is_lower_hex(c: char) -> bool {
    ('0' <= c && c <= '9') || ('a' <= c && c <= 'f')
}

// ---------------------------------------------------------------------------
// RCON passwords
// ---------------------------------------------------------------------------

/// The RCON password derived from `seed`: the hex of the first 12 bytes of
/// its SHA-1 digest (24 lower-case hex digits).
pub open spec fn rcon_password_of(seed: Seq<u8>) -> Seq<char> {
    modpack::hex_of(sha1_of(seed).take(12))
}

/// An RCON password from an entropy seed (the caller gathers the time, the
/// process id and a counter).
pub fn rcon_password_from(seed: &[u8]) -> (r: String)
    ensures
        r@ == rcon_password_of(seed@),
        r@.len() == 24,
        forall|i: int| 0 <= i < r@.len() ==> is_lower_hex(#[trigger] r@[i]),
{
    let d = sha1_digest(seed);
    let mut head: Vec<u8> = Vec::new();
    let mut i: usize = 0;
    while i < 12
        invariant
            i <= 12,
            d@.len() == 20,
            head@ == d@.take(i as int),
        decreases 12 - i,
    {
        head.push(d[i]);
        assert(head@ =~= d@.take(i + 1));
        i += 1;
    }
    proof { lemma_hex_len(head@); }
    modpack::encode(head.as_slice())
}

// ---------------------------------------------------------------------------
// Download checks
// ---------------------------------------------------------------------------

/// Whether a downloaded file matches its published digest: no digest
/// passes; otherwise `sha256:<hex>` or `<hex>`, compared with the file's
/// SHA-256 hex ignoring ASCII case.
pub open spec fn digest_ok(bytes: Seq<u8>, digest: Option<Seq<char>>) -> bool {
    match digest {
        None => true,
        Some(d) => {
            let hex = match text::strip_prefix(d, "sha256:"@) {
                Some(h) => h,
                None => d,
            };
            text::ascii_lower(modpack::hex_of(sha256_of(bytes))) == text::ascii_lower(hex)
        },
    }
}

/// Checks a downloaded file against its published digest.
pub fn digest_matches(bytes: &[u8], digest: Option<&str>) -> (r: bool)
    ensures
        r == digest_ok(bytes@, match digest {
            Some(d) => Some(d@),
            None => None,
        }),
{
    match digest {
        None => true,
        Some(d) => {
            let dc = text::chars_of(d);
            let pre = text::chars_of("sha256:");
            let hex = match text::strip_prefix_seq(dc.as_slice(), pre.as_slice()) {
                Some(h) => h,
                None => dc,
            };
            let actual = sha256_hex(bytes);
            let a = text::ascii_lower_str(actual.as_str());
            let e = text::ascii_lower_seq(hex.as_slice());
            text::seq_eq(a.as_slice(), e.as_slice())
        },
    }
}

/// Index of the first whitespace character at or after `i`, or the end.
pub open spec fn skip_non_ws_from(s: Seq<char>, i: int) -> int
    decreases s.len() - i,
{
    if 0 <= i < s.len() && !text::is_ws(s[i]) {
        skip_non_ws_from(s, i + 1)
    } else {
        i
    }
}

/// The first whitespace-separated token of `s` and the text after it (what
/// `split_whitespace().next()` takes), or `None` when `s` is blank.
pub open spec fn next_token(s: Seq<char>) -> Option<(Seq<char>, Seq<char>)> {
    let a = text::skip_ws_from(s, 0);
    if a >= s.len() {
        None
    } else {
        let b = skip_non_ws_from(s, a);
        Some((s.subrange(a, b), s.skip(b)))
    }
}

proof fn lemma_skip_non_ws_from(s: Seq<char>, i: int)
    requires
        0 <= i <= s.len(),
    ensures
        i <= skip_non_ws_from(s, i) <= s.len(),
    decreases s.len() - i,
{
    if i < s.len() && !text::is_ws(s[i]) {
        lemma_skip_non_ws_from(s, i + 1);
    }
}

fn next_token_seq(s: &[char]) -> (r: Option<(Vec<char>, Vec<char>)>)
    ensures
        match next_token(s@) {
            Some((t, rest)) => r matches Some(p) && p.0@ == t && p.1@ == rest,
            None => r is None,
        },
{
    let a = text::skip_ws(s);
    proof { text::lemma_skip_ws_from(s@, 0); }
    if a >= s.len() {
        return None;
    }
    let mut b = a;
    while b < s.len() && !text::char_is_ws(s[b])
        invariant
            a <= b <= s@.len(),
            skip_non_ws_from(s@, b as int) == skip_non_ws_from(s@, a as int),
        decreases s@.len() - b,
    {
        b += 1;
    }
    let t = text::slice_range(s, a, b);
    let rest = text::slice_range(s, b, s.len());
    assert(rest@ =~= s@.skip(b as int));
    Some((t, rest))
}

/// The entry of a `SHA256SUMS.txt` line for `asset`: the lower-cased hash
/// when the line's second token, without leading `*`, names the asset.
pub open spec fn line_entry(line: Seq<char>, asset: Seq<char>) -> Option<Seq<char>> {
    match next_token(line) {
        Some((hash, rest)) => match next_token(rest) {
            Some((file, _)) => if text::trim_start_char(file, '*') == asset {
                Some(text::spec_to_lowercase(hash))
            } else {
                None
            },
            None => None,
        },
        None => None,
    }
}

/// The entry of the first line that names `asset`.
pub open spec fn sums_entry(lines: Seq<Seq<char>>, asset: Seq<char>) -> Option<Seq<char>>
    decreases lines.len(),
{
    if lines.len() == 0 {
        None
    } else {
        match line_entry(lines[0], asset) {
            Some(h) => Some(h),
            None => sums_entry(lines.skip(1), asset),
        }
    }
}

/// The expected (lower-cased) SHA-256 of `asset_name` in the text of a
/// `SHA256SUMS.txt` listing, if the listing names it.
pub fn expected_sha256(listing: &str, asset_name: &str) -> (r: Option<String>)
    ensures
        r.deep_view() == sums_entry(text::lines(listing@), asset_name@),
{
    let ls = text::lines_str(listing);
    let ghost lv = text::lines(listing@);
    let mut i: usize = 0;
    assert(lv.skip(0) =~= lv);
    while i < ls.len()
        invariant
            i <= ls@.len(),
            ls@.len() == lv.len(),
            lv == text::lines(listing@),
            forall|k: int| 0 <= k < ls@.len() ==> #[trigger] ls@[k]@ == lv[k],
            sums_entry(lv, asset_name@) == sums_entry(lv.skip(i as int), asset_name@),
        decreases ls@.len() - i,
    {
        assert(lv.skip(i as int)[0] == lv[i as int]);
        assert(lv.skip(i as int).skip(1) =~= lv.skip(i + 1));
        let l = text::chars_of(ls[i].as_str());
        if let Some((hash, rest)) = next_token_seq(l.as_slice()) {
            if let Some((file, _)) = next_token_seq(rest.as_slice()) {
                let f = text::trim_start_char_seq(file.as_slice(), '*');
                let a = text::chars_of(asset_name);
                if text::seq_eq(f.as_slice(), a.as_slice()) {
                    let h = text::string_of(hash.as_slice());
                    return Some(text::to_lowercase(h.as_str()));
                }
            }
        }
        i += 1;
    }
    None
}

pub open spec fn sha256_mismatch_msg(expected: Seq<char>, actual: Seq<char>) -> Seq<char> {
    "AprismJDK archive failed SHA-256 verification: expected "@ + expected + ", got "@ + actual
}

/// Checks a runtime archive against the hash its release lists.
pub fn check_archive_sha256(bytes: &[u8], expected: &str) -> (r: Result<(), String>)
    ensures
        ({
            let actual = modpack::hex_of(sha256_of(bytes@));
            if actual == expected@ {
                r is Ok
            } else {
                r matches Err(e) && e@ == sha256_mismatch_msg(expected@, actual)
            }
        }),
{
    let actual = sha256_hex(bytes);
    if text::str_eq(actual.as_str(), expected) {
        Ok(())
    } else {
        let mut m = "AprismJDK archive failed SHA-256 verification: expected ".to_owned();
        text::push_str(&mut m, expected);
        text::push_str(&mut m, ", got ");
        text::push_str(&mut m, actual.as_str());
        Err(m)
    }
}

} // verus!
