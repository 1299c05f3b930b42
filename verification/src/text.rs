//! Character-sequence primitives shared by every parser in the crate.
//!
//! Strings are modelled by their views (`Seq<char>`); each executable helper
//! states its result over the spec functions defined here.
use vstd::prelude::*;

verus! {

// ---------------------------------------------------------------------------
// Character classes
// ---------------------------------------------------------------------------

/// Unicode `White_Space` (the class that `char::is_whitespace` tests).
pub open spec fn is_ws(c: char) -> bool {
    ||| ('\u{9}' <= c && c <= '\u{d}')
    ||| c == ' '
    ||| c == '\u{85}'
    ||| c == '\u{a0}'
    ||| c == '\u{1680}'
    ||| ('\u{2000}' <= c && c <= '\u{200a}')
    ||| c == '\u{2028}'
    ||| c == '\u{2029}'
    ||| c == '\u{202f}'
    ||| c == '\u{205f}'
    ||| c == '\u{3000}'
}

/// `char::is_whitespace`.
pub fn char_is_ws(c: char) -> (r: bool)
    ensures
        r == is_ws(c),
{
    ('\u{9}' <= c && c <= '\u{d}') || c == ' ' || c == '\u{85}' || c == '\u{a0}' || c == '\u{1680}'
        || ('\u{2000}' <= c && c <= '\u{200a}') || c == '\u{2028}' || c == '\u{2029}'
        || c == '\u{202f}' || c == '\u{205f}' || c == '\u{3000}'
}

/// Unicode general category `Cc` (the class that `char::is_control` tests).
pub open spec fn is_control(c: char) -> bool {
    c <= '\u{1f}' || ('\u{7f}' <= c && c <= '\u{9f}')
}

pub fn char_is_control(c: char) -> (r: bool)
    ensures
        r == is_control(c),
{
    c <= '\u{1f}' || ('\u{7f}' <= c && c <= '\u{9f}')
}

pub open spec fn is_ascii_digit(c: char) -> bool {
    '0' <= c && c <= '9'
}

pub open spec fn is_ascii_upper(c: char) -> bool {
    'A' <= c && c <= 'Z'
}

pub open spec fn is_ascii_lower(c: char) -> bool {
    'a' <= c && c <= 'z'
}

/// `char::to_ascii_lowercase`.
pub open spec fn lower_char(c: char) -> char {
    if is_ascii_upper(c) {
        ((c as u32) + 32) as char
    } else {
        c
    }
}

pub fn char_to_ascii_lower(c: char) -> (r: char)
    ensures
        r == lower_char(c),
{
    if 'A' <= c && c <= 'Z' {
        let v: u32 = (c as u32) + 32;
        assert(v <= 0x7f);
        proof {
            assert(v as char as u32 == v) by {
                assert(0 <= v <= 0xD7FF);
            }
        }
        #[verifier::truncate]
        let r = v as u8 as char;
        r
    } else {
        c
    }
}

/// `str::to_ascii_lowercase`, character by character.
pub open spec fn ascii_lower(s: Seq<char>) -> Seq<char> {
    s.map_values(|c: char| lower_char(c))
}


// ---------------------------------------------------------------------------
// Conversions between `str`/`String` and character vectors
// ---------------------------------------------------------------------------

/// Collects the characters of a string slice into a vector.
pub fn chars_of(s: &str) -> (v: Vec<char>)
    ensures
        v@ == s@,
{
    let mut v: Vec<char> = Vec::new();
    for c in it: s.chars()
        invariant
            v@ == it.seq().take(it.index() as int),
            it.seq() == s@,
    {
        v.push(c);
    }
    v
}

/// Appends one character to a string (`String::push`).
#[verifier::external_body]
fn push_char(s: &mut String, c: char)
    ensures
        final(s)@ == old(s)@.push(c),
{
    s.push(c);
}

/// Appends characters to a string.
pub fn push_chars(s: &mut String, v: &[char])
    ensures
        final(s)@ == old(s)@ + v@,
{
    let mut i: usize = 0;
    while i < v.len()
        invariant
            i <= v@.len(),
            s@ == old(s)@ + v@.take(i as int),
        decreases v@.len() - i,
    {
        push_char(s, v[i]);
        assert(old(s)@ + v@.take(i as int) + seq![v@[i as int]] =~= old(s)@ + v@.take(i + 1));
        i += 1;
    }
    assert(v@.take(v@.len() as int) =~= v@);
}

/// Appends a string slice to a string.
pub fn push_str(s: &mut String, t: &str)
    ensures
        final(s)@ == old(s)@ + t@,
{
    let v = chars_of(t);
    push_chars(s, v.as_slice());
}

/// Builds a string holding exactly the given characters.
pub fn string_of(v: &[char]) -> (s: String)
    ensures
        s@ == v@,
{
    let mut s = String::new();
    push_chars(&mut s, v);
    assert(Seq::<char>::empty() + v@ =~= v@);
    s
}

/// Copies a sub-range of a character slice.
pub fn slice_range(v: &[char], lo: usize, hi: usize) -> (r: Vec<char>)
    requires
        lo <= hi <= v@.len(),
    ensures
        r@ == v@.subrange(lo as int, hi as int),
{
    let mut r: Vec<char> = Vec::new();
    let mut i = lo;
    while i < hi
        invariant
            lo <= i <= hi <= v@.len(),
            r@ == v@.subrange(lo as int, i as int),
        decreases hi - i,
    {
        r.push(v[i]);
        assert(v@.subrange(lo as int, i as int).push(v@[i as int]) =~= v@.subrange(lo as int, i + 1));
        i += 1;
    }
    r
}

/// The string holding a sub-range of characters.
pub fn substring(v: &[char], lo: usize, hi: usize) -> (r: String)
    requires
        lo <= hi <= v@.len(),
    ensures
        r@ == v@.subrange(lo as int, hi as int),
{
    let t = slice_range(v, lo, hi);
    string_of(t.as_slice())
}

/// Concatenates two string slices into a new string.
pub fn concat2(a: &str, b: &str) -> (r: String)
    ensures
        r@ == a@ + b@,
{
    let mut r = String::new();
    push_str(&mut r, a);
    push_str(&mut r, b);
    assert(Seq::<char>::empty() + a@ + b@ =~= a@ + b@);
    r
}

// ---------------------------------------------------------------------------
// Equality, prefixes, suffixes, occurrences
// ---------------------------------------------------------------------------

/// Whether `n` occurs in `h` starting at index `i`.
pub open spec fn occurs_at(h: Seq<char>, n: Seq<char>, i: int) -> bool {
    0 <= i && i + n.len() <= h.len() && h.subrange(i, i + n.len()) == n
}

/// `str::contains` with a string pattern.
pub open spec fn contains(h: Seq<char>, n: Seq<char>) -> bool {
    exists|i: int| occurs_at(h, n, i)
}

/// `str::starts_with`.
pub open spec fn starts_with(s: Seq<char>, p: Seq<char>) -> bool {
    occurs_at(s, p, 0)
}

/// `str::ends_with`.
pub open spec fn ends_with(s: Seq<char>, p: Seq<char>) -> bool {
    p.len() <= s.len() && occurs_at(s, p, s.len() - p.len())
}

/// Whether `n` occurs in `h` at index `i` (checked character by character).
pub fn matches_at(h: &[char], n: &[char], i: usize) -> (r: bool)
    ensures
        r == occurs_at(h@, n@, i as int),
{
    if n.len() > h.len() || i > h.len() - n.len() {
        return false;
    }
    let mut k: usize = 0;
    while k < n.len()
        invariant
            i + n@.len() <= h@.len(),
            k <= n@.len(),
            forall|j: int| 0 <= j < k ==> h@[i + j] == n@[j],
        decreases n@.len() - k,
    {
        assert(i + k < h.len());
        if h[i + k] != n[k] {
            assert(h@.subrange(i as int, i + n@.len())[k as int] != n@[k as int]);
            return false;
        }
        k += 1;
    }
    assert(h@.subrange(i as int, i + n@.len()) =~= n@);
    true
}

/// Slices are equal as sequences.
pub fn seq_eq(a: &[char], b: &[char]) -> (r: bool)
    ensures
        r == (a@ == b@),
{
    if a.len() != b.len() {
        return false;
    }
    let r = matches_at(a, b, 0);
    proof {
        if r {
            assert(a@.subrange(0, b@.len() as int) =~= a@);
        } else {
            if a@ == b@ {
                assert(a@.subrange(0, b@.len() as int) =~= a@);
            }
        }
    }
    r
}

/// String-slice equality.
pub fn str_eq(a: &str, b: &str) -> (r: bool)
    ensures
        r == (a@ == b@),
{
    let va = chars_of(a);
    let vb = chars_of(b);
    seq_eq(va.as_slice(), vb.as_slice())
}

/// First index `>= from` at which `n` occurs in `h`.
pub open spec fn first_occurrence_from(h: Seq<char>, n: Seq<char>, from: int) -> Option<int>
    decreases h.len() + 1 - from,
{
    if from < 0 || from + n.len() > h.len() {
        None
    } else if occurs_at(h, n, from) {
        Some(from)
    } else {
        first_occurrence_from(h, n, from + 1)
    }
}

/// `str::find` with a string pattern.
pub open spec fn find(h: Seq<char>, n: Seq<char>) -> Option<int> {
    first_occurrence_from(h, n, 0)
}

pub proof fn lemma_first_occurrence_from(h: Seq<char>, n: Seq<char>, from: int)
    requires
        0 <= from,
    ensures
        first_occurrence_from(h, n, from) matches Some(i) ==> from <= i && occurs_at(h, n, i)
            && forall|j: int| from <= j < i ==> !occurs_at(h, n, j),
        first_occurrence_from(h, n, from) is None ==> forall|j: int|
            from <= j ==> !occurs_at(h, n, j),
    decreases h.len() + 1 - from,
{
    if from + n.len() > h.len() {
    } else if occurs_at(h, n, from) {
    } else {
        lemma_first_occurrence_from(h, n, from + 1);
    }
}

/// First occurrence of `n` in `h` at or after `from`.
pub fn find_from(h: &[char], n: &[char], from: usize) -> (r: Option<usize>)
    ensures
        r matches Some(i) ==> first_occurrence_from(h@, n@, from as int) == Some(i as int),
        r is None ==> first_occurrence_from(h@, n@, from as int) is None,
{
    if n.len() > h.len() {
        return None;
    }
    let last = h.len() - n.len();
    let mut i = from;
    while i <= last
        invariant
            from <= i,
            last + n@.len() == h@.len(),
            first_occurrence_from(h@, n@, i as int) == first_occurrence_from(h@, n@, from as int),
        decreases last + 1 - i,
    {
        if matches_at(h, n, i) {
            return Some(i);
        }
        if i == last {
            assert(first_occurrence_from(h@, n@, i + 1) is None);
            return None;
        }
        i += 1;
    }
    None
}

/// Whether `n` occurs anywhere in `h`.
pub fn contains_seq(h: &[char], n: &[char]) -> (r: bool)
    ensures
        r == contains(h@, n@),
{
    let f = find_from(h, n, 0);
    proof {
        lemma_first_occurrence_from(h@, n@, 0);
    }
    f.is_some()
}

/// `str::contains` with a string pattern.
pub fn str_contains(h: &str, n: &str) -> (r: bool)
    ensures
        r == contains(h@, n@),
{
    let vh = chars_of(h);
    let vn = chars_of(n);
    contains_seq(vh.as_slice(), vn.as_slice())
}

/// `str::starts_with` on character slices.
pub fn starts_with_seq(s: &[char], p: &[char]) -> (r: bool)
    ensures
        r == starts_with(s@, p@),
{
    matches_at(s, p, 0)
}

/// `str::ends_with` on character slices.
pub fn ends_with_seq(s: &[char], p: &[char]) -> (r: bool)
    ensures
        r == ends_with(s@, p@),
{
    if p.len() > s.len() {
        return false;
    }
    matches_at(s, p, s.len() - p.len())
}

/// `str::strip_prefix`.
pub open spec fn strip_prefix(s: Seq<char>, p: Seq<char>) -> Option<Seq<char>> {
    if starts_with(s, p) {
        Some(s.skip(p.len() as int))
    } else {
        None
    }
}

/// `str::strip_suffix`.
pub open spec fn strip_suffix(s: Seq<char>, p: Seq<char>) -> Option<Seq<char>> {
    if ends_with(s, p) {
        Some(s.take(s.len() - p.len()))
    } else {
        None
    }
}

pub open spec fn opt_view(o: Option<Vec<char>>) -> Option<Seq<char>> {
    match o {
        Some(v) => Some(v@),
        None => None,
    }
}

/// `str::strip_prefix` on character slices.
pub fn strip_prefix_seq(s: &[char], p: &[char]) -> (r: Option<Vec<char>>)
    ensures
        opt_view(r) == strip_prefix(s@, p@),
{
    if starts_with_seq(s, p) {
        let v = slice_range(s, p.len(), s.len());
        assert(v@ =~= s@.skip(p@.len() as int));
        Some(v)
    } else {
        None
    }
}

/// `str::strip_suffix` on character slices.
pub fn strip_suffix_seq(s: &[char], p: &[char]) -> (r: Option<Vec<char>>)
    ensures
        opt_view(r) == strip_suffix(s@, p@),
{
    if ends_with_seq(s, p) {
        let v = slice_range(s, 0, s.len() - p.len());
        assert(v@ =~= s@.take(s@.len() - p@.len()));
        Some(v)
    } else {
        None
    }
}

/// `str::trim_start_matches` with a non-empty string pattern: every leading
/// copy of `p` removed.
pub open spec fn trim_start_str(s: Seq<char>, p: Seq<char>) -> Seq<char>
    decreases s.len(),
{
    if p.len() > 0 && starts_with(s, p) {
        trim_start_str(s.skip(p.len() as int), p)
    } else {
        s
    }
}

/// `str::trim_start_matches` with a non-empty string pattern, on slices.
pub fn trim_start_str_seq(s: &[char], p: &[char]) -> (r: Vec<char>)
    requires
        p@.len() > 0,
    ensures
        r@ == trim_start_str(s@, p@),
{
    let mut cur = slice_range(s, 0, s.len());
    assert(cur@ =~= s@);
    loop
        invariant
            p@.len() > 0,
            trim_start_str(cur@, p@) == trim_start_str(s@, p@),
        decreases cur@.len(),
    {
        match strip_prefix_seq(cur.as_slice(), p) {
            Some(rest) => {
                cur = rest;
            },
            None => {
                return cur;
            },
        }
    }
}

/// `str::replace` with a non-empty pattern: every non-overlapping
/// occurrence of `pat`, leftmost first, replaced by `rep`.
pub open spec fn replace_str(s: Seq<char>, pat: Seq<char>, rep: Seq<char>) -> Seq<char>
    decreases s.len(),
{
    if pat.len() == 0 {
        s
    } else {
        match find(s, pat) {
            Some(i) => if 0 <= i && i + pat.len() <= s.len() {
                s.take(i) + rep + replace_str(s.skip(i + pat.len()), pat, rep)
            } else {
                s
            },
            None => s,
        }
    }
}

/// `str::replace` with a non-empty pattern, on character slices.
pub fn replace_str_seq(s: &[char], pat: &[char], rep: &[char]) -> (r: Vec<char>)
    requires
        pat@.len() > 0,
    ensures
        r@ == replace_str(s@, pat@, rep@),
{
    let mut out: Vec<char> = Vec::new();
    let mut start: usize = 0;
    assert(s@.skip(0) =~= s@);
    assert(out@ + replace_str(s@.skip(0), pat@, rep@) =~= replace_str(s@, pat@, rep@));
    while start <= s.len()
        invariant
            start <= s@.len(),
            pat@.len() > 0,
            out@ + replace_str(s@.skip(start as int), pat@, rep@) == replace_str(s@, pat@, rep@),
        decreases s@.len() - start,
    {
        let ghost rest = s@.skip(start as int);
        match find_from(s, pat, start) {
            Some(i) => {
                proof {
                    lemma_first_occurrence_from(s@, pat@, start as int);
                    lemma_first_occurrence_from(rest, pat@, 0);
                    let j = i - start;
                    assert(occurs_at(rest, pat@, j)) by {
                        assert(rest.subrange(j, j + pat@.len()) =~= s@.subrange(i as int, i + pat@.len()));
                    }
                    assert forall|m: int| 0 <= m < j implies !occurs_at(rest, pat@, m) by {
                        if occurs_at(rest, pat@, m) {
                            assert(rest.subrange(m, m + pat@.len()) =~= s@.subrange(start + m, start + m + pat@.len()));
                            assert(occurs_at(s@, pat@, start + m));
                        }
                    }
                    if let Some(k) = find(rest, pat@) {
                        if k < j {
                            assert(!occurs_at(rest, pat@, k));
                        }
                        if k > j {
                            assert(occurs_at(rest, pat@, j));
                        }
                    }
                    assert(rest.take(j) =~= s@.subrange(start as int, i as int));
                    assert(rest.skip(j + pat@.len()) =~= s@.skip(i + pat@.len()));
                }
                let ghost before = out@;
                let mut k = start;
                while k < i
                    invariant
                        start <= k <= i,
                        i <= s@.len(),
                        out@ == before + s@.subrange(start as int, k as int),
                    decreases i - k,
                {
                    out.push(s[k]);
                    assert(before + s@.subrange(start as int, k + 1) =~= (before + s@.subrange(start as int, k as int)).push(
                        s@[k as int],
                    ));
                    k += 1;
                }
                let ghost mid = out@;
                let mut q: usize = 0;
                while q < rep.len()
                    invariant
                        q <= rep@.len(),
                        out@ == mid + rep@.take(q as int),
                    decreases rep@.len() - q,
                {
                    out.push(rep[q]);
                    assert(mid + rep@.take(q + 1) =~= (mid + rep@.take(q as int)).push(rep@[q as int]));
                    q += 1;
                }
                assert(rep@.take(q as int) =~= rep@);
                proof {
                    let j = i - start;
                    assert(out@ + replace_str(s@.skip(i + pat@.len()), pat@, rep@) =~= before + (rest.take(j) + rep@
                        + replace_str(rest.skip(j + pat@.len()), pat@, rep@)));
                }
                start = i + pat.len();
            },
            None => {
                proof {
                    lemma_first_occurrence_from(s@, pat@, start as int);
                    if let Some(k) = find(rest, pat@) {
                        lemma_first_occurrence_from(rest, pat@, 0);
                        assert(rest.subrange(k, k + pat@.len()) =~= s@.subrange(start + k, start + k + pat@.len()));
                        assert(occurs_at(s@, pat@, start + k));
                    }
                }
                let ghost before = out@;
                let mut k = start;
                while k < s.len()
                    invariant
                        start <= k <= s@.len(),
                        out@ == before + s@.subrange(start as int, k as int),
                    decreases s@.len() - k,
                {
                    out.push(s[k]);
                    assert(before + s@.subrange(start as int, k + 1) =~= (before + s@.subrange(start as int, k as int)).push(
                        s@[k as int],
                    ));
                    k += 1;
                }
                assert(s@.subrange(start as int, k as int) =~= rest);
                return out;
            },
        }
    }
    out
}

/// Whether the character `c` occurs in `s`.
pub fn contains_char(s: &[char], c: char) -> (r: bool)
    ensures
        r == s@.contains(c),
{
    let mut i: usize = 0;
    while i < s.len()
        invariant
            i <= s@.len(),
            forall|j: int| 0 <= j < i ==> s@[j] != c,
        decreases s@.len() - i,
    {
        if s[i] == c {
            assert(s@[i as int] == c);
            return true;
        }
        i += 1;
    }
    false
}

// ---------------------------------------------------------------------------
// Character-delimited splitting
// ---------------------------------------------------------------------------

/// Index of the first occurrence of `c` in `s`.
pub open spec fn first_char_from(s: Seq<char>, c: char, from: int) -> Option<int>
    decreases s.len() - from,
{
    if from < 0 || from >= s.len() {
        None
    } else if s[from] == c {
        Some(from)
    } else {
        first_char_from(s, c, from + 1)
    }
}

/// Index of the last occurrence of `c` in `s.take(upto)`.
pub open spec fn last_char_before(s: Seq<char>, c: char, upto: int) -> Option<int>
    decreases upto,
{
    if upto <= 0 || upto > s.len() {
        None
    } else if s[upto - 1] == c {
        Some(upto - 1)
    } else {
        last_char_before(s, c, upto - 1)
    }
}

pub proof fn lemma_first_char_from(s: Seq<char>, c: char, from: int)
    requires
        0 <= from,
    ensures
        first_char_from(s, c, from) matches Some(i) ==> from <= i < s.len() && s[i] == c
            && forall|j: int| from <= j < i ==> s[j] != c,
        first_char_from(s, c, from) is None ==> forall|j: int| from <= j < s.len() ==> s[j] != c,
    decreases s.len() - from,
{
    if from < s.len() && s[from] != c {
        lemma_first_char_from(s, c, from + 1);
    }
}

pub proof fn lemma_last_char_before(s: Seq<char>, c: char, upto: int)
    requires
        upto <= s.len(),
    ensures
        last_char_before(s, c, upto) matches Some(i) ==> 0 <= i < upto && s[i] == c
            && forall|j: int| i < j < upto ==> s[j] != c,
        last_char_before(s, c, upto) is None ==> forall|j: int| 0 <= j < upto ==> s[j] != c,
    decreases upto,
{
    if upto > 0 && s[upto - 1] != c {
        lemma_last_char_before(s, c, upto - 1);
    }
}

/// First index of `c` in `s` at or after `from`.
pub fn find_char_from(s: &[char], c: char, from: usize) -> (r: Option<usize>)
    ensures
        r matches Some(i) ==> first_char_from(s@, c, from as int) == Some(i as int),
        r is None ==> first_char_from(s@, c, from as int) is None,
{
    let mut i = from;
    while i < s.len()
        invariant
            from <= i,
            first_char_from(s@, c, i as int) == first_char_from(s@, c, from as int),
        decreases s@.len() - i,
    {
        if s[i] == c {
            return Some(i);
        }
        i += 1;
    }
    None
}

/// Last index of `c` in `s`.
pub fn rfind_char(s: &[char], c: char) -> (r: Option<usize>)
    ensures
        r matches Some(i) ==> last_char_before(s@, c, s@.len() as int) == Some(i as int),
        r is None ==> last_char_before(s@, c, s@.len() as int) is None,
{
    let mut j = s.len();
    while j > 0
        invariant
            j <= s@.len(),
            last_char_before(s@, c, j as int) == last_char_before(s@, c, s@.len() as int),
        decreases j,
    {
        if s[j - 1] == c {
            return Some(j - 1);
        }
        j -= 1;
    }
    None
}

/// `str::split_once` with a character delimiter.
pub open spec fn split_once(s: Seq<char>, c: char) -> Option<(Seq<char>, Seq<char>)> {
    match first_char_from(s, c, 0) {
        Some(i) => Some((s.take(i), s.skip(i + 1))),
        None => None,
    }
}

/// `str::rsplit_once` with a character delimiter.
pub open spec fn rsplit_once(s: Seq<char>, c: char) -> Option<(Seq<char>, Seq<char>)> {
    match last_char_before(s, c, s.len() as int) {
        Some(i) => Some((s.take(i), s.skip(i + 1))),
        None => None,
    }
}

pub fn split_once_seq(s: &[char], c: char) -> (r: Option<(Vec<char>, Vec<char>)>)
    ensures
        match r {
            Some((a, b)) => split_once(s@, c) == Some((a@, b@)),
            None => split_once(s@, c) is None,
        },
{
    match find_char_from(s, c, 0) {
        Some(i) => {
            proof { lemma_first_char_from(s@, c, 0); }
            assert(i < s.len());
            let a = slice_range(s, 0, i);
            let b = slice_range(s, i + 1, s.len());
            assert(a@ == s@.take(i as int));
            assert(b@ == s@.skip(i + 1));
            Some((a, b))
        },
        None => None,
    }
}

pub fn rsplit_once_seq(s: &[char], c: char) -> (r: Option<(Vec<char>, Vec<char>)>)
    ensures
        match r {
            Some((a, b)) => rsplit_once(s@, c) == Some((a@, b@)),
            None => rsplit_once(s@, c) is None,
        },
{
    match rfind_char(s, c) {
        Some(i) => {
            proof { lemma_last_char_before(s@, c, s@.len() as int); }
            assert(i < s.len());
            let a = slice_range(s, 0, i);
            let b = slice_range(s, i + 1, s.len());
            assert(a@ == s@.take(i as int));
            assert(b@ == s@.skip(i + 1));
            Some((a, b))
        },
        None => None,
    }
}

/// `str::split` with a character delimiter: every piece between delimiters.
pub open spec fn split_char(s: Seq<char>, c: char) -> Seq<Seq<char>>
    decreases s.len(),
{
    match first_char_from(s, c, 0) {
        Some(i) => {
            if 0 <= i < s.len() {
                seq![s.take(i)] + split_char(s.skip(i + 1), c)
            } else {
                seq![s]
            }
        },
        None => seq![s],
    }
}

pub proof fn lemma_split_char_unfold(s: Seq<char>, c: char)
    ensures
        first_char_from(s, c, 0) matches Some(i) ==> split_char(s, c) == seq![s.take(i)]
            + split_char(s.skip(i + 1), c),
        first_char_from(s, c, 0) is None ==> split_char(s, c) == seq![s],
        split_char(s, c).len() >= 1,
{
    lemma_first_char_from(s, c, 0);
}

/// `str::split` with a character delimiter.
pub fn split_char_seq(s: &[char], c: char) -> (r: Vec<Vec<char>>)
    ensures
        r@.len() == split_char(s@, c).len(),
        forall|k: int| 0 <= k < r@.len() ==> #[trigger] r@[k]@ == split_char(s@, c)[k],
{
    let mut out: Vec<Vec<char>> = Vec::new();
    let mut start: usize = 0;
    let ghost done: Seq<Seq<char>> = Seq::empty();
    assert(s@.skip(0) =~= s@);
    assert(done + split_char(s@, c) =~= split_char(s@, c));
    loop
        invariant
            start <= s@.len(),
            out@.len() == done.len(),
            forall|k: int| 0 <= k < out@.len() ==> #[trigger] out@[k]@ == done[k],
            done + split_char(s@.skip(start as int), c) == split_char(s@, c),
        decreases s@.len() - start,
    {
        let ghost rest = s@.skip(start as int);
        match find_char_from(s, c, start) {
            Some(i) => {
                proof {
                    lemma_first_char_from(s@, c, start as int);
                    lemma_first_char_from(rest, c, 0);
                    lemma_split_char_unfold(rest, c);
                    let j = (i - start) as int;
                    assert(rest[j] == c);
                    assert forall|m: int| 0 <= m < j implies rest[m] != c by {
                        assert(rest[m] == s@[start + m]);
                    }
                    if let Some(k) = first_char_from(rest, c, 0) {
                        if k < j { assert(rest[k] == s@[start + k]); }
                        assert(k == j);
                    }
                    assert(rest.take(j) =~= s@.subrange(start as int, i as int));
                    assert(rest.skip(j + 1) =~= s@.skip(i + 1));
                }
                assert(start <= i < s.len());
                let piece = slice_range(s, start, i);
                out.push(piece);
                proof {
                    let j = (i - start) as int;
                    let d2 = done.push(rest.take(j));
                    assert(d2 + split_char(s@.skip(i + 1), c) =~= done + (seq![rest.take(j)] + split_char(rest.skip(j + 1), c)));
                    done = d2;
                }
                start = i + 1;
            },
            None => {
                proof {
                    lemma_first_char_from(s@, c, start as int);
                    lemma_first_char_from(rest, c, 0);
                    if let Some(k) = first_char_from(rest, c, 0) {
                        assert(rest[k] == s@[start + k]);
                    }
                    lemma_split_char_unfold(rest, c);
                }
                let piece = slice_range(s, start, s.len());
                assert(piece@ =~= rest);
                out.push(piece);
                proof {
                    done = done.push(rest);
                    assert(done =~= split_char(s@, c));
                }
                return out;
            },
        }
    }
}


// ---------------------------------------------------------------------------
// Lines
// ---------------------------------------------------------------------------

/// Drops one trailing carriage return.
pub open spec fn strip_cr(t: Seq<char>) -> Seq<char> {
    if t.len() > 0 && t.last() == '\r' {
        t.drop_last()
    } else {
        t
    }
}

/// `str::lines`: pieces between `\n` characters, a `\r` right before a `\n`
/// removed, and no empty piece after a final `\n`.
pub open spec fn lines(s: Seq<char>) -> Seq<Seq<char>>
    decreases s.len(),
{
    if s.len() == 0 {
        Seq::empty()
    } else {
        match first_char_from(s, '\n', 0) {
            Some(i) => {
                if 0 <= i < s.len() {
                    seq![strip_cr(s.take(i))] + lines(s.skip(i + 1))
                } else {
                    seq![s]
                }
            },
            None => seq![s],
        }
    }
}

/// No piece of `lines` holds a line feed.
pub proof fn lemma_lines_no_newline(s: Seq<char>)
    ensures
        forall|k: int| 0 <= k < lines(s).len() ==> !(#[trigger] lines(s)[k]).contains('\n'),
    decreases s.len(),
{
    if s.len() > 0 {
        lemma_first_char_from(s, '\n', 0);
        match first_char_from(s, '\n', 0) {
            Some(i) => {
                lemma_lines_no_newline(s.skip(i + 1));
                let head = strip_cr(s.take(i));
                assert(!head.contains('\n')) by {
                    if head.contains('\n') {
                        let j = choose|j: int| 0 <= j < head.len() && head[j] == '\n';
                        assert(s[j] == '\n');
                    }
                }
                let rest = lines(s.skip(i + 1));
                assert forall|k: int| 0 <= k < lines(s).len() implies !(#[trigger] lines(s)[k]).contains('\n') by {
                    if k > 0 {
                        assert(lines(s)[k] == rest[k - 1]);
                    }
                }
            },
            None => {},
        }
    }
}

/// Joining at least two pieces starts with the first, then the separator.
pub proof fn lemma_join_front(parts: Seq<Seq<char>>, sep: Seq<char>)
    requires
        parts.len() >= 2,
    ensures
        join(parts, sep) == parts[0] + sep + join(parts.drop_first(), sep),
    decreases parts.len(),
{
    if parts.len() == 2 {
        assert(parts.drop_last() =~= seq![parts[0]]);
        assert(parts.drop_first() =~= seq![parts[1]]);
        assert(join(parts.drop_last(), sep) == parts[0]);
        assert(join(parts.drop_first(), sep) == parts[1]);
        assert(join(parts, sep) =~= parts[0] + sep + join(parts.drop_first(), sep));
    } else {
        let dl = parts.drop_last();
        let df = parts.drop_first();
        lemma_join_front(dl, sep);
        assert(dl.drop_first() =~= df.drop_last());
        assert(df.last() == parts.last());
        assert(dl[0] == parts[0]);
        assert(join(df, sep) == join(df.drop_last(), sep) + sep + df.last());
        assert(join(parts, sep) == join(dl, sep) + sep + parts.last());
        assert(join(parts, sep) =~= parts[0] + sep + join(df, sep));
    }
}

/// Text written as lines each followed by a line feed reads back as those
/// lines, each with one trailing carriage return dropped.
pub proof fn lemma_lines_of_joined(parts: Seq<Seq<char>>)
    requires
        parts.len() > 0,
        forall|k: int| 0 <= k < parts.len() ==> !(#[trigger] parts[k]).contains('\n'),
    ensures
        lines(join(parts, "\n"@) + "\n"@) == parts.map_values(|p: Seq<char>| strip_cr(p)),
    decreases parts.len(),
{
    reveal_strlit("\n");
    let a = parts[0];
    let t = join(parts, "\n"@) + "\n"@;
    let rest_text = if parts.len() >= 2 {
        join(parts.drop_first(), "\n"@) + "\n"@
    } else {
        Seq::empty()
    };
    if parts.len() >= 2 {
        lemma_join_front(parts, "\n"@);
        assert(t =~= a + "\n"@ + rest_text);
    } else {
        assert(t =~= a + "\n"@);
    }
    assert(t[a.len() as int] == '\n');
    assert forall|j: int| 0 <= j < a.len() implies t[j] != '\n' by {
        assert(t[j] == a[j]);
        if a[j] == '\n' {
            assert(a.contains('\n'));
        }
    }
    lemma_first_char_from(t, '\n', 0);
    assert(first_char_from(t, '\n', 0) == Some(a.len() as int));
    assert(t.take(a.len() as int) =~= a);
    assert(t.skip(a.len() as int + 1) =~= rest_text);
    if parts.len() >= 2 {
        let tail = parts.drop_first();
        assert forall|k: int| 0 <= k < tail.len() implies !(#[trigger] tail[k]).contains('\n') by {
            assert(tail[k] == parts[k + 1]);
        }
        lemma_lines_of_joined(tail);
        assert(lines(t) =~= parts.map_values(|p: Seq<char>| strip_cr(p)));
    } else {
        assert(lines(rest_text) =~= Seq::<Seq<char>>::empty());
        assert(lines(t) =~= parts.map_values(|p: Seq<char>| strip_cr(p)));
    }
}

/// `str::lines` on a character slice.
pub fn lines_seq(s: &[char]) -> (r: Vec<Vec<char>>)
    ensures
        r@.len() == lines(s@).len(),
        forall|k: int| 0 <= k < r@.len() ==> #[trigger] r@[k]@ == lines(s@)[k],
{
    let mut out: Vec<Vec<char>> = Vec::new();
    let mut start: usize = 0;
    let ghost done: Seq<Seq<char>> = Seq::empty();
    assert(s@.skip(0) =~= s@);
    assert(done + lines(s@) =~= lines(s@));
    while start < s.len()
        invariant
            start <= s@.len(),
            out@.len() == done.len(),
            forall|k: int| 0 <= k < out@.len() ==> #[trigger] out@[k]@ == done[k],
            done + lines(s@.skip(start as int)) == lines(s@),
        decreases s@.len() - start,
    {
        let ghost rest = s@.skip(start as int);
        match find_char_from(s, '\n', start) {
            Some(i) => {
                proof {
                    lemma_first_char_from(s@, '\n', start as int);
                    lemma_first_char_from(rest, '\n', 0);
                    let j = (i - start) as int;
                    assert(rest[j] == '\n');
                    if let Some(k) = first_char_from(rest, '\n', 0) {
                        if k < j { assert(rest[k] == s@[start + k]); }
                        assert(k == j);
                    }
                    assert(rest.take(j) =~= s@.subrange(start as int, i as int));
                    assert(rest.skip(j + 1) =~= s@.skip(i + 1));
                }
                assert(start <= i < s.len());
                let mut end = i;
                if end > start && s[end - 1] == '\r' {
                    end = end - 1;
                }
                let piece = slice_range(s, start, end);
                proof {
                    let j = (i - start) as int;
                    assert(piece@ =~= strip_cr(rest.take(j)));
                }
                out.push(piece);
                proof {
                    let j = (i - start) as int;
                    let d2 = done.push(strip_cr(rest.take(j)));
                    assert(d2 + lines(s@.skip(i + 1)) =~= done + (seq![strip_cr(rest.take(j))] + lines(rest.skip(j + 1))));
                    done = d2;
                }
                start = i + 1;
            },
            None => {
                proof {
                    lemma_first_char_from(s@, '\n', start as int);
                    lemma_first_char_from(rest, '\n', 0);
                    if let Some(k) = first_char_from(rest, '\n', 0) {
                        assert(rest[k] == s@[start + k]);
                    }
                }
                let piece = slice_range(s, start, s.len());
                assert(piece@ =~= rest);
                out.push(piece);
                proof {
                    done = done.push(rest);
                    assert(s@.skip(s@.len() as int) =~= Seq::<char>::empty());
                    assert(done + lines(s@.skip(s@.len() as int)) =~= lines(s@));
                }
                start = s.len();
            },
        }
    }
    proof {
        assert(s@.skip(start as int) =~= Seq::<char>::empty());
        assert(done =~= lines(s@));
    }
    out
}

/// `str::lines` on a string slice, each line as a `String`.
pub fn lines_str(s: &str) -> (r: Vec<String>)
    ensures
        r@.len() == lines(s@).len(),
        forall|k: int| 0 <= k < r@.len() ==> #[trigger] r@[k]@ == lines(s@)[k],
{
    let v = chars_of(s);
    let ls = lines_seq(v.as_slice());
    let mut out: Vec<String> = Vec::new();
    let mut i: usize = 0;
    while i < ls.len()
        invariant
            i <= ls@.len(),
            out@.len() == i,
            forall|k: int| 0 <= k < i ==> #[trigger] out@[k]@ == ls@[k]@,
        decreases ls@.len() - i,
    {
        out.push(string_of(ls[i].as_slice()));
        i += 1;
    }
    out
}

// ---------------------------------------------------------------------------
// Trimming
// ---------------------------------------------------------------------------

/// Index of the first character at or after `i` that is not whitespace.
pub open spec fn skip_ws_from(s: Seq<char>, i: int) -> int
    decreases s.len() - i,
{
    if 0 <= i < s.len() && is_ws(s[i]) {
        skip_ws_from(s, i + 1)
    } else {
        i
    }
}

/// Index just past the last character before `j` that is not whitespace.
pub open spec fn back_ws_from(s: Seq<char>, j: int) -> int
    decreases j,
{
    if 0 < j <= s.len() && is_ws(s[j - 1]) {
        back_ws_from(s, j - 1)
    } else {
        j
    }
}

/// `str::trim_start`.
pub open spec fn trim_start(s: Seq<char>) -> Seq<char> {
    s.skip(skip_ws_from(s, 0))
}

/// `str::trim_end`.
pub open spec fn trim_end(s: Seq<char>) -> Seq<char> {
    s.take(back_ws_from(s, s.len() as int))
}

/// `str::trim`.
pub open spec fn trim(s: Seq<char>) -> Seq<char> {
    trim_end(trim_start(s))
}

pub proof fn lemma_skip_ws_from(s: Seq<char>, i: int)
    requires
        0 <= i <= s.len(),
    ensures
        i <= skip_ws_from(s, i) <= s.len(),
        forall|k: int| i <= k < skip_ws_from(s, i) ==> is_ws(s[k]),
        skip_ws_from(s, i) < s.len() ==> !is_ws(s[skip_ws_from(s, i)]),
    decreases s.len() - i,
{
    if i < s.len() && is_ws(s[i]) {
        lemma_skip_ws_from(s, i + 1);
    }
}

pub proof fn lemma_back_ws_from(s: Seq<char>, j: int)
    requires
        0 <= j <= s.len(),
    ensures
        0 <= back_ws_from(s, j) <= j,
        forall|k: int| back_ws_from(s, j) <= k < j ==> is_ws(s[k]),
        back_ws_from(s, j) > 0 ==> !is_ws(s[back_ws_from(s, j) - 1]),
    decreases j,
{
    if j > 0 && is_ws(s[j - 1]) {
        lemma_back_ws_from(s, j - 1);
    }
}

/// Start index of `trim_start` on a slice.
pub fn skip_ws(s: &[char]) -> (i: usize)
    ensures
        i == skip_ws_from(s@, 0),
{
    let mut i: usize = 0;
    while i < s.len() && char_is_ws(s[i])
        invariant
            i <= s@.len(),
            skip_ws_from(s@, i as int) == skip_ws_from(s@, 0),
        decreases s@.len() - i,
    {
        i += 1;
    }
    i
}

/// `str::trim` on a character slice.
pub fn trim_seq(s: &[char]) -> (r: Vec<char>)
    ensures
        r@ == trim(s@),
{
    let a = skip_ws(s);
    proof { lemma_skip_ws_from(s@, 0); }
    let ghost t = s@.skip(a as int);
    let mut j = s.len();
    while j > a && char_is_ws(s[j - 1])
        invariant
            a <= j <= s@.len(),
            t == s@.skip(a as int),
            back_ws_from(t, (j - a) as int) == back_ws_from(t, t.len() as int),
        decreases j,
    {
        assert(t[(j - a) - 1] == s@[j - 1]);
        j -= 1;
    }
    proof {
        if j > a {
            assert(t[(j - a) - 1] == s@[j - 1]);
        }
    }
    let r = slice_range(s, a, j);
    assert(r@ =~= t.take((j - a) as int));
    r
}

/// `str::trim` on a string slice.
pub fn trim_str(s: &str) -> (r: String)
    ensures
        r@ == trim(s@),
{
    let v = chars_of(s);
    let t = trim_seq(v.as_slice());
    string_of(t.as_slice())
}

/// `str::trim_start` on a character slice.
pub fn trim_start_seq(s: &[char]) -> (r: Vec<char>)
    ensures
        r@ == trim_start(s@),
{
    let a = skip_ws(s);
    proof { lemma_skip_ws_from(s@, 0); }
    let r = slice_range(s, a, s.len());
    assert(r@ =~= s@.skip(a as int));
    r
}

/// Index of the first character at or after `i` that differs from `c`.
pub open spec fn skip_char_from(s: Seq<char>, c: char, i: int) -> int
    decreases s.len() - i,
{
    if 0 <= i < s.len() && s[i] == c {
        skip_char_from(s, c, i + 1)
    } else {
        i
    }
}

/// `str::trim_start_matches` with a single character.
pub open spec fn trim_start_char(s: Seq<char>, c: char) -> Seq<char> {
    s.skip(skip_char_from(s, c, 0))
}

pub proof fn lemma_skip_char_from(s: Seq<char>, c: char, i: int)
    requires
        0 <= i <= s.len(),
    ensures
        i <= skip_char_from(s, c, i) <= s.len(),
    decreases s.len() - i,
{
    if i < s.len() && s[i] == c {
        lemma_skip_char_from(s, c, i + 1);
    }
}

/// `str::trim_start_matches` with a single character.
pub fn trim_start_char_seq(s: &[char], c: char) -> (r: Vec<char>)
    ensures
        r@ == trim_start_char(s@, c),
{
    let mut i: usize = 0;
    while i < s.len() && s[i] == c
        invariant
            i <= s@.len(),
            skip_char_from(s@, c, i as int) == skip_char_from(s@, c, 0),
        decreases s@.len() - i,
    {
        i += 1;
    }
    let r = slice_range(s, i, s.len());
    assert(r@ =~= s@.skip(i as int));
    r
}

/// Index just past the last character before `j` that differs from `c`.
pub open spec fn back_char_from(s: Seq<char>, c: char, j: int) -> int
    decreases j,
{
    if 0 < j <= s.len() && s[j - 1] == c {
        back_char_from(s, c, j - 1)
    } else {
        j
    }
}

/// `str::trim_matches` with a single character.
pub open spec fn trim_char(s: Seq<char>, c: char) -> Seq<char> {
    let t = trim_start_char(s, c);
    t.take(back_char_from(t, c, t.len() as int))
}

pub proof fn lemma_back_char_from(s: Seq<char>, c: char, j: int)
    requires
        0 <= j <= s.len(),
    ensures
        0 <= back_char_from(s, c, j) <= j,
    decreases j,
{
    if j > 0 && s[j - 1] == c {
        lemma_back_char_from(s, c, j - 1);
    }
}

/// `str::trim_matches` with a single character.
pub fn trim_char_seq(s: &[char], c: char) -> (r: Vec<char>)
    ensures
        r@ == trim_char(s@, c),
{
    let t = trim_start_char_seq(s, c);
    let mut j = t.len();
    while j > 0 && t[j - 1] == c
        invariant
            j <= t@.len(),
            back_char_from(t@, c, j as int) == back_char_from(t@, c, t@.len() as int),
        decreases j,
    {
        j -= 1;
    }
    let r = slice_range(t.as_slice(), 0, j);
    assert(r@ =~= t@.take(j as int));
    r
}

// ---------------------------------------------------------------------------
// Unicode-aware operations of std
// ---------------------------------------------------------------------------

/// What `str::to_lowercase` returns for a string with these characters.
pub uninterp spec fn spec_to_lowercase(s: Seq<char>) -> Seq<char>;

/// `str::to_lowercase`: the full Unicode lowercase mapping. Its result is
/// named: the mapping is defined by the Unicode tables. On ASCII text it is
/// ASCII lower-casing.
#[verifier::external_body]
pub(crate) fn to_lowercase(s: &str) -> (r: String)
    ensures
        r@ == spec_to_lowercase(s@),
        (forall|i: int| 0 <= i < s@.len() ==> s@[i] <= '\u{7f}') ==> r@ == ascii_lower(s@),
{
    s.to_lowercase()
}

/// What `char::is_alphanumeric` answers for a character.
pub uninterp spec fn spec_is_alphanumeric(c: char) -> bool;

/// `char::is_alphanumeric` (Unicode `Alphabetic` or `Numeric`). For ASCII
/// characters the answer is the ASCII letter-or-digit test; beyond ASCII it
/// is only named.
#[verifier::external_body]
pub(crate) fn char_is_alphanumeric(c: char) -> (r: bool)
    ensures
        r == spec_is_alphanumeric(c),
        c <= '\u{7f}' ==> (r <==> (is_ascii_digit(c) || is_ascii_upper(c) || is_ascii_lower(c))),
{
    c.is_alphanumeric()
}

/// Number of bytes in the UTF-8 encoding of `c`.
pub open spec fn utf8_len(c: char) -> nat {
    if c <= '\u{7f}' {
        1
    } else if c <= '\u{7ff}' {
        2
    } else if c <= '\u{ffff}' {
        3
    } else {
        4
    }
}

/// Number of bytes in the UTF-8 encoding of `s`.
pub open spec fn utf8_bytes(s: Seq<char>) -> nat
    decreases s.len(),
{
    if s.len() == 0 {
        0
    } else {
        utf8_bytes(s.drop_last()) + utf8_len(s.last())
    }
}

pub fn char_utf8_len(c: char) -> (n: usize)
    ensures
        n == utf8_len(c),
{
    if c <= '\u{7f}' {
        1
    } else if c <= '\u{7ff}' {
        2
    } else if c <= '\u{ffff}' {
        3
    } else {
        4
    }
}

// ---------------------------------------------------------------------------
// Case mapping and replacement
// ---------------------------------------------------------------------------

/// `str::to_ascii_lowercase` on a character slice.
pub fn ascii_lower_seq(s: &[char]) -> (r: Vec<char>)
    ensures
        r@ == ascii_lower(s@),
{
    let mut r: Vec<char> = Vec::new();
    let mut i: usize = 0;
    while i < s.len()
        invariant
            i <= s@.len(),
            r@ == ascii_lower(s@.take(i as int)),
        decreases s@.len() - i,
    {
        r.push(char_to_ascii_lower(s[i]));
        assert(ascii_lower(s@.take(i + 1)) =~= ascii_lower(s@.take(i as int)).push(lower_char(s@[i as int])));
        i += 1;
    }
    assert(s@.take(s@.len() as int) =~= s@);
    r
}

/// `str::to_ascii_lowercase`.
pub fn ascii_lower_str(s: &str) -> (r: Vec<char>)
    ensures
        r@ == ascii_lower(s@),
{
    let v = chars_of(s);
    ascii_lower_seq(v.as_slice())
}

/// Replaces every occurrence of character `a` with the text `b`
/// (`str::replace` with a character pattern).
pub open spec fn replace_char(s: Seq<char>, a: char, b: Seq<char>) -> Seq<char>
    decreases s.len(),
{
    if s.len() == 0 {
        Seq::empty()
    } else {
        replace_char(s.drop_last(), a, b) + (if s.last() == a { b } else { seq![s.last()] })
    }
}

pub fn replace_char_seq(s: &[char], a: char, b: &[char]) -> (r: Vec<char>)
    ensures
        r@ == replace_char(s@, a, b@),
{
    let mut r: Vec<char> = Vec::new();
    let mut i: usize = 0;
    while i < s.len()
        invariant
            i <= s@.len(),
            r@ == replace_char(s@.take(i as int), a, b@),
        decreases s@.len() - i,
    {
        let ghost before = r@;
        if s[i] == a {
            let mut k: usize = 0;
            while k < b.len()
                invariant
                    k <= b@.len(),
                    r@ == before + b@.take(k as int),
                decreases b@.len() - k,
            {
                r.push(b[k]);
                assert(before + b@.take(k as int) + seq![b@[k as int]] =~= before + b@.take(k + 1));
                k += 1;
            }
            assert(b@.take(b@.len() as int) =~= b@);
        } else {
            r.push(s[i]);
        }
        assert(s@.take(i + 1).drop_last() =~= s@.take(i as int));
        i += 1;
    }
    assert(s@.take(s@.len() as int) =~= s@);
    r
}

// ---------------------------------------------------------------------------
// Joining
// ---------------------------------------------------------------------------

/// `[String]::join(sep)`.
pub open spec fn join(parts: Seq<Seq<char>>, sep: Seq<char>) -> Seq<char>
    decreases parts.len(),
{
    if parts.len() == 0 {
        Seq::empty()
    } else if parts.len() == 1 {
        parts[0]
    } else {
        join(parts.drop_last(), sep) + sep + parts.last()
    }
}

/// Joins strings with a separator.
pub fn join_strings(parts: &Vec<String>, sep: &str) -> (r: String)
    ensures
        r@ == join(parts@.map_values(|p: String| p@), sep@),
{
    let ghost views = parts@.map_values(|p: String| p@);
    let mut r = String::new();
    let mut i: usize = 0;
    while i < parts.len()
        invariant
            i <= parts@.len(),
            views == parts@.map_values(|p: String| p@),
            r@ == join(views.take(i as int), sep@),
        decreases parts@.len() - i,
    {
        if i > 0 {
            push_str(&mut r, sep);
        }
        push_str(&mut r, parts[i].as_str());
        proof {
            assert(views.take(i + 1).drop_last() =~= views.take(i as int));
            if i == 0 {
                assert(Seq::<char>::empty() + views[0] =~= views[0]);
            }
        }
        i += 1;
    }
    assert(views.take(parts@.len() as int) =~= views);
    r
}

// ---------------------------------------------------------------------------
// Decimal numbers
// ---------------------------------------------------------------------------

/// The ASCII digit for `d < 10`.
pub open spec fn digit_char(d: nat) -> char {
    (d + 48) as char
}

/// Decimal representation of `n`, as `u64`'s `Display` prints it.
pub open spec fn decimal(n: nat) -> Seq<char>
    decreases n,
{
    if n < 10 {
        seq![digit_char(n)]
    } else {
        decimal(n / 10).push(digit_char(n % 10))
    }
}

/// The digit character of a value below ten.
fn digit_of(d: u64) -> (c: char)
    requires
        d < 10,
    ensures
        c == digit_char(d as nat),
{
    let v: u8 = (d as u8) + 48;
    v as char
}

/// Formats an unsigned integer in decimal.
pub fn u64_to_decimal(n: u64) -> (r: Vec<char>)
    ensures
        r@ == decimal(n as nat),
    decreases n,
{
    if n < 10 {
        let mut r: Vec<char> = Vec::new();
        r.push(digit_of(n));
        assert(r@ =~= seq![digit_char(n as nat)]);
        r
    } else {
        let mut r = u64_to_decimal(n / 10);
        r.push(digit_of(n % 10));
        r
    }
}

/// Value of a sequence of ASCII digits.
pub open spec fn digits_value(s: Seq<char>) -> nat
    decreases s.len(),
{
    if s.len() == 0 {
        0
    } else {
        digits_value(s.drop_last()) * 10 + ((s.last() as u32) - 48) as nat
    }
}

pub open spec fn all_digits(s: Seq<char>) -> bool {
    forall|i: int| 0 <= i < s.len() ==> is_ascii_digit(#[trigger] s[i])
}

/// `u32::from_str`: an optional `+`, then one or more ASCII digits whose value
/// fits in 32 bits.
pub open spec fn sign_stripped(s: Seq<char>) -> Seq<char> {
    if s.len() > 0 && s[0] == '+' { s.skip(1) } else { s }
}

pub open spec fn parse_u32(s: Seq<char>) -> Option<u32> {
    let d = sign_stripped(s);
    if d.len() > 0 && all_digits(d) && digits_value(d) <= u32::MAX {
        Some(digits_value(d) as u32)
    } else {
        None
    }
}

pub proof fn lemma_digits_value_mono(s: Seq<char>, k: int)
    requires
        0 <= k <= s.len(),
        all_digits(s),
    ensures
        digits_value(s.take(k)) <= digits_value(s),
    decreases s.len() - k,
{
    if k < s.len() {
        lemma_digits_value_mono(s, k + 1);
        assert(s.take(k + 1).drop_last() =~= s.take(k));
        assert(all_digits(s.take(k + 1)));
    } else {
        assert(s.take(k) =~= s);
    }
}

/// Unsigned-integer `from_str` with an upper bound: an optional `+`, then
/// one or more ASCII digits whose value is at most `max`.
pub open spec fn parse_uint(s: Seq<char>, max: nat) -> Option<nat> {
    let d = sign_stripped(s);
    if d.len() > 0 && all_digits(d) && digits_value(d) <= max {
        Some(digits_value(d))
    } else {
        None
    }
}

/// `u64::from_str` (and, with a smaller `max`, `u16::from_str`) on a
/// character slice.
pub fn parse_uint_seq(s: &[char], max: u64) -> (r: Option<u64>)
    ensures
        match parse_uint(s@, max as nat) {
            Some(n) => r == Some(n as u64),
            None => r is None,
        },
{
    let start: usize = if s.len() > 0 && s[0] == '+' { 1 } else { 0 };
    let ghost d = sign_stripped(s@);
    assert(d =~= s@.skip(start as int));
    if start >= s.len() {
        return None;
    }
    let mut v: u128 = 0;
    let mut i = start;
    while i < s.len()
        invariant
            start <= i <= s@.len(),
            d == s@.skip(start as int),
            d == sign_stripped(s@),
            forall|k: int| 0 <= k < i - start ==> is_ascii_digit(#[trigger] d[k]),
            v == digits_value(d.take(i - start)),
            v <= max,
        decreases s@.len() - i,
    {
        let c = s[i];
        if !('0' <= c && c <= '9') {
            assert(d[i - start] == c);
            assert(!all_digits(d));
            return None;
        }
        let dv: u128 = ((c as u32) - 48) as u128;
        assert(d.take(i + 1 - start).drop_last() =~= d.take(i - start));
        assert(d[i - start] == c);
        let nv = v * 10 + dv;
        assert(nv == digits_value(d.take(i + 1 - start)));
        if nv > max as u128 {
            proof {
                assert(all_digits(d) ==> digits_value(d.take(i + 1 - start)) <= digits_value(d)) by {
                    if all_digits(d) {
                        lemma_digits_value_mono(d, i + 1 - start);
                    }
                }
            }
            return None;
        }
        v = nv;
        i += 1;
    }
    assert(d.take(i - start) =~= d);
    Some(v as u64)
}

/// `u32::from_str` on a character slice.
pub fn parse_u32_seq(s: &[char]) -> (r: Option<u32>)
    ensures
        r == parse_u32(s@),
{
    let start: usize = if s.len() > 0 && s[0] == '+' { 1 } else { 0 };
    let ghost d = sign_stripped(s@);
    assert(d =~= s@.skip(start as int));

    if start >= s.len() {
        return None;
    }
    let mut v: u64 = 0;
    let mut i = start;
    while i < s.len()
        invariant
            start <= i <= s@.len(),
            d == s@.skip(start as int),
            d == sign_stripped(s@),
            forall|k: int| 0 <= k < i - start ==> is_ascii_digit(#[trigger] d[k]),
            v == digits_value(d.take(i - start)),
            v <= u32::MAX,
        decreases s@.len() - i,
    {
        let c = s[i];
        if !('0' <= c && c <= '9') {
            assert(d[i - start] == c);
            assert(!all_digits(d));
            assert(parse_u32(s@) is None);
            return None;
        }
        let dv: u64 = ((c as u32) - 48) as u64;
        assert(d.take(i + 1 - start).drop_last() =~= d.take(i - start));
        assert(d[i - start] == c);
        let nv = v * 10 + dv;
        assert(nv == digits_value(d.take(i + 1 - start)));
        if nv > 0xFFFF_FFFF {
            proof {
                assert(all_digits(d) ==> digits_value(d.take(i + 1 - start)) <= digits_value(d)) by {
                    if all_digits(d) {
                        lemma_digits_value_mono(d, i + 1 - start);
                    }
                }
                assert(parse_u32(s@) is None);
            }
            return None;
        }
        v = nv;
        i += 1;
    }
    assert(d.take(i - start) =~= d);
    Some(v as u32)
}

} // verus!
