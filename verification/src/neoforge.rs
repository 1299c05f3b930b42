//! NeoForge versions: their ordering (numeric parts, then stable before
//! pre-releases), the versions that match a Minecraft version, and the
//! installer location.
use vstd::prelude::*;
use crate::text;
use std::cmp::Ordering;

verus! {

pub const NEOFORGE_MAVEN_URL: &'static str = "https://maven.neoforged.net/releases/net/neoforged/neoforge";

/// The NeoForge installer (for a requested version, or the latest).
pub struct NeoForgeInstaller {
    pub version: Option<String>,
}

impl NeoForgeInstaller {
    pub fn new(version: Option<String>) -> (r: Self)
        ensures
            r.version == version,
    {
        NeoForgeInstaller { version }
    }
}

/// A version split at its first `-` into the numeric part and the
/// pre-release suffix.
pub open spec fn split_version(v: Seq<char>) -> (Seq<char>, Option<Seq<char>>) {
    match text::first_char_from(v, '-', 0) {
        Some(i) => (v.take(i), Some(v.skip(i + 1))),
        None => (v, None),
    }
}

/// The `.`-separated fields of `s` that parse as `u32`, in order.
pub open spec fn parsed_fields(fields: Seq<Seq<char>>) -> Seq<u32>
    decreases fields.len(),
{
    if fields.len() == 0 {
        Seq::empty()
    } else {
        match text::parse_u32(fields.last()) {
            Some(n) => parsed_fields(fields.drop_last()).push(n),
            None => parsed_fields(fields.drop_last()),
        }
    }
}

pub open spec fn numeric_parts(v: Seq<char>) -> Seq<u32> {
    parsed_fields(text::split_char(split_version(v).0, '.'))
}

/// Sign of `x - y`.
pub open spec fn sign(x: int, y: int) -> int {
    if x < y {
        -1
    } else if x > y {
        1
    } else {
        0
    }
}

/// Numeric parts compared field by field; when one list is a prefix of the
/// other, the longer one is greater. Gives -1, 0 or 1.
pub open spec fn parts_order(a: Seq<u32>, b: Seq<u32>) -> int
    decreases a.len(),
{
    if a.len() == 0 || b.len() == 0 {
        sign(a.len() as int, b.len() as int)
    } else if a[0] != b[0] {
        sign(a[0] as int, b[0] as int)
    } else {
        parts_order(a.drop_first(), b.drop_first())
    }
}

/// Lexicographic order of character sequences (as `String::cmp` orders
/// UTF-8 text). Gives -1, 0 or 1.
pub open spec fn text_order(a: Seq<char>, b: Seq<char>) -> int
    decreases a.len(),
{
    if a.len() == 0 || b.len() == 0 {
        sign(a.len() as int, b.len() as int)
    } else if a[0] != b[0] {
        sign(a[0] as int, b[0] as int)
    } else {
        text_order(a.drop_first(), b.drop_first())
    }
}

/// The order of two NeoForge versions: numeric parts first; then a stable
/// version is greater than any pre-release; pre-releases compare as text.
pub open spec fn version_order(a: Seq<char>, b: Seq<char>) -> int {
    let p = parts_order(numeric_parts(a), numeric_parts(b));
    if p != 0 {
        p
    } else {
        match (split_version(a).1, split_version(b).1) {
            (None, None) => 0,
            (None, Some(_)) => 1,
            (Some(_), None) => -1,
            (Some(x), Some(y)) => text_order(x, y),
        }
    }
}

fn numeric_fields(v: &[char]) -> (r: (Vec<u32>, Option<Vec<char>>))
    ensures
        r.0@ == numeric_parts(v@),
        match r.1 {
            Some(p) => split_version(v@).1 == Some(p@),
            None => split_version(v@).1 is None,
        },
{
    let (numeric, pre) = match text::find_char_from(v, '-', 0) {
        Some(i) => {
            proof { text::lemma_first_char_from(v@, '-', 0); }
            let end = v.len();
            assert(i < end);
            let n = text::slice_range(v, 0, i);
            let p = text::slice_range(v, i + 1, end);
            assert(n@ =~= v@.take(i as int));
            assert(p@ =~= v@.skip(i + 1));
            (n, Some(p))
        },
        None => {
            let n = text::slice_range(v, 0, v.len());
            assert(n@ =~= v@);
            (n, None)
        },
    };
    let fields = text::split_char_seq(numeric.as_slice(), '.');
    let ghost fv = text::split_char(numeric@, '.');
    let mut out: Vec<u32> = Vec::new();
    let mut i: usize = 0;
    assert(fv.take(0) =~= Seq::<Seq<char>>::empty());
    while i < fields.len()
        invariant
            i <= fields@.len(),
            fields@.len() == fv.len(),
            fv == text::split_char(numeric@, '.'),
            forall|k: int| 0 <= k < fields@.len() ==> #[trigger] fields@[k]@ == fv[k],
            out@ == parsed_fields(fv.take(i as int)),
        decreases fields@.len() - i,
    {
        assert(fv.take(i + 1).drop_last() =~= fv.take(i as int));
        assert(fv.take(i + 1).last() == fields@[i as int]@);
        match text::parse_u32_seq(fields[i].as_slice()) {
            Some(n) => out.push(n),
            None => {},
        }
        i += 1;
    }
    assert(fv.take(i as int) =~= fv);
    (out, pre)
}

fn parts_compare(a: &Vec<u32>, b: &Vec<u32>) -> (r: i8)
    ensures
        r == parts_order(a@, b@),
{
    let mut i: usize = 0;
    assert(a@.skip(0) =~= a@);
    assert(b@.skip(0) =~= b@);
    while i < a.len() && i < b.len()
        invariant
            i <= a@.len(),
            i <= b@.len(),
            parts_order(a@, b@) == parts_order(a@.skip(i as int), b@.skip(i as int)),
        decreases a@.len() - i,
    {
        assert(a@.skip(i as int)[0] == a@[i as int]);
        assert(b@.skip(i as int)[0] == b@[i as int]);
        assert(a@.skip(i as int).drop_first() =~= a@.skip(i + 1));
        assert(b@.skip(i as int).drop_first() =~= b@.skip(i + 1));
        if a[i] < b[i] {
            return -1;
        } else if a[i] > b[i] {
            return 1;
        }
        i += 1;
    }
    if a.len() - i < b.len() - i {
        -1
    } else if a.len() - i > b.len() - i {
        1
    } else {
        0
    }
}

fn text_compare(a: &[char], b: &[char]) -> (r: i8)
    ensures
        r == text_order(a@, b@),
{
    let mut i: usize = 0;
    assert(a@.skip(0) =~= a@);
    assert(b@.skip(0) =~= b@);
    while i < a.len() && i < b.len()
        invariant
            i <= a@.len(),
            i <= b@.len(),
            text_order(a@, b@) == text_order(a@.skip(i as int), b@.skip(i as int)),
        decreases a@.len() - i,
    {
        assert(a@.skip(i as int)[0] == a@[i as int]);
        assert(b@.skip(i as int)[0] == b@[i as int]);
        assert(a@.skip(i as int).drop_first() =~= a@.skip(i + 1));
        assert(b@.skip(i as int).drop_first() =~= b@.skip(i + 1));
        if a[i] < b[i] {
            return -1;
        } else if a[i] > b[i] {
            return 1;
        }
        i += 1;
    }
    if a.len() - i < b.len() - i {
        -1
    } else if a.len() - i > b.len() - i {
        1
    } else {
        0
    }
}

/// The order of two versions as -1, 0 or 1.
pub fn version_sign(a: &str, b: &str) -> (r: i8)
    ensures
        r == version_order(a@, b@),
{
    let av = text::chars_of(a);
    let bv = text::chars_of(b);
    let (ap, apre) = numeric_fields(av.as_slice());
    let (bp, bpre) = numeric_fields(bv.as_slice());
    let p = parts_compare(&ap, &bp);
    if p != 0 {
        return p;
    }
    match (apre, bpre) {
        (None, None) => 0,
        (None, Some(_)) => 1,
        (Some(_), None) => -1,
        (Some(x), Some(y)) => text_compare(x.as_slice(), y.as_slice()),
    }
}

/// Compares two NeoForge versions for sorting: numeric parts first, then a
/// stable version above any pre-release, pre-releases by their text.
pub fn compare_versions(a: &str, b: &str) -> (r: Ordering)
    ensures
        match r {
            Ordering::Less => version_order(a@, b@) < 0,
            Ordering::Equal => version_order(a@, b@) == 0,
            Ordering::Greater => version_order(a@, b@) > 0,
        },
{
    let s = version_sign(a, b);
    if s < 0 {
        Ordering::Less
    } else if s > 0 {
        Ordering::Greater
    } else {
        Ordering::Equal
    }
}

// ---------------------------------------------------------------------------
// Laws of the order
// ---------------------------------------------------------------------------

proof fn lemma_parts_order_antisym(a: Seq<u32>, b: Seq<u32>)
    ensures
        parts_order(a, b) == -parts_order(b, a),
        parts_order(a, a) == 0,
    decreases a.len(),
{
    if a.len() > 0 && b.len() > 0 && a[0] == b[0] {
        lemma_parts_order_antisym(a.drop_first(), b.drop_first());
    }
    if a.len() > 0 {
        lemma_parts_order_antisym(a.drop_first(), a.drop_first());
    }
}

proof fn lemma_text_order_antisym(a: Seq<char>, b: Seq<char>)
    ensures
        text_order(a, b) == -text_order(b, a),
        text_order(a, a) == 0,
    decreases a.len(),
{
    if a.len() > 0 && b.len() > 0 && a[0] == b[0] {
        lemma_text_order_antisym(a.drop_first(), b.drop_first());
    }
    if a.len() > 0 {
        lemma_text_order_antisym(a.drop_first(), a.drop_first());
    }
}

/// Every version is equal to itself.
pub proof fn law_version_order_reflexive(a: Seq<char>)
    ensures
        version_order(a, a) == 0,
{
    lemma_parts_order_antisym(numeric_parts(a), numeric_parts(a));
    match split_version(a).1 {
        Some(x) => lemma_text_order_antisym(x, x),
        None => {},
    }
}

/// Swapping the operands reverses the order.
pub proof fn law_version_order_antisymmetric(a: Seq<char>, b: Seq<char>)
    ensures
        version_order(a, b) == -version_order(b, a),
{
    lemma_parts_order_antisym(numeric_parts(a), numeric_parts(b));
    match (split_version(a).1, split_version(b).1) {
        (Some(x), Some(y)) => lemma_text_order_antisym(x, y),
        _ => {},
    }
}

proof fn lemma_parts_order_zero(a: Seq<u32>, b: Seq<u32>)
    ensures
        parts_order(a, b) == 0 <==> a == b,
    decreases a.len(),
{
    if a.len() > 0 && b.len() > 0 && a[0] == b[0] {
        lemma_parts_order_zero(a.drop_first(), b.drop_first());
        if a.drop_first() == b.drop_first() {
            assert(a =~= seq![a[0]] + a.drop_first());
            assert(b =~= seq![b[0]] + b.drop_first());
        }
    }
    if a.len() == 0 && b.len() == 0 {
        assert(a =~= b);
    }
    if a == b && a.len() > 0 {
        assert(a.drop_first() =~= b.drop_first());
    }
}

proof fn lemma_text_order_zero(a: Seq<char>, b: Seq<char>)
    ensures
        text_order(a, b) == 0 <==> a == b,
    decreases a.len(),
{
    if a.len() > 0 && b.len() > 0 && a[0] == b[0] {
        lemma_text_order_zero(a.drop_first(), b.drop_first());
        if a.drop_first() == b.drop_first() {
            assert(a =~= seq![a[0]] + a.drop_first());
            assert(b =~= seq![b[0]] + b.drop_first());
        }
    }
    if a.len() == 0 && b.len() == 0 {
        assert(a =~= b);
    }
    if a == b && a.len() > 0 {
        assert(a.drop_first() =~= b.drop_first());
    }
}

proof fn lemma_parts_order_trans(a: Seq<u32>, b: Seq<u32>, c: Seq<u32>)
    requires
        parts_order(a, b) <= 0,
        parts_order(b, c) <= 0,
    ensures
        parts_order(a, c) <= 0,
        parts_order(a, b) < 0 || parts_order(b, c) < 0 ==> parts_order(a, c) < 0,
    decreases a.len(),
{
    lemma_parts_order_zero(a, b);
    lemma_parts_order_zero(b, c);
    lemma_parts_order_zero(a, c);
    if a.len() > 0 && b.len() > 0 && c.len() > 0 && a[0] == b[0] && b[0] == c[0] {
        lemma_parts_order_trans(a.drop_first(), b.drop_first(), c.drop_first());
    }
}

proof fn lemma_text_order_trans(a: Seq<char>, b: Seq<char>, c: Seq<char>)
    requires
        text_order(a, b) <= 0,
        text_order(b, c) <= 0,
    ensures
        text_order(a, c) <= 0,
        text_order(a, b) < 0 || text_order(b, c) < 0 ==> text_order(a, c) < 0,
    decreases a.len(),
{
    lemma_text_order_zero(a, b);
    lemma_text_order_zero(b, c);
    lemma_text_order_zero(a, c);
    if a.len() > 0 && b.len() > 0 && c.len() > 0 && a[0] == b[0] && b[0] == c[0] {
        lemma_text_order_trans(a.drop_first(), b.drop_first(), c.drop_first());
    }
}

/// The order is transitive: a version not above a second one that is not
/// above a third is not above the third, and strictly below it when one
/// of the two steps is strict. Sorting by it is therefore well defined.
pub proof fn law_version_order_transitive(a: Seq<char>, b: Seq<char>, c: Seq<char>)
    requires
        version_order(a, b) <= 0,
        version_order(b, c) <= 0,
    ensures
        version_order(a, c) <= 0,
        version_order(a, b) < 0 || version_order(b, c) < 0 ==> version_order(a, c) < 0,
{
    let (pa, pb, pc) = (numeric_parts(a), numeric_parts(b), numeric_parts(c));
    lemma_parts_order_trans(pa, pb, pc);
    lemma_parts_order_zero(pa, pb);
    lemma_parts_order_zero(pb, pc);
    lemma_parts_order_zero(pa, pc);
    if parts_order(pa, pc) == 0 {
        match (split_version(a).1, split_version(b).1, split_version(c).1) {
            (Some(x), Some(y), Some(z)) => lemma_text_order_trans(x, y, z),
            _ => {},
        }
    }
}

// ---------------------------------------------------------------------------
// Installer location and version matching
// ---------------------------------------------------------------------------

/// The installer jar URL of a NeoForge version.
pub fn get_installer_url(neoforge_version: &str) -> (r: String)
    ensures
        r@ == NEOFORGE_MAVEN_URL@ + "/"@ + neoforge_version@ + "/neoforge-"@ + neoforge_version@ + "-installer.jar"@,
{
    let mut s = NEOFORGE_MAVEN_URL.to_owned();
    text::push_str(&mut s, "/");
    text::push_str(&mut s, neoforge_version);
    text::push_str(&mut s, "/neoforge-");
    text::push_str(&mut s, neoforge_version);
    text::push_str(&mut s, "-installer.jar");
    s
}

/// The version prefix of the NeoForge line for a Minecraft version:
/// `1.21.1` gives `21.1.`, `1.21` and `1.21.0` give `21.0.`; a version with
/// fewer than two fields is an error.
pub open spec fn line_prefix(mc: Seq<char>) -> Result<Seq<char>, Seq<char>> {
    let parts = text::split_char(mc, '.');
    if parts.len() < 2 {
        Err("Invalid Minecraft version format: "@ + mc)
    } else if parts.len() == 3 && parts[2] != "0"@ {
        Ok(parts[1] + "."@ + parts[2] + "."@)
    } else {
        Ok(parts[1] + ".0."@)
    }
}

/// The NeoForge version prefix that matches a Minecraft version.
pub fn neoforge_prefix(mc_version: &str) -> (r: Result<String, String>)
    ensures
        match line_prefix(mc_version@) {
            Ok(p) => r matches Ok(s) && s@ == p,
            Err(m) => r matches Err(e) && e@ == m,
        },
{
    let chars = text::chars_of(mc_version);
    let parts = text::split_char_seq(chars.as_slice(), '.');
    if parts.len() < 2 {
        return Err(text::concat2("Invalid Minecraft version format: ", mc_version));
    }
    let zero = text::chars_of("0");
    let mut s = text::string_of(parts[1].as_slice());
    if parts.len() == 3 && !text::seq_eq(parts[2].as_slice(), zero.as_slice()) {
        text::push_str(&mut s, ".");
        text::push_chars(&mut s, parts[2].as_slice());
        text::push_str(&mut s, ".");
    } else {
        text::push_str(&mut s, ".0.");
    }
    Ok(s)
}

} // verus!
