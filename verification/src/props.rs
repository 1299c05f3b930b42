//! `server.properties` editing that keeps comments, blank lines and order.
//!
//! A file is its raw lines; `key=value` rows are parsed on demand. Setting a
//! key rewrites its first row in place and drops later duplicates, or
//! appends a row for a new key.
use vstd::prelude::*;
use crate::text;

verus! {

/// A properties file as its raw lines, comments and blanks included.
#[derive(Debug, Default)]
pub struct PropertiesFile {
    lines: Vec<String>,
}

/// One parsed `key=value` pair.
#[derive(Debug, Clone, PartialEq, Eq)]
pub struct PropertyPair {
    pub key: String,
    pub value: String,
}

impl View for PropertiesFile {
    type V = Seq<Seq<char>>;

    closed spec fn view(&self) -> Seq<Seq<char>> {
        self.lines.deep_view()
    }
}

/// The pair a raw line holds: none for blank lines, `#` and `!` comments
/// and rows without `=`; otherwise the trimmed text split at its first `=`,
/// both sides trimmed.
pub open spec fn pair_of(line: Seq<char>) -> Option<(Seq<char>, Seq<char>)> {
    let t = text::trim(line);
    if t.len() == 0 || t[0] == '#' || t[0] == '!' {
        None
    } else {
        match text::split_once(t, '=') {
            Some(p) => Some((text::trim(p.0), text::trim(p.1))),
            None => None,
        }
    }
}

/// Whether a line is a row for key `k`.
pub open spec fn is_row(line: Seq<char>, k: Seq<char>) -> bool {
    pair_of(line) matches Some(p) && p.0 == k
}

/// Whether some line is a row for `k`.
pub open spec fn has_row(ls: Seq<Seq<char>>, k: Seq<char>) -> bool
    decreases ls.len(),
{
    ls.len() > 0 && (has_row(ls.drop_last(), k) || is_row(ls.last(), k))
}

/// The pairs of the lines, in order.
pub open spec fn pairs_of(ls: Seq<Seq<char>>) -> Seq<(Seq<char>, Seq<char>)>
    decreases ls.len(),
{
    if ls.len() == 0 {
        Seq::empty()
    } else {
        match pair_of(ls.last()) {
            Some(p) => pairs_of(ls.drop_last()).push(p),
            None => pairs_of(ls.drop_last()),
        }
    }
}

/// The value of the first row for `k`.
pub open spec fn value_of(ls: Seq<Seq<char>>, k: Seq<char>) -> Option<Seq<char>>
    decreases ls.len(),
{
    if ls.len() == 0 {
        None
    } else {
        match value_of(ls.drop_last(), k) {
            Some(v) => Some(v),
            None => match pair_of(ls.last()) {
                Some(p) => if p.0 == k {
                    Some(p.1)
                } else {
                    None
                },
                None => None,
            },
        }
    }
}

/// The row `set` writes.
pub open spec fn row(k: Seq<char>, v: Seq<char>) -> Seq<char> {
    k + "="@ + v
}

/// The lines with the first row for `k` replaced by `line` and the later
/// rows for `k` dropped; other lines kept in order.
pub open spec fn replaced(ls: Seq<Seq<char>>, k: Seq<char>, line: Seq<char>) -> Seq<Seq<char>>
    decreases ls.len(),
{
    if ls.len() == 0 {
        Seq::empty()
    } else {
        let prev = replaced(ls.drop_last(), k, line);
        if is_row(ls.last(), k) {
            if has_row(ls.drop_last(), k) {
                prev
            } else {
                prev.push(line)
            }
        } else {
            prev.push(ls.last())
        }
    }
}

/// The lines after setting `k` to `v`.
pub open spec fn set_lines(ls: Seq<Seq<char>>, k: Seq<char>, v: Seq<char>) -> Seq<Seq<char>> {
    if has_row(ls, k) {
        replaced(ls, k, row(k, v))
    } else {
        ls.push(row(k, v))
    }
}

/// The lines that are not rows for `k`, in order.
pub open spec fn without(ls: Seq<Seq<char>>, k: Seq<char>) -> Seq<Seq<char>>
    decreases ls.len(),
{
    if ls.len() == 0 {
        Seq::empty()
    } else if is_row(ls.last(), k) {
        without(ls.drop_last(), k)
    } else {
        without(ls.drop_last(), k).push(ls.last())
    }
}

/// Number of rows for `k`.
pub open spec fn row_count(ls: Seq<Seq<char>>, k: Seq<char>) -> nat
    decreases ls.len(),
{
    if ls.len() == 0 {
        0
    } else {
        row_count(ls.drop_last(), k) + if is_row(ls.last(), k) {
            1nat
        } else {
            0nat
        }
    }
}

/// The boolean a value spells (`true` / `false`, ASCII case-insensitive).
pub open spec fn bool_of(v: Seq<char>) -> Option<bool> {
    let l = text::ascii_lower(v);
    if l == "true"@ {
        Some(true)
    } else if l == "false"@ {
        Some(false)
    } else {
        None
    }
}

/// A row text that parses back to its own key and the trimmed value.
pub open spec fn row_reads_back(k: Seq<char>, v: Seq<char>) -> bool {
    pair_of(row(k, v)) == Some((k, text::trim(v)))
}

fn parse_pair(line: &str) -> (r: Option<PropertyPair>)
    ensures
        match r {
            Some(p) => pair_of(line@) == Some((p.key@, p.value@)),
            None => pair_of(line@) is None,
        },
{
    let chars = text::chars_of(line);
    let t = text::trim_seq(chars.as_slice());
    if t.len() == 0 || t[0] == '#' || t[0] == '!' {
        return None;
    }
    match text::split_once_seq(t.as_slice(), '=') {
        Some((k, v)) => {
            let kt = text::trim_seq(k.as_slice());
            let vt = text::trim_seq(v.as_slice());
            Some(PropertyPair { key: text::string_of(kt.as_slice()), value: text::string_of(vt.as_slice()) })
        },
        None => None,
    }
}

fn line_is_row(line: &str, key: &str) -> (r: bool)
    ensures
        r == is_row(line@, key@),
{
    match parse_pair(line) {
        Some(p) => text::str_eq(p.key.as_str(), key),
        None => false,
    }
}

fn row_text(key: &str, value: &str) -> (r: String)
    ensures
        r@ == row(key@, value@),
{
    let mut s = key.to_owned();
    text::push_str(&mut s, "=");
    text::push_str(&mut s, value);
    s
}

impl PropertiesFile {
    /// A file holding the given raw lines.
    pub fn from_lines(lines: Vec<String>) -> (f: Self)
        ensures
            f@ == lines.deep_view(),
    {
        PropertiesFile { lines }
    }

    /// A file from its text, split into lines as `str::lines` does.
    pub fn from_text(raw: &str) -> (f: Self)
        ensures
            f@ == text::lines(raw@),
    {
        let ls = text::lines_str(raw);
        proof {
            assert(ls.deep_view() =~= text::lines(raw@)) by {
                assert forall|k: int| 0 <= k < ls@.len() implies ls.deep_view()[k] == text::lines(raw@)[k] by {}
            }
        }
        PropertiesFile { lines: ls }
    }

    /// The raw lines.
    pub fn lines(&self) -> (r: &Vec<String>)
        ensures
            r.deep_view() == self@,
    {
        &self.lines
    }

    /// The file's text: its lines joined by newlines, with a final newline
    /// when there is any text.
    pub fn to_text(&self) -> (r: String)
        ensures
            r@ == if text::join(self@, "\n"@).len() == 0 {
                Seq::<char>::empty()
            } else {
                text::join(self@, "\n"@) + "\n"@
            },
    {
        let mut out = text::join_strings(&self.lines, "\n");
        assert(self.lines@.map_values(|p: String| p@) =~= self@);
        if !out.as_str().is_empty() {
            text::push_str(&mut out, "\n");
        }
        out
    }

    /// The parsed `key=value` pairs, comments and blanks skipped.
    pub fn pairs(&self) -> (r: Vec<PropertyPair>)
        ensures
            r@.map_values(|p: PropertyPair| (p.key@, p.value@)) == pairs_of(self@),
    {
        let ghost ls = self@;
        let mut out: Vec<PropertyPair> = Vec::new();
        let mut i: usize = 0;
        assert(ls.take(0) =~= Seq::<Seq<char>>::empty());
        while i < self.lines.len()
            invariant
                i <= self.lines@.len(),
                ls == self@,
                out@.map_values(|p: PropertyPair| (p.key@, p.value@)) == pairs_of(ls.take(i as int)),
            decreases self.lines@.len() - i,
        {
            assert(ls.take(i + 1).drop_last() =~= ls.take(i as int));
            assert(ls.take(i + 1).last() == self.lines@[i as int]@);
            let ghost before = out@.map_values(|p: PropertyPair| (p.key@, p.value@));
            match parse_pair(self.lines[i].as_str()) {
                Some(p) => {
                    out.push(p);
                    assert(out@.map_values(|p: PropertyPair| (p.key@, p.value@)) =~= before.push(
                        pair_of(self.lines@[i as int]@).unwrap(),
                    ));
                },
                None => {},
            }
            i += 1;
        }
        assert(ls.take(i as int) =~= ls);
        out
    }

    /// The value of the first row for `key`.
    pub fn get(&self, key: &str) -> (r: Option<String>)
        ensures
            r.deep_view() == value_of(self@, key@),
    {
        let ghost ls = self@;
        let mut i: usize = 0;
        assert(ls.take(0) =~= Seq::<Seq<char>>::empty());
        while i < self.lines.len()
            invariant
                i <= self.lines@.len(),
                ls == self@,
                value_of(ls.take(i as int), key@) is None,
            decreases self.lines@.len() - i,
        {
            assert(ls.take(i + 1).drop_last() =~= ls.take(i as int));
            assert(ls.take(i + 1).last() == self.lines@[i as int]@);
            match parse_pair(self.lines[i].as_str()) {
                Some(p) => {
                    if text::str_eq(p.key.as_str(), key) {
                        proof { lemma_value_of_prefix(ls, key@, i + 1); }
                        return Some(p.value);
                    }
                },
                None => {},
            }
            i += 1;
        }
        assert(ls.take(i as int) =~= ls);
        None
    }

    /// The boolean value of `key`: `true` or `false` in any ASCII case.
    pub fn get_bool(&self, key: &str) -> (r: Option<bool>)
        ensures
            r == match value_of(self@, key@) {
                Some(v) => bool_of(v),
                None => None,
            },
    {
        match self.get(key) {
            Some(v) => {
                let l = text::ascii_lower_str(v.as_str());
                let t = text::chars_of("true");
                let f = text::chars_of("false");
                if text::seq_eq(l.as_slice(), t.as_slice()) {
                    Some(true)
                } else if text::seq_eq(l.as_slice(), f.as_slice()) {
                    Some(false)
                } else {
                    None
                }
            },
            None => None,
        }
    }

    /// Sets `key = value`: rewrites the first row for `key` in place and
    /// drops later rows for it, or appends a row when there is none.
    pub fn set(&mut self, key: &str, value: &str)
        ensures
            final(self)@ == set_lines(old(self)@, key@, value@),
    {
        let ghost ls = self@;
        let line = row_text(key, value);
        let mut out: Vec<String> = Vec::new();
        let mut done = false;
        let mut i: usize = 0;
        assert(ls.take(0) =~= Seq::<Seq<char>>::empty());
        while i < self.lines.len()
            invariant
                i <= self.lines@.len(),
                ls == self@,
                ls == old(self)@,
                line@ == row(key@, value@),
                done == has_row(ls.take(i as int), key@),
                out.deep_view() == replaced(ls.take(i as int), key@, line@),
            decreases self.lines@.len() - i,
        {
            assert(ls.take(i + 1).drop_last() =~= ls.take(i as int));
            assert(ls.take(i + 1).last() == self.lines@[i as int]@);
            let ghost before = out.deep_view();
            if line_is_row(self.lines[i].as_str(), key) {
                if !done {
                    out.push(line.clone());
                    assert(out.deep_view() =~= before.push(line@));
                    done = true;
                }
            } else {
                out.push(self.lines[i].clone());
                assert(out.deep_view() =~= before.push(self.lines@[i as int]@));
            }
            i += 1;
        }
        assert(ls.take(i as int) =~= ls);
        if done {
            self.lines = out;
        } else {
            proof { lemma_replaced_without_row(ls, key@, line@); }
            let ghost before = self@;
            self.lines.push(line);
            assert(self@ =~= before.push(row(key@, value@)));
        }
    }

    /// Removes every row for `key`; whether anything was removed.
    pub fn remove(&mut self, key: &str) -> (changed: bool)
        ensures
            final(self)@ == without(old(self)@, key@),
            changed == has_row(old(self)@, key@),
    {
        let ghost ls = self@;
        let mut out: Vec<String> = Vec::new();
        let mut found = false;
        let mut i: usize = 0;
        assert(ls.take(0) =~= Seq::<Seq<char>>::empty());
        while i < self.lines.len()
            invariant
                i <= self.lines@.len(),
                ls == self@,
                ls == old(self)@,
                found == has_row(ls.take(i as int), key@),
                out.deep_view() == without(ls.take(i as int), key@),
            decreases self.lines@.len() - i,
        {
            assert(ls.take(i + 1).drop_last() =~= ls.take(i as int));
            assert(ls.take(i + 1).last() == self.lines@[i as int]@);
            let ghost before = out.deep_view();
            if line_is_row(self.lines[i].as_str(), key) {
                found = true;
            } else {
                out.push(self.lines[i].clone());
                assert(out.deep_view() =~= before.push(self.lines@[i as int]@));
            }
            i += 1;
        }
        assert(ls.take(i as int) =~= ls);
        self.lines = out;
        found
    }
}

// ---------------------------------------------------------------------------
// Laws
// ---------------------------------------------------------------------------

pub proof fn lemma_value_of_prefix(ls: Seq<Seq<char>>, k: Seq<char>, i: int)
    requires
        0 <= i <= ls.len(),
        value_of(ls.take(i), k) is Some,
    ensures
        value_of(ls, k) == value_of(ls.take(i), k),
    decreases ls.len() - i,
{
    if i < ls.len() {
        assert(ls.take(i + 1).drop_last() =~= ls.take(i));
        lemma_value_of_prefix(ls, k, i + 1);
    } else {
        assert(ls.take(i) =~= ls);
    }
}

/// Without a row for `k`, replacing keeps every line.
pub proof fn lemma_replaced_without_row(ls: Seq<Seq<char>>, k: Seq<char>, line: Seq<char>)
    requires
        !has_row(ls, k),
    ensures
        replaced(ls, k, line) == ls,
    decreases ls.len(),
{
    if ls.len() > 0 {
        lemma_replaced_without_row(ls.drop_last(), k, line);
        assert(ls.drop_last().push(ls.last()) =~= ls);
    }
}

proof fn lemma_value_of_none(ls: Seq<Seq<char>>, k: Seq<char>)
    ensures
        value_of(ls, k) is None <==> !has_row(ls, k),
    decreases ls.len(),
{
    if ls.len() > 0 {
        lemma_value_of_none(ls.drop_last(), k);
    }
}

proof fn lemma_value_of_push(ls: Seq<Seq<char>>, k: Seq<char>, l: Seq<char>)
    ensures
        value_of(ls.push(l), k) == match value_of(ls, k) {
            Some(v) => Some(v),
            None => if is_row(l, k) {
                Some(pair_of(l).unwrap().1)
            } else {
                None
            },
        },
{
    assert(ls.push(l).drop_last() =~= ls);
}

proof fn lemma_replaced_facts(ls: Seq<Seq<char>>, k: Seq<char>, v: Seq<char>)
    requires
        row_reads_back(k, v),
    ensures
        has_row(ls, k) ==> value_of(replaced(ls, k, row(k, v)), k) == Some(text::trim(v)),
        !has_row(ls, k) ==> value_of(replaced(ls, k, row(k, v)), k) is None,
        row_count(replaced(ls, k, row(k, v)), k) == if has_row(ls, k) {
            1nat
        } else {
            0nat
        },
        without(replaced(ls, k, row(k, v)), k) == without(ls, k),
    decreases ls.len(),
{
    if ls.len() > 0 {
        let pre = ls.drop_last();
        let l = ls.last();
        lemma_replaced_facts(pre, k, v);
        let rp = replaced(pre, k, row(k, v));
        lemma_value_of_none(rp, k);
        lemma_value_of_none(pre, k);
        if is_row(l, k) {
            if has_row(pre, k) {
            } else {
                lemma_value_of_push(rp, k, row(k, v));
                assert(rp.push(row(k, v)).drop_last() =~= rp);
            }
        } else {
            lemma_value_of_push(rp, k, l);
            assert(rp.push(l).drop_last() =~= rp);
        }
    }
}

/// Reading a key right after setting it gives the value written (trimmed),
/// whenever the written row parses back to that key.
pub proof fn law_get_after_set(ls: Seq<Seq<char>>, k: Seq<char>, v: Seq<char>)
    requires
        row_reads_back(k, v),
    ensures
        value_of(set_lines(ls, k, v), k) == Some(text::trim(v)),
{
    lemma_replaced_facts(ls, k, v);
    if !has_row(ls, k) {
        lemma_value_of_none(ls, k);
        lemma_value_of_push(ls, k, row(k, v));
    }
}

/// After setting a key, the file holds exactly one row for it.
pub proof fn law_set_leaves_one_row(ls: Seq<Seq<char>>, k: Seq<char>, v: Seq<char>)
    requires
        row_reads_back(k, v),
    ensures
        row_count(set_lines(ls, k, v), k) == 1,
{
    lemma_replaced_facts(ls, k, v);
    if !has_row(ls, k) {
        lemma_row_count_none(ls, k);
        assert(ls.push(row(k, v)).drop_last() =~= ls);
    }
}

proof fn lemma_row_count_none(ls: Seq<Seq<char>>, k: Seq<char>)
    requires
        !has_row(ls, k),
    ensures
        row_count(ls, k) == 0,
    decreases ls.len(),
{
    if ls.len() > 0 {
        lemma_row_count_none(ls.drop_last(), k);
    }
}

/// Setting a key keeps every other line (comments, blanks and other rows)
/// in its order.
pub proof fn law_set_keeps_other_lines(ls: Seq<Seq<char>>, k: Seq<char>, v: Seq<char>)
    requires
        row_reads_back(k, v),
    ensures
        without(set_lines(ls, k, v), k) == without(ls, k),
{
    lemma_replaced_facts(ls, k, v);
    if !has_row(ls, k) {
        assert(ls.push(row(k, v)).drop_last() =~= ls);
    }
}

proof fn lemma_value_of_without(ls: Seq<Seq<char>>, k: Seq<char>, j: Seq<char>)
    requires
        j != k,
    ensures
        value_of(without(ls, k), j) == value_of(ls, j),
    decreases ls.len(),
{
    if ls.len() > 0 {
        let pre = ls.drop_last();
        lemma_value_of_without(pre, k, j);
        if !is_row(ls.last(), k) {
            lemma_value_of_push(without(pre, k), j, ls.last());
        } else {
            lemma_value_of_none(without(pre, k), j);
        }
    }
}

/// Setting one key leaves the value of every other key unchanged.
pub proof fn law_set_keeps_other_values(ls: Seq<Seq<char>>, k: Seq<char>, v: Seq<char>, j: Seq<char>)
    requires
        row_reads_back(k, v),
        j != k,
    ensures
        value_of(set_lines(ls, k, v), j) == value_of(ls, j),
{
    law_set_keeps_other_lines(ls, k, v);
    lemma_value_of_without(set_lines(ls, k, v), k, j);
    lemma_value_of_without(ls, k, j);
}

proof fn lemma_without_no_row(ls: Seq<Seq<char>>, k: Seq<char>)
    ensures
        !has_row(without(ls, k), k),
    decreases ls.len(),
{
    if ls.len() > 0 {
        lemma_without_no_row(ls.drop_last(), k);
        let w = without(ls.drop_last(), k);
        assert(w.push(ls.last()).drop_last() =~= w);
    }
}

/// After removing a key, reading it gives nothing.
pub proof fn law_get_after_remove(ls: Seq<Seq<char>>, k: Seq<char>)
    ensures
        value_of(without(ls, k), k) is None,
{
    lemma_without_no_row(ls, k);
    lemma_value_of_none(without(ls, k), k);
}

/// A key has a value exactly when the file has a row for it.
pub proof fn law_value_iff_row(ls: Seq<Seq<char>>, k: Seq<char>)
    ensures
        value_of(ls, k) is Some <==> has_row(ls, k),
{
    lemma_value_of_none(ls, k);
}

/// A text without blanks at either end is its own trim.
pub proof fn lemma_trim_of_unpadded(s: Seq<char>)
    requires
        s.len() == 0 || (!text::is_ws(s[0]) && !text::is_ws(s.last())),
    ensures
        text::trim(s) == s,
{
    assert(text::skip_ws_from(s, 0) == 0);
    assert(s.skip(0) =~= s);
    assert(text::back_ws_from(s, s.len() as int) == s.len());
    assert(s.take(s.len() as int) =~= s);
}

/// A row for a plain key (not a comment, no `=`, no blanks at its ends)
/// with a value without blanks at its ends reads back as written.
pub proof fn lemma_plain_row_reads_back(k: Seq<char>, v: Seq<char>)
    requires
        k.len() > 0,
        !text::is_ws(k[0]),
        k[0] != '#',
        k[0] != '!',
        !text::is_ws(k.last()),
        forall|i: int| 0 <= i < k.len() ==> k[i] != '=',
        v.len() == 0 || (!text::is_ws(v[0]) && !text::is_ws(v.last())),
    ensures
        row_reads_back(k, v),
        text::trim(v) == v,
{
    reveal_strlit("=");
    let line = row(k, v);
    assert(line[0] == k[0]);
    assert(line[k.len() as int] == '=');
    if v.len() == 0 {
        assert(line.last() == '=');
    } else {
        assert(line.last() == v.last());
    }
    lemma_trim_of_unpadded(line);
    lemma_trim_of_unpadded(k);
    lemma_trim_of_unpadded(v);
    text::lemma_first_char_from(line, '=', 0);
    assert(forall|j: int| 0 <= j < k.len() ==> line[j] == k[j]);
    assert(text::first_char_from(line, '=', 0) == Some(k.len() as int));
    assert(line.take(k.len() as int) =~= k);
    assert(line.skip(k.len() as int + 1) =~= v);
}

/// Setting a plain key (not a comment, no `=`, no blanks at its ends) to a
/// value without blanks at its ends and reading it back gives that value;
/// the other keys keep their values and the file holds one row for it.
pub proof fn law_plain_set_reads_back(ls: Seq<Seq<char>>, k: Seq<char>, v: Seq<char>, other: Seq<char>)
    requires
        k.len() > 0,
        !text::is_ws(k[0]),
        k[0] != '#',
        k[0] != '!',
        !text::is_ws(k.last()),
        forall|i: int| 0 <= i < k.len() ==> k[i] != '=',
        v.len() == 0 || (!text::is_ws(v[0]) && !text::is_ws(v.last())),
    ensures
        value_of(set_lines(ls, k, v), k) == Some(v),
        row_count(set_lines(ls, k, v), k) == 1,
        other != k ==> value_of(set_lines(ls, k, v), other) == value_of(ls, other),
{
    lemma_plain_row_reads_back(k, v);
    law_get_after_set(ls, k, v);
    law_set_leaves_one_row(ls, k, v);
    if other != k {
        law_set_keeps_other_values(ls, k, v, other);
    }
}

/// Saving a properties file and loading its text again gives back its
/// lines (each with one trailing carriage return dropped), when no line
/// holds a line feed and the text is not empty.
pub proof fn law_text_roundtrip(ls: Seq<Seq<char>>)
    requires
        forall|k: int| 0 <= k < ls.len() ==> !(#[trigger] ls[k]).contains('\n'),
        text::join(ls, "\n"@).len() > 0,
    ensures
        text::lines(text::join(ls, "\n"@) + "\n"@) == ls.map_values(|p: Seq<char>| text::strip_cr(p)),
{
    text::lemma_lines_of_joined(ls);
}

/// The lines of a file read from text hold no line feed.
pub proof fn law_loaded_lines_have_no_newline(raw: Seq<char>)
    ensures
        forall|k: int| 0 <= k < text::lines(raw).len() ==> !(#[trigger] text::lines(raw)[k]).contains('\n'),
{
    text::lemma_lines_no_newline(raw);
}

} // verus!
