//! `options.txt` (`key:value` lines): reading and setting options, and
//! keeping the game running when its window loses focus.
use vstd::prelude::*;
use crate::text;

verus! {

/// The value of the first line whose text before its first `:` is `key`.
pub open spec fn option_value(ls: Seq<Seq<char>>, key: Seq<char>) -> Option<Seq<char>>
    decreases ls.len(),
{
    if ls.len() == 0 {
        None
    } else {
        match text::split_once(ls[0], ':') {
            Some(p) => if p.0 == key {
                Some(p.1)
            } else {
                option_value(ls.drop_first(), key)
            },
            None => option_value(ls.drop_first(), key),
        }
    }
}

/// Whether line `l` is the line of `key`.
pub open spec fn is_key_line(l: Seq<char>, key: Seq<char>) -> bool {
    text::split_once(l, ':') matches Some(p) && p.0 == key
}

/// Index of the first line of `key` at or after `i`.
pub open spec fn key_line_from(ls: Seq<Seq<char>>, key: Seq<char>, i: int) -> Option<int>
    decreases ls.len() - i,
{
    if i < 0 || i >= ls.len() {
        None
    } else if is_key_line(ls[i], key) {
        Some(i)
    } else {
        key_line_from(ls, key, i + 1)
    }
}

/// The lines after setting `key` to `value`: the first line of `key`
/// rewritten in place, or a new line at the end.
pub open spec fn with_option(ls: Seq<Seq<char>>, key: Seq<char>, value: Seq<char>) -> Seq<Seq<char>> {
    let line = key + ":"@ + value;
    match key_line_from(ls, key, 0) {
        Some(i) => ls.update(i, line),
        None => ls.push(line),
    }
}

/// The text written for lines: joined by newlines, with a final newline.
pub open spec fn options_text(ls: Seq<Seq<char>>) -> Seq<char> {
    text::join(ls, "\n"@) + "\n"@
}

/// The value of `key` in options text.
pub fn get_option(content: &str, key: &str) -> (r: Option<String>)
    ensures
        r.deep_view() == option_value(text::lines(content@), key@),
{
    let ls = text::lines_str(content);
    let ghost lv = text::lines(content@);
    let mut i: usize = 0;
    assert(lv.skip(0) =~= lv);
    while i < ls.len()
        invariant
            i <= ls@.len(),
            lv == text::lines(content@),
            ls@.len() == lv.len(),
            forall|k: int| 0 <= k < ls@.len() ==> #[trigger] ls@[k]@ == lv[k],
            option_value(lv, key@) == option_value(lv.skip(i as int), key@),
        decreases ls@.len() - i,
    {
        assert(lv.skip(i as int)[0] == ls@[i as int]@);
        assert(lv.skip(i as int).drop_first() =~= lv.skip(i + 1));
        let l = text::chars_of(ls[i].as_str());
        match text::split_once_seq(l.as_slice(), ':') {
            Some((k, v)) => {
                let kk = text::chars_of(key);
                if text::seq_eq(k.as_slice(), kk.as_slice()) {
                    return Some(text::string_of(v.as_slice()));
                }
            },
            None => {},
        }
        i += 1;
    }
    None
}

fn line_has_key(line: &str, key: &str) -> (r: bool)
    ensures
        r == is_key_line(line@, key@),
{
    let l = text::chars_of(line);
    match text::split_once_seq(l.as_slice(), ':') {
        Some((k, _)) => text::str_eq(text::string_of(k.as_slice()).as_str(), key),
        None => false,
    }
}

/// Options text with `key` set to `value` (other lines kept).
pub fn set_option(content: &str, key: &str, value: &str) -> (r: String)
    ensures
        r@ == options_text(with_option(text::lines(content@), key@, value@)),
{
    let mut ls = text::lines_str(content);
    let ghost lv = text::lines(content@);
    assert(ls.deep_view() =~= lv);
    let mut line = key.to_owned();
    text::push_str(&mut line, ":");
    text::push_str(&mut line, value);
    let mut i: usize = 0;
    let mut found = false;
    while i < ls.len() && !found
        invariant
            i <= ls@.len(),
            lv == text::lines(content@),
            ls.deep_view() == lv,
            line@ == key@ + ":"@ + value@,
            !found ==> key_line_from(lv, key@, 0) == key_line_from(lv, key@, i as int),
            found ==> i < ls@.len() && key_line_from(lv, key@, 0) == Some(i as int),
        decreases ls@.len() - i + if found { 0int } else { 1int },
    {
        assert(ls.deep_view()[i as int] == ls@[i as int]@);
        if line_has_key(ls[i].as_str(), key) {
            found = true;
        } else {
            i += 1;
        }
    }
    if found {
        ls.set(i, line);
        assert(ls.deep_view() =~= with_option(lv, key@, value@));
    } else {
        ls.push(line);
        assert(ls.deep_view() =~= with_option(lv, key@, value@));
    }
    let mut out = text::join_strings(&ls, "\n");
    assert(ls@.map_values(|p: String| p@) =~= ls.deep_view());
    text::push_str(&mut out, "\n");
    out
}

/// The new `options.txt` text that keeps the game running when its window
/// loses focus (`pauseOnLostFocus:false`), or `None` when the file already
/// says so. A missing file (`None`) is written with just that option.
pub fn ensure_no_pause_on_lost_focus(options: Option<&str>) -> (r: Option<String>)
    ensures
        match options {
            Some(c) => if option_value(text::lines(c@), "pauseOnLostFocus"@) == Some("false"@) {
                r is None
            } else {
                r matches Some(t) && t@ == options_text(with_option(text::lines(c@), "pauseOnLostFocus"@, "false"@))
            },
            None => r matches Some(t) && t@ == options_text(with_option(Seq::empty(), "pauseOnLostFocus"@, "false"@)),
        },
{
    match options {
        Some(c) => {
            match get_option(c, "pauseOnLostFocus") {
                Some(v) => {
                    if text::str_eq(v.as_str(), "false") {
                        return None;
                    }
                },
                None => {},
            }
            Some(set_option(c, "pauseOnLostFocus", "false"))
        },
        None => {
            let r = set_option("", "pauseOnLostFocus", "false");
            proof {
                assert(text::lines(""@) =~= Seq::<Seq<char>>::empty()) by {
                    reveal_strlit("");
                }
            }
            Some(r)
        },
    }
}

pub proof fn lemma_key_line_from(ls: Seq<Seq<char>>, key: Seq<char>, i: int)
    requires
        0 <= i <= ls.len(),
    ensures
        match key_line_from(ls, key, i) {
            Some(j) => i <= j < ls.len() && is_key_line(ls[j], key) && forall|m: int|
                i <= m < j ==> !is_key_line(#[trigger] ls[m], key),
            None => forall|m: int| i <= m < ls.len() ==> !is_key_line(#[trigger] ls[m], key),
        },
    decreases ls.len() - i,
{
    if i < ls.len() && !is_key_line(ls[i], key) {
        lemma_key_line_from(ls, key, i + 1);
    }
}

/// `option_value` reads the line `key_line_from` finds.
pub proof fn lemma_option_value_at(ls: Seq<Seq<char>>, key: Seq<char>, i: int)
    requires
        0 <= i <= ls.len(),
    ensures
        option_value(ls.skip(i), key) == match key_line_from(ls, key, i) {
            Some(j) => match text::split_once(ls[j], ':') {
                Some(p) => Some(p.1),
                None => None,
            },
            None => None,
        },
    decreases ls.len() - i,
{
    if i < ls.len() {
        assert(ls.skip(i)[0] == ls[i]);
        assert(ls.skip(i).drop_first() =~= ls.skip(i + 1));
        lemma_option_value_at(ls, key, i + 1);
    }
}

/// The line written for `key` splits back into `key` and `value`.
pub proof fn lemma_split_option_line(key: Seq<char>, value: Seq<char>)
    requires
        !key.contains(':'),
    ensures
        text::split_once(key + ":"@ + value, ':') == Some((key, value)),
{
    reveal_strlit(":");
    let line = key + ":"@ + value;
    text::lemma_first_char_from(line, ':', 0);
    assert(line[key.len() as int] == ':');
    assert forall|k: int| 0 <= k < key.len() implies line[k] != ':' by {
        assert(line[k] == key[k]);
    }
    assert(line.take(key.len() as int) =~= key);
    assert(line.skip(key.len() as int + 1) =~= value);
}

/// Reading an option back after setting it gives the value set (for a key
/// without `:`).
pub proof fn law_get_after_set_option(ls: Seq<Seq<char>>, key: Seq<char>, value: Seq<char>)
    requires
        !key.contains(':'),
    ensures
        option_value(with_option(ls, key, value), key) == Some(value),
{
    let line = key + ":"@ + value;
    lemma_split_option_line(key, value);
    assert(is_key_line(line, key));
    let w = with_option(ls, key, value);
    lemma_key_line_from(ls, key, 0);
    lemma_key_line_from(w, key, 0);
    lemma_option_value_at(w, key, 0);
    assert(w.skip(0) =~= w);
    match key_line_from(ls, key, 0) {
        Some(i) => {
            assert(w[i] == line);
            assert forall|m: int| 0 <= m < i implies w[m] == ls[m] by {}
            match key_line_from(w, key, 0) {
                Some(j) => {
                    if j < i {
                        assert(w[j] == ls[j]);
                    }
                    if j > i {
                        assert(!is_key_line(w[i], key));
                    }
                },
                None => {
                    assert(!is_key_line(w[i], key));
                },
            }
        },
        None => {
            let n = ls.len() as int;
            assert(w[n] == line);
            match key_line_from(w, key, 0) {
                Some(j) => {
                    if j < n {
                        assert(w[j] == ls[j]);
                    }
                },
                None => {
                    assert(!is_key_line(w[n], key));
                },
            }
        },
    }
}

/// Setting an option leaves the value of every other key as it was (for a
/// key without `:`).
pub proof fn law_set_option_keeps_others(ls: Seq<Seq<char>>, key: Seq<char>, value: Seq<char>, other: Seq<char>)
    requires
        !key.contains(':'),
        other != key,
    ensures
        option_value(with_option(ls, key, value), other) == option_value(ls, other),
{
    let line = key + ":"@ + value;
    lemma_split_option_line(key, value);
    assert(!is_key_line(line, other));
    let w = with_option(ls, key, value);
    lemma_key_line_from(ls, key, 0);
    lemma_key_line_from(ls, other, 0);
    lemma_key_line_from(w, other, 0);
    lemma_option_value_at(w, other, 0);
    lemma_option_value_at(ls, other, 0);
    assert(w.skip(0) =~= w);
    assert(ls.skip(0) =~= ls);
    let n = ls.len() as int;
    assert forall|m: int| 0 <= m < n implies (is_key_line(#[trigger] w[m], other) <==> is_key_line(ls[m], other))
        && (is_key_line(w[m], other) ==> w[m] == ls[m]) by {
        match key_line_from(ls, key, 0) {
            Some(i) => {
                if m == i {
                    assert(is_key_line(ls[i], key));
                }
            },
            None => {},
        }
    }
    match key_line_from(ls, key, 0) {
        Some(i) => {
            assert(w.len() == n);
        },
        None => {
            assert(w.len() == n + 1);
            assert(w[n] == line);
        },
    }
    match key_line_from(w, other, 0) {
        Some(j) => {
            if j < n {
                match key_line_from(ls, other, 0) {
                    Some(j2) => {
                        if j2 < j {
                            assert(is_key_line(w[j2], other));
                        }
                        if j2 > j {
                            assert(is_key_line(ls[j], other));
                        }
                    },
                    None => {
                        assert(is_key_line(ls[j], other));
                    },
                }
            }
        },
        None => {
            match key_line_from(ls, other, 0) {
                Some(j2) => {
                    assert(is_key_line(w[j2], other));
                },
                None => {},
            }
        },
    }
}

/// Splitting a line at its first `:` commutes with dropping a trailing
/// carriage return.
proof fn lemma_split_strip_cr(l: Seq<char>)
    ensures
        text::split_once(text::strip_cr(l), ':') == match text::split_once(l, ':') {
            Some(p) => Some((p.0, text::strip_cr(p.1))),
            None => None,
        },
{
    if l.len() > 0 && l.last() == '\r' {
        let m = l.drop_last();
        text::lemma_first_char_from(l, ':', 0);
        text::lemma_first_char_from(m, ':', 0);
        match text::first_char_from(l, ':', 0) {
            Some(i) => {
                assert(i < l.len() - 1);
                assert(m[i] == ':');
                match text::first_char_from(m, ':', 0) {
                    Some(j) => {
                        if j < i {
                            assert(l[j] == m[j]);
                        }
                    },
                    None => {},
                }
                assert(text::first_char_from(m, ':', 0) == Some(i));
                assert(m.take(i) =~= l.take(i));
                let tail = l.skip(i + 1);
                assert(tail.len() > 0 && tail.last() == '\r');
                assert(m.skip(i + 1) =~= tail.drop_last());
            },
            None => {
                match text::first_char_from(m, ':', 0) {
                    Some(j) => {
                        assert(l[j] == m[j]);
                    },
                    None => {},
                }
            },
        }
    } else {
        text::lemma_first_char_from(l, ':', 0);
        match text::first_char_from(l, ':', 0) {
            Some(i) => {
                let tail = l.skip(i + 1);
                if tail.len() > 0 {
                    assert(tail.last() == l.last());
                }
            },
            None => {},
        }
    }
}

/// Dropping one trailing carriage return from every line changes which
/// lines hold a key in no way, and drops one from the value read.
pub proof fn lemma_option_value_strip_cr(ls: Seq<Seq<char>>, key: Seq<char>)
    ensures
        option_value(ls.map_values(|p: Seq<char>| text::strip_cr(p)), key) == match option_value(ls, key) {
            Some(v) => Some(text::strip_cr(v)),
            None => None,
        },
    decreases ls.len(),
{
    if ls.len() > 0 {
        let ms = ls.map_values(|p: Seq<char>| text::strip_cr(p));
        lemma_split_strip_cr(ls[0]);
        assert(ms[0] == text::strip_cr(ls[0]));
        assert(ms.drop_first() =~= ls.drop_first().map_values(|p: Seq<char>| text::strip_cr(p)));
        lemma_option_value_strip_cr(ls.drop_first(), key);
    }
}

/// Setting an option in options text and reading it back from the text
/// written gives the value set (for a key without `:` or line feed, and a
/// value without line feed or trailing carriage return).
pub proof fn law_read_back_written_option(content: Seq<char>, key: Seq<char>, value: Seq<char>)
    requires
        !key.contains(':'),
        !key.contains('\n'),
        !value.contains('\n'),
        !(value.len() > 0 && value.last() == '\r'),
    ensures
        option_value(text::lines(options_text(with_option(text::lines(content), key, value))), key) == Some(value),
{
    reveal_strlit(":");
    let ls = text::lines(content);
    let line = key + ":"@ + value;
    let w = with_option(ls, key, value);
    text::lemma_lines_no_newline(content);
    assert(!line.contains('\n')) by {
        if line.contains('\n') {
            let j = choose|j: int| 0 <= j < line.len() && line[j] == '\n';
            if j < key.len() {
                assert(key[j] == '\n');
            } else if j > key.len() {
                assert(value[j - key.len() - 1] == '\n');
            }
        }
    }
    lemma_key_line_from(ls, key, 0);
    assert(w.len() > 0);
    assert forall|k: int| 0 <= k < w.len() implies !(#[trigger] w[k]).contains('\n') by {
        if k < ls.len() && w[k] != line {
            assert(w[k] == ls[k]);
        }
    }
    text::lemma_lines_of_joined(w);
    lemma_option_value_strip_cr(w, key);
    law_get_after_set_option(ls, key, value);
}


/// Keeping the game running is idempotent: the text written for a file (or
/// for a missing file) already says `pauseOnLostFocus:false`, so a second
/// call asks for no write.
pub proof fn law_no_pause_is_idempotent(content: Seq<char>)
    ensures
        option_value(
            text::lines(options_text(with_option(text::lines(content), "pauseOnLostFocus"@, "false"@))),
            "pauseOnLostFocus"@,
        ) == Some("false"@),
        option_value(
            text::lines(options_text(with_option(Seq::empty(), "pauseOnLostFocus"@, "false"@))),
            "pauseOnLostFocus"@,
        ) == Some("false"@),
{
    reveal_strlit("pauseOnLostFocus");
    reveal_strlit("false");
    reveal_strlit("");
    let k = "pauseOnLostFocus"@;
    let v = "false"@;
    assert(!k.contains(':')) by {
        assert forall|i: int| 0 <= i < k.len() implies k[i] != ':' by {}
    }
    assert(!k.contains('\n')) by {
        assert forall|i: int| 0 <= i < k.len() implies k[i] != '\n' by {}
    }
    assert(!v.contains('\n')) by {
        assert forall|i: int| 0 <= i < v.len() implies v[i] != '\n' by {}
    }
    assert(v.last() == 'e');
    law_read_back_written_option(content, k, v);
    assert(text::lines(""@) =~= Seq::<Seq<char>>::empty());
    law_read_back_written_option(""@, k, v);
}

// ---------------------------------------------------------------------------
// Exporting and importing all options
// ---------------------------------------------------------------------------

/// No key occurs in two pairs.
pub open spec fn pair_keys_unique(ps: Seq<(Seq<char>, Seq<char>)>) -> bool {
    forall|a: int, b: int| 0 <= a < b < ps.len() ==> #[trigger] ps[a].0 != #[trigger] ps[b].0
}

/// Whether a pair of `ps` has key `k`.
pub open spec fn has_pair(ps: Seq<(Seq<char>, Seq<char>)>, k: Seq<char>) -> bool {
    exists|i: int| 0 <= i < ps.len() && #[trigger] ps[i].0 == k
}

/// `ps` with `k` set to `v`: its pair replaced in place, or a new pair at
/// the end.
pub open spec fn set_pair(ps: Seq<(Seq<char>, Seq<char>)>, k: Seq<char>, v: Seq<char>) -> Seq<(Seq<char>, Seq<char>)> {
    if has_pair(ps, k) {
        ps.update(choose|i: int| 0 <= i < ps.len() && #[trigger] ps[i].0 == k, (k, v))
    } else {
        ps.push((k, v))
    }
}

/// The options of option lines as a map: each line that has a `:` split at
/// its first `:`; a key given again takes its later value; keys in order
/// of first appearance.
pub open spec fn option_pairs_of(ls: Seq<Seq<char>>) -> Seq<(Seq<char>, Seq<char>)>
    decreases ls.len(),
{
    if ls.len() == 0 {
        Seq::empty()
    } else {
        let r = option_pairs_of(ls.drop_last());
        match text::split_once(ls.last(), ':') {
            Some(p) => set_pair(r, p.0, p.1),
            None => r,
        }
    }
}

pub open spec fn pairs_view(v: Seq<(String, String)>) -> Seq<(Seq<char>, Seq<char>)> {
    v.map_values(|p: (String, String)| (p.0@, p.1@))
}

/// The `key:value` line of each pair.
pub open spec fn pair_lines(ps: Seq<(Seq<char>, Seq<char>)>) -> Seq<Seq<char>> {
    ps.map_values(|p: (Seq<char>, Seq<char>)| p.0 + ":"@ + p.1)
}

fn pair_position(ps: &Vec<(String, String)>, k: &[char]) -> (r: Option<usize>)
    ensures
        match r {
            Some(i) => i < ps@.len() && pairs_view(ps@)[i as int].0 == k@,
            None => !has_pair(pairs_view(ps@), k@),
        },
{
    let ghost v = pairs_view(ps@);
    let mut i: usize = 0;
    while i < ps.len()
        invariant
            i <= ps@.len(),
            v == pairs_view(ps@),
            forall|j: int| 0 <= j < i ==> #[trigger] v[j].0 != k@,
        decreases ps@.len() - i,
    {
        let c = text::chars_of(ps[i].0.as_str());
        if text::seq_eq(c.as_slice(), k) {
            return Some(i);
        }
        i += 1;
    }
    None
}

/// The options of a file as (key, value) pairs, one per key (a key given
/// again takes its later value), in order of first appearance.
pub fn option_pairs(content: &str) -> (r: Vec<(String, String)>)
    ensures
        pairs_view(r@) == option_pairs_of(text::lines(content@)),
        pair_keys_unique(pairs_view(r@)),
{
    let ls = text::lines_str(content);
    let ghost lv = text::lines(content@);
    let mut out: Vec<(String, String)> = Vec::new();
    let mut i: usize = 0;
    assert(lv.take(0) =~= Seq::<Seq<char>>::empty());
    assert(pairs_view(out@) =~= Seq::<(Seq<char>, Seq<char>)>::empty());
    while i < ls.len()
        invariant
            i <= ls@.len(),
            ls@.len() == lv.len(),
            lv == text::lines(content@),
            forall|k: int| 0 <= k < ls@.len() ==> #[trigger] ls@[k]@ == lv[k],
            pairs_view(out@) == option_pairs_of(lv.take(i as int)),
            pair_keys_unique(pairs_view(out@)),
        decreases ls@.len() - i,
    {
        assert(lv.take(i + 1).drop_last() =~= lv.take(i as int));
        assert(lv.take(i + 1).last() == ls@[i as int]@);
        let c = text::chars_of(ls[i].as_str());
        let ghost before = pairs_view(out@);
        match text::split_once_seq(c.as_slice(), ':') {
            Some((k, v)) => {
                match pair_position(&out, k.as_slice()) {
                    Some(j) => {
                        proof {
                            let c = choose|x: int| 0 <= x < before.len() && #[trigger] before[x].0 == k@;
                            assert(before[j as int].0 == k@);
                            assert(has_pair(before, k@));
                            assert(c == j as int);
                        }
                        out.set(j, (text::string_of(k.as_slice()), text::string_of(v.as_slice())));
                        assert(pairs_view(out@) =~= before.update(j as int, (k@, v@)));
                    },
                    None => {
                        out.push((text::string_of(k.as_slice()), text::string_of(v.as_slice())));
                        assert(pairs_view(out@) =~= before.push((k@, v@)));
                    },
                }
            },
            None => {},
        }
        i += 1;
    }
    assert(lv.take(i as int) =~= lv);
    out
}

/// The options text holding `pairs` as `key:value` lines, in order.
pub fn options_from_pairs(pairs: &Vec<(String, String)>) -> (r: String)
    ensures
        r@ == options_text(pair_lines(pairs_view(pairs@))),
{
    let mut ls: Vec<String> = Vec::new();
    let ghost pv = pairs_view(pairs@);
    let mut i: usize = 0;
    while i < pairs.len()
        invariant
            i <= pairs@.len(),
            pv == pairs_view(pairs@),
            ls@.map_values(|p: String| p@) == pair_lines(pv).take(i as int),
        decreases pairs@.len() - i,
    {
        let mut line = pairs[i].0.clone();
        text::push_str(&mut line, ":");
        text::push_str(&mut line, pairs[i].1.as_str());
        let ghost before = ls@.map_values(|p: String| p@);
        ls.push(line);
        assert(ls@.map_values(|p: String| p@) =~= before.push(pair_lines(pv)[i as int]));
        assert(pair_lines(pv).take(i + 1) =~= pair_lines(pv).take(i as int).push(pair_lines(pv)[i as int]));
        i += 1;
    }
    assert(pair_lines(pv).take(i as int) =~= pair_lines(pv));
    let mut out = text::join_strings(&ls, "\n");
    text::push_str(&mut out, "\n");
    out
}

proof fn lemma_pairs_of_split_lines(ls: Seq<Seq<char>>, ps: Seq<(Seq<char>, Seq<char>)>)
    requires
        ls.len() == ps.len(),
        pair_keys_unique(ps),
        forall|i: int| 0 <= i < ls.len() ==> text::split_once(#[trigger] ls[i], ':') == Some(ps[i]),
    ensures
        option_pairs_of(ls) == ps,
    decreases ls.len(),
{
    if ls.len() > 0 {
        lemma_pairs_of_split_lines(ls.drop_last(), ps.drop_last());
        assert(text::split_once(ls.last(), ':') == Some(ps.last()));
        let q = ps.drop_last();
        assert(!has_pair(q, ps.last().0)) by {
            if has_pair(q, ps.last().0) {
                let i = choose|i: int| 0 <= i < q.len() && #[trigger] q[i].0 == ps.last().0;
                assert(ps[i].0 == ps[ps.len() - 1].0);
            }
        }
        assert(ps.drop_last().push(ps.last()) =~= ps);
    }
}

/// Importing options and exporting them again gives back the same pairs,
/// for distinct keys (as a JSON object has) without `:` or line feeds and
/// values without line feeds that do not end in a carriage return.
pub proof fn law_export_after_import(ps: Seq<(Seq<char>, Seq<char>)>)
    requires
        pair_keys_unique(ps),
        forall|i: int| 0 <= i < ps.len() ==> !(#[trigger] ps[i]).0.contains(':') && !ps[i].0.contains('\n')
            && !ps[i].1.contains('\n') && !(ps[i].1.len() > 0 && ps[i].1.last() == '\r'),
    ensures
        option_pairs_of(text::lines(options_text(pair_lines(ps)))) == ps,
{
    reveal_strlit(":");
    let ls = pair_lines(ps);
    if ps.len() == 0 {
        let one = seq![Seq::<char>::empty()];
        assert(text::join(one, "\n"@) =~= text::join(ls, "\n"@));
        text::lemma_lines_of_joined(one);
        assert(text::lines(options_text(ls)) == one.map_values(|p: Seq<char>| text::strip_cr(p)));
        assert(one.map_values(|p: Seq<char>| text::strip_cr(p)) =~= one);
        text::lemma_first_char_from(Seq::<char>::empty(), ':', 0);
        assert(option_pairs_of(one.drop_last()) =~= Seq::<(Seq<char>, Seq<char>)>::empty());
        assert(option_pairs_of(one) =~= ps);
    } else {
        assert forall|k: int| 0 <= k < ls.len() implies !(#[trigger] ls[k]).contains('\n') by {
            let line = ls[k];
            assert(line == ps[k].0 + ":"@ + ps[k].1);
            if line.contains('\n') {
                let j = choose|j: int| 0 <= j < line.len() && line[j] == '\n';
                if j < ps[k].0.len() {
                    assert(ps[k].0[j] == '\n');
                } else if j == ps[k].0.len() {
                } else {
                    assert(ps[k].1[j - ps[k].0.len() - 1] == '\n');
                }
            }
        }
        text::lemma_lines_of_joined(ls);
        let stripped = ls.map_values(|p: Seq<char>| text::strip_cr(p));
        assert forall|i: int| 0 <= i < stripped.len() implies text::split_once(#[trigger] stripped[i], ':') == Some(ps[i]) by {
            let line = ls[i];
            assert(line == ps[i].0 + ":"@ + ps[i].1);
            lemma_split_option_line(ps[i].0, ps[i].1);
            if line.len() > 0 && line.last() == '\r' {
                if ps[i].1.len() == 0 {
                    assert(line.last() == ':');
                } else {
                    assert(line.last() == ps[i].1.last());
                }
            }
            assert(stripped[i] == line);
        }
        lemma_pairs_of_split_lines(stripped, ps);
    }
}

} // verus!
