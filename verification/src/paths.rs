//! Paths as `/`-separated strings, joined the way `PathBuf::push` joins a
//! relative or absolute component on Unix.
use vstd::prelude::*;
use crate::text;

verus! {

/// `base` joined with `seg`: an absolute `seg` replaces `base`; otherwise a
/// `/` is put between them unless `base` is empty or already ends with one.
pub open spec fn joined(base: Seq<char>, seg: Seq<char>) -> Seq<char> {
    if seg.len() > 0 && seg[0] == '/' {
        seg
    } else if base.len() == 0 {
        seg
    } else if base.last() == '/' {
        base + seg
    } else {
        base + "/"@ + seg
    }
}

/// Joins a path component onto a path.
pub fn join(base: &str, seg: &str) -> (r: String)
    ensures
        r@ == joined(base@, seg@),
{
    let b = text::chars_of(base);
    let s = text::chars_of(seg);
    if s.len() > 0 && s[0] == '/' {
        return seg.to_owned();
    }
    if b.len() == 0 {
        return seg.to_owned();
    }
    let mut out = base.to_owned();
    if b[b.len() - 1] != '/' {
        text::push_str(&mut out, "/");
    }
    text::push_str(&mut out, seg);
    proof {
        if b@.last() == '/' {
            assert(base@ + seg@ =~= joined(base@, seg@));
        }
    }
    out
}

} // verus!
