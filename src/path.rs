//! Paths as `/`-separated text: joining, and a path relative to a base.

use vstd::prelude::*;

use crate::text::{append_chars, chars_of, has_prefix, same_chars, slice_of, starts_with, string_of};

verus! {

pub open spec fn is_absolute(p: Seq<char>) -> bool {
    p.len() > 0 && p[0] == '/'
}

/// `p` appended to `base` as `PathBuf::push` does: an absolute `p` replaces
/// `base`, and a separator is put in between where `base` lacks one.
pub open spec fn join_path(base: Seq<char>, p: Seq<char>) -> Seq<char> {
    if is_absolute(p) {
        p
    } else if base.len() == 0 || base.last() == '/' {
        base + p
    } else {
        base + seq!['/'] + p
    }
}

/// The path that leads from `base` to `path`, if `path` lies under `base`.
pub open spec fn relative_to(path: Seq<char>, base: Seq<char>) -> Option<Seq<char>> {
    if path == base {
        Some(seq![])
    } else if base.len() > 0 && base.last() == '/' && has_prefix(path, base) {
        Some(path.subrange(base.len() as int, path.len() as int))
    } else if has_prefix(path, base.push('/')) {
        Some(path.subrange(base.len() as int + 1, path.len() as int))
    } else {
        None
    }
}

pub fn join(base: &str, p: &str) -> (r: String)
    ensures
        r@ == join_path(base@, p@),
{
    let b = chars_of(base);
    let q = chars_of(p);
    if q.len() > 0 && q[0] == '/' {
        return string_of(&q);
    }
    let mut out = slice_of(&b, 0, b.len());
    assert(out@ == b@);
    if !(b.len() == 0 || b[b.len() - 1] == '/') {
        out.push('/');
    }
    append_chars(&mut out, &q);
    string_of(&out)
}

pub fn strip_base(path: &str, base: &str) -> (r: Option<String>)
    ensures
        match r {
            Some(s) => relative_to(path@, base@) == Some(s@),
            None => relative_to(path@, base@) is None,
        },
{
    let p = chars_of(path);
    let b = chars_of(base);
    if same_chars(&p, &b) {
        return Some(String::new());
    }
    if b.len() > 0 && b[b.len() - 1] == '/' && starts_with(&p, &b) {
        return Some(string_of(&slice_of(&p, b.len(), p.len())));
    }
    let mut bs = slice_of(&b, 0, b.len());
    assert(bs@ == b@);
    bs.push('/');
    if starts_with(&p, &bs) {
        Some(string_of(&slice_of(&p, bs.len(), p.len())))
    } else {
        None
    }
}

} // verus!
