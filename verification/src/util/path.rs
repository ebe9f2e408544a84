//! Paths as text: joining a directory and a component the way `PathBuf::push` does.

use vstd::prelude::*;
use crate::text::{push_all, string_from_chars, to_chars};

verus! {

/// `base` joined with `comp`: an absolute `comp` replaces `base`; otherwise one `/`
/// separates them unless `base` is empty or already ends with one.
pub open spec fn path_join(base: Seq<char>, comp: Seq<char>) -> Seq<char> {
    if comp.len() > 0 && comp[0] == '/' {
        comp
    } else if base.len() == 0 {
        comp
    } else if base.last() == '/' {
        base + comp
    } else {
        base + seq!['/'] + comp
    }
}

pub fn join(base: &str, comp: &str) -> (r: String)
    ensures
        r@ == path_join(base@, comp@),
{
    let b = to_chars(base);
    let c = to_chars(comp);
    if c.len() > 0 && c[0] == '/' {
        return string_from_chars(c.as_slice());
    }
    if b.len() == 0 {
        return string_from_chars(c.as_slice());
    }
    let mut out = b;
    if out[out.len() - 1] != '/' {
        out.push('/');
    }
    push_all(&mut out, c.as_slice());
    string_from_chars(out.as_slice())
}

} // verus!
