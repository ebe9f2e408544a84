//! Slugs: the stable, file-name-safe identifiers of servers (compatible with mcbackup's).

use vstd::prelude::*;
use crate::text::{lower_char, strip_end_char, string_from_chars, to_chars, to_lower_char};

verus! {

pub open spec fn is_slug_char(c: char) -> bool {
    ('a' <= c && c <= 'z') || ('0' <= c && c <= '9')
}

/// One character of input: a letter or digit is kept lower-cased, anything else becomes a
/// single `-` after a kept character.
pub open spec fn slug_step(out: Seq<char>, c: char) -> Seq<char> {
    let l = lower_char(c);
    if is_slug_char(l) {
        out.push(l)
    } else if out.len() > 0 && out.last() != '-' {
        out.push('-')
    } else {
        out
    }
}

pub open spec fn slug_raw(s: Seq<char>) -> Seq<char>
    decreases s.len(),
{
    if s.len() == 0 {
        Seq::empty()
    } else {
        slug_step(slug_raw(s.drop_last()), s.last())
    }
}

/// Lower-case ASCII letters and digits, runs of anything else as one `-`, no `-` at
/// either end.
pub open spec fn slug_of(s: Seq<char>) -> Seq<char> {
    strip_end_char(slug_raw(s), '-')
}

pub fn slugify(s: &str) -> (r: String)
    ensures
        r@ == slug_of(s@),
{
    let cs = to_chars(s);
    let mut out: Vec<char> = Vec::new();
    let mut i: usize = 0;
    assert(cs@.take(0) =~= Seq::<char>::empty());
    while i < cs.len()
        invariant
            i <= cs@.len(),
            cs@ == s@,
            out@ == slug_raw(cs@.take(i as int)),
        decreases cs@.len() - i,
    {
        assert(cs@.take(i + 1).drop_last() =~= cs@.take(i as int));
        let l = to_lower_char(cs[i]);
        if ('a' <= l && l <= 'z') || ('0' <= l && l <= '9') {
            out.push(l);
        } else if out.len() > 0 && out[out.len() - 1] != '-' {
            out.push('-');
        }
        i = i + 1;
        assert(out@ =~= slug_raw(cs@.take(i as int)));
    }
    assert(cs@.take(cs@.len() as int) =~= cs@);
    let t = crate::text::trim_end_char_vec(out.as_slice(), '-');
    string_from_chars(t.as_slice())
}

} // verus!
