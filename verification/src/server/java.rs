//! Which Java a start command will run: reading the `java -version` banner.

use vstd::prelude::*;
use crate::text::{contains, has_sub, lines, lines_of, parse_u32, parse_u32_spec, split_chars, split_on, to_chars, views, lemma_split_on_nonempty};

verus! {

/// The first line that contains `sub`.
pub open spec fn first_containing(ls: Seq<Seq<char>>, sub: Seq<char>) -> Option<Seq<char>>
    decreases ls.len(),
{
    if ls.len() == 0 {
        None
    } else if has_sub(ls[0], sub) {
        Some(ls[0])
    } else {
        first_containing(ls.drop_first(), sub)
    }
}

/// Major version from the quoted version string: `21.0.11` is 21, `1.8.0_392` is 8.
pub open spec fn java_major_of(quoted: Seq<char>) -> Option<u32> {
    let parts = split_on(quoted, seq!['.', '_', '-']);
    match parse_u32_spec(parts[0]) {
        Some(first) => {
            if first == 1 {
                if parts.len() >= 2 { parse_u32_spec(parts[1]) } else { None }
            } else {
                Some(first)
            }
        },
        None => None,
    }
}

/// Major version reported by `java -version`: the first line mentioning `version`, the
/// text between its first pair of double quotes.
pub open spec fn java_version_spec(text: Seq<char>) -> Option<u32> {
    match first_containing(lines_of(text), "version"@) {
        Some(line) => {
            let q = split_on(line, seq!['"']);
            if q.len() >= 2 { java_major_of(q[1]) } else { None }
        },
        None => None,
    }
}

/// Index of the first line that contains `key`.
fn first_line_with(ls: &Vec<Vec<char>>, key: &[char]) -> (r: Option<usize>)
    ensures
        match r {
            Some(k) => k < ls@.len() && first_containing(views(ls@), key@) == Some(ls@[k as int]@),
            None => first_containing(views(ls@), key@) is None,
        },
{
    let ghost lv = views(ls@);
    let mut i: usize = 0;
    assert(lv.skip(0) =~= lv);
    while i < ls.len()
        invariant
            i <= ls@.len(),
            lv == views(ls@),
            first_containing(lv, key@) == first_containing(lv.skip(i as int), key@),
        decreases ls@.len() - i,
    {
        assert(lv.skip(i as int)[0] == ls@[i as int]@);
        if contains(ls[i].as_slice(), key) {
            return Some(i);
        }
        assert(lv.skip(i as int).drop_first() =~= lv.skip(i + 1));
        i = i + 1;
    }
    assert(lv.skip(i as int) =~= Seq::<Seq<char>>::empty());
    None
}

pub fn parse_java_version_output(text: &str) -> (r: Option<u32>)
    ensures
        r == java_version_spec(text@),
{
    let cs = to_chars(text);
    let ls = lines(cs.as_slice());
    let ghost lv = views(ls@);
    let key = to_chars("version");
    let idx = match first_line_with(&ls, key.as_slice()) {
        Some(k) => k,
        None => return None,
    };
    assert(first_containing(lv, key@) == Some(ls@[idx as int]@));
    let quote = vec!['"'];
    assert(quote@ =~= seq!['"']);
    let q = split_chars(ls[idx].as_slice(), quote.as_slice());
    if q.len() < 2 {
        return None;
    }
    let seps = vec!['.', '_', '-'];
    assert(seps@ =~= seq!['.', '_', '-']);
    let parts = split_chars(q[1].as_slice(), seps.as_slice());
    proof {
        lemma_split_on_nonempty(q@[1]@, seps@);
    }
    assert(views(q@)[1] == q@[1]@);
    let ghost pv = views(parts@);
    assert(pv[0] == parts@[0]@);
    let first = match parse_u32(parts[0].as_slice()) {
        Some(f) => f,
        None => return None,
    };
    if first == 1 {
        if parts.len() >= 2 {
            assert(pv[1] == parts@[1]@);
            parse_u32(parts[1].as_slice())
        } else {
            None
        }
    } else {
        Some(first)
    }
}

} // verus!
