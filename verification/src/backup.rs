//! Optional integration with mcbackup: a pinned checkpoint before an update and a normal
//! snapshot after a successful restart. Running the tool is the caller's part.

use vstd::prelude::*;
use crate::text::{opt_view, lines, lines_of, split_chars, split_on, split_words, string_from_chars, to_chars, views, words};
use crate::util::path::{join, path_join};

verus! {

#[derive(Debug, Clone)]
pub struct Mcbackup {
    pub bin: String,
}

/// The places `auto` looks first, before `$PATH`.
pub open spec fn fixed_candidates() -> Seq<Seq<char>> {
    seq!["/usr/local/bin/mcbackup"@, "/usr/bin/mcbackup"@]
}

/// The tool a setting selects: `off` or empty turns backups off, `auto` takes what the
/// search found, anything else is the path of the tool.
pub open spec fn detected(setting: Seq<char>, found: Option<Seq<char>>) -> Option<Seq<char>> {
    if setting == "off"@ || setting.len() == 0 {
        None
    } else if setting == "auto"@ {
        found
    } else {
        Some(setting)
    }
}

impl Mcbackup {
    /// Honours the `backup.mcbackup` setting: `off` or empty turns backups off, `auto`
    /// uses what the search found (`found`: the first of the fixed candidates, then of
    /// `$PATH`, that exists), anything else is the path of the tool.
    pub fn detect(setting: &str, found: Option<String>) -> (r: Option<Mcbackup>)
        ensures
            match detected(setting@, opt_view(found)) {
                Some(b) => r matches Some(m) && m.bin@ == b,
                None => r is None,
            },
    {
        let s = to_chars(setting);
        if crate::lockfile::str_eq(setting, "off") || s.len() == 0 {
            None
        } else if crate::lockfile::str_eq(setting, "auto") {
            match found {
                Some(f) => Some(Mcbackup { bin: f }),
                None => None,
            }
        } else {
            Some(Mcbackup { bin: String::from_str(setting) })
        }
    }

    /// The arguments of a pinned checkpoint, which retention never removes.
    pub fn checkpoint_args(slug: &str, message: &str) -> (r: Vec<String>)
        ensures
            r@.len() == 4 && r@[0]@ == "checkpoint"@ && r@[1]@ == slug@ && r@[2]@ == "-m"@ && r@[3]@ == message@,
    {
        let mut v: Vec<String> = Vec::new();
        v.push(String::from_str("checkpoint"));
        v.push(String::from_str(slug));
        v.push(String::from_str("-m"));
        v.push(String::from_str(message));
        v
    }

    /// The arguments of a normal snapshot.
    pub fn backup_args(slug: &str, message: &str) -> (r: Vec<String>)
        ensures
            r@.len() == 4 && r@[0]@ == "backup"@ && r@[1]@ == slug@ && r@[2]@ == "-m"@ && r@[3]@ == message@,
    {
        let mut v: Vec<String> = Vec::new();
        v.push(String::from_str("backup"));
        v.push(String::from_str(slug));
        v.push(String::from_str("-m"));
        v.push(String::from_str(message));
        v
    }
}

/// The source names in `mcbackup discover` output: the first word of every line that does
/// not start with a space (indented lines are details).
pub open spec fn discovered_sources(ls: Seq<Seq<char>>) -> Seq<Seq<char>>
    decreases ls.len(),
{
    if ls.len() == 0 {
        Seq::empty()
    } else {
        let r = discovered_sources(ls.drop_last());
        let l = ls.last();
        if l.len() > 0 && l[0] == ' ' {
            r
        } else if words(l).len() > 0 {
            r.push(words(l)[0])
        } else {
            r
        }
    }
}

pub fn parse_sources(out: &str) -> (r: Vec<String>)
    ensures
        crate::text::sviews(r@) == discovered_sources(lines_of(out@)),
{
    let cs = to_chars(out);
    let ls = lines(cs.as_slice());
    let ghost lv = views(ls@);
    let mut res: Vec<String> = Vec::new();
    let mut i: usize = 0;
    assert(lv.take(0) =~= Seq::<Seq<char>>::empty());
    while i < ls.len()
        invariant
            i <= ls@.len(),
            lv == views(ls@),
            crate::text::sviews(res@) == discovered_sources(lv.take(i as int)),
        decreases ls@.len() - i,
    {
        assert(lv.take(i + 1).drop_last() =~= lv.take(i as int));
        assert(lv.take(i + 1).last() == ls@[i as int]@);
        let l = &ls[i];
        if !(l.len() > 0 && l[0] == ' ') {
            let ws = split_words(l.as_slice());
            if ws.len() > 0 {
                assert(views(ws@)[0] == ws@[0]@);
                let ghost before = crate::text::sviews(res@);
                res.push(string_from_chars(ws[0].as_slice()));
                assert(crate::text::sviews(res@) =~= before.push(ws@[0]@));
            }
        }
        i = i + 1;
    }
    assert(lv.take(ls@.len() as int) =~= lv);
    res
}

/// Where a tool called `name` would be in each directory of a `$PATH` value.
pub fn path_candidates(path_var: &str, name: &str) -> (r: Vec<String>)
    ensures
        crate::text::sviews(r@) == split_on(path_var@, seq![':']).map_values(|d: Seq<char>| path_join(d, name@)),
{
    let cs = to_chars(path_var);
    let sep = vec![':'];
    let ds = split_chars(cs.as_slice(), sep.as_slice());
    assert(sep@ =~= seq![':']);
    let ghost dv = views(ds@);
    let mut out: Vec<String> = Vec::new();
    let mut i: usize = 0;
    while i < ds.len()
        invariant
            i <= ds@.len(),
            dv == views(ds@),
            crate::text::sviews(out@) == dv.take(i as int).map_values(|d: Seq<char>| path_join(d, name@)),
        decreases ds@.len() - i,
    {
        let d = string_from_chars(ds[i].as_slice());
        let ghost before = crate::text::sviews(out@);
        let p = join(d.as_str(), name);
        assert(p@ == path_join(dv[i as int], name@));
        out.push(p);
        assert(crate::text::sviews(out@) =~= before.push(path_join(dv[i as int], name@)));
        assert(dv.take(i + 1) =~= dv.take(i as int).push(dv[i as int]));
        i = i + 1;
    }
    assert(dv.take(ds@.len() as int) =~= dv);
    out
}

} // verus!
