//! Applying plugin changes safely: nothing on the live server is touched until every file
//! is downloaded and verified, every swap is recorded before it happens, and a
//! transaction can be reverted from its manifest.

pub mod apply;
pub mod flow;
pub mod journal;
pub mod plan;
pub mod planner;
pub mod swap;

use vstd::prelude::*;
use crate::lockfile::DIR;
use crate::util::path::{join, path_join};
use crate::util::sort::{sort_strings, sorted_strs};
use crate::text::{clone_string, is_prefix, sviews};

verus! {

/// `plugins/.mcplug`: the lockfile, journal, staging and rollback data.
pub fn mcplug_dir(plugins_dir: &str) -> (r: String)
    ensures
        r@ == path_join(plugins_dir@, DIR@),
{
    join(plugins_dir, DIR)
}

/// Where a transaction's downloads wait until they are verified.
pub fn staging_dir(plugins_dir: &str, tx: &str) -> (r: String)
    ensures
        r@ == path_join(path_join(path_join(plugins_dir@, DIR@), "staging"@), tx@),
{
    let m = mcplug_dir(plugins_dir);
    let s = join(m.as_str(), "staging");
    proof {
        reveal_strlit("staging");
    }
    join(s.as_str(), tx)
}

/// Where a transaction keeps the jars it replaced, and its manifest.
pub fn rollback_dir(plugins_dir: &str, tx: &str) -> (r: String)
    ensures
        r@ == path_join(path_join(path_join(plugins_dir@, DIR@), "rollback"@), tx@),
{
    let m = mcplug_dir(plugins_dir);
    let s = join(m.as_str(), "rollback");
    proof {
        reveal_strlit("rollback");
    }
    join(s.as_str(), tx)
}

/// How many rollback directories are kept; older ones are removed after each apply.
pub const KEEP_ROLLBACKS: usize = 5;

/// The rollback directories to remove so that only the `keep` latest (by name, which
/// starts with the transaction's time) remain: the earliest ones.
pub fn rollbacks_to_prune(dirs: Vec<String>, keep: usize) -> (r: Vec<String>)
    ensures
        r@.len() == (if dirs@.len() > keep { dirs@.len() - keep } else { 0 }),
        exists|s: Seq<Seq<char>>| #![trigger sorted_strs(s)]
            sorted_strs(s) && s.to_multiset() == sviews(dirs@).to_multiset() && sviews(r@) == s.take(r@.len() as int),
{
    let n = dirs.len();
    let count: usize = if n > keep { n - keep } else { 0 };
    let sorted = sort_strings(dirs);
    let ghost s = sviews(sorted@);
    proof {
        s.to_multiset_ensures();
        sviews(dirs@).to_multiset_ensures();
    }
    let mut out: Vec<String> = Vec::new();
    let mut i: usize = 0;
    while i < count
        invariant
            count <= sorted@.len(),
            i <= count,
            s == sviews(sorted@),
            sviews(out@) == s.take(i as int),
        decreases count - i,
    {
        let c = clone_string(&sorted[i]);
        let ghost prev = sviews(out@);
        out.push(c);
        assert(sviews(out@) =~= prev.push(c@));
        assert(s[i as int] == sorted@[i as int]@);
        assert(s.take(i + 1) =~= s.take(i as int).push(s[i as int]));
        i = i + 1;
    }
    assert(sorted_strs(s));
    out
}

/// The transactions whose manifest was never marked complete (a crash mid-swap), by name.
pub fn incomplete_transactions(found: &Vec<(String, bool)>) -> (r: Vec<String>)
    ensures
        sorted_strs(sviews(r@)),
        sviews(r@).to_multiset() == incomplete_names(found@).to_multiset(),
{
    let mut names: Vec<String> = Vec::new();
    let mut i: usize = 0;
    while i < found.len()
        invariant
            i <= found@.len(),
            sviews(names@) == incomplete_names(found@.take(i as int)),
        decreases found@.len() - i,
    {
        assert(found@.take(i + 1).drop_last() =~= found@.take(i as int));
        if !found[i].1 {
            names.push(clone_string(&found[i].0));
        }
        proof {
            assert(found@.take(i + 1).last() == found@[i as int]);
        }
        i = i + 1;
    }
    assert(found@.take(found@.len() as int) =~= found@);
    sort_strings(names)
}

/// The names of the transactions not marked complete, in the order found.
pub open spec fn incomplete_names(found: Seq<(String, bool)>) -> Seq<Seq<char>>
    decreases found.len(),
{
    if found.len() == 0 {
        Seq::empty()
    } else {
        let r = incomplete_names(found.drop_last());
        if found.last().1 { r } else { r.push(found.last().0@) }
    }
}

/// A transaction's staging directory and any transaction's rollback directory are never
/// the same path, and both lie under `plugins/.mcplug`.
pub proof fn lemma_tx_dirs_apart(p: Seq<char>, a: Seq<char>, b: Seq<char>)
    requires
        !(a.len() > 0 && a[0] == '/'),
        !(b.len() > 0 && b[0] == '/'),
    ensures
        path_join(path_join(path_join(p, DIR@), "staging"@), a) != path_join(path_join(path_join(p, DIR@), "rollback"@), b),
        is_prefix(path_join(p, DIR@) + seq!['/'], path_join(path_join(path_join(p, DIR@), "staging"@), a)),
        is_prefix(path_join(p, DIR@) + seq!['/'], path_join(path_join(path_join(p, DIR@), "rollback"@), b)),
{
    reveal_strlit(".mcplug");
    reveal_strlit("staging");
    reveal_strlit("rollback");
    let m = path_join(p, DIR@);
    assert(DIR@ == ".mcplug"@);
    assert(m.len() > 0 && m.last() == 'g');
    let ms = path_join(m, "staging"@);
    let mr = path_join(m, "rollback"@);
    assert(ms =~= m + seq!['/'] + "staging"@);
    assert(mr =~= m + seq!['/'] + "rollback"@);
    assert(ms.last() == 'g' && mr.last() == 'k');
    let sa = path_join(ms, a);
    let rb = path_join(mr, b);
    assert(sa =~= ms + seq!['/'] + a);
    assert(rb =~= mr + seq!['/'] + b);
    let k: int = (m.len() + 1) as int;
    assert(sa[k] == 's');
    assert(rb[k] == 'r');
    assert(sa.take(k) =~= m + seq!['/']);
    assert(rb.take(k) =~= m + seq!['/']);
}

} // verus!
