//! What a walk of a server's plugin directory found.

use vstd::prelude::*;
use crate::platform::PluginDescriptor;
use crate::plugins::hash::JarHashes;
use crate::text::{clone_string, concat3, is_suffix, sviews, to_chars};
use crate::util::sort::{sort_strings, sorted_strs};

verus! {

#[derive(Debug, Clone)]
pub struct ScannedJar {
    pub file: String,
    pub path: String,
    pub hashes: JarHashes,
    /// `None` when the jar has no descriptor for this platform (a Fabric mod dropped into
    /// `plugins/`, a library jar, a corrupt file).
    pub descriptor: Option<PluginDescriptor>,
    /// Unix time (seconds, UTC) of the last modification.
    pub modified: Option<i64>,
}

#[derive(Debug, Default, Clone)]
pub struct ScanResult {
    pub jars: Vec<ScannedJar>,
    /// Jars sitting in Bukkit's `update/` folder: someone else has staged an update.
    pub staged_updates: Vec<String>,
    /// Count of jars in `disabled/` (user convention).
    pub disabled: usize,
    /// Descriptor names that appear on more than one jar.
    pub duplicates: Vec<String>,
    pub errors: Vec<String>,
}

/// A file the scan reads as a plugin: its extension (after the last `.`, which must not
/// be the name's first character) is `jar`.
pub open spec fn is_jar_file_spec(name: Seq<char>) -> bool {
    exists|i: int| #![trigger name[i]]
        0 < i < name.len() && name[i] == '.' && name.skip(i + 1) == "jar"@
            && forall|j: int| i < j < name.len() ==> name[j] != '.'
}

pub fn is_jar_file(name: &str) -> (r: bool)
    ensures
        r == is_jar_file_spec(name@),
{
    proof {
        reveal_strlit("jar");
    }
    let cs = to_chars(name);
    let n = cs.len();
    if n < 5 {
        proof {
            assert forall|i: int| 0 < i < name@.len() && name@[i] == '.' implies name@.skip(i + 1) != "jar"@ by {
                assert(name@.skip(i + 1).len() < 3);
            }
        }
        return false;
    }
    // the extension is exactly `jar` iff the name ends with `.jar` and that `.` is not its
    // first character
    let r = cs[n - 4] == '.' && cs[n - 3] == 'j' && cs[n - 2] == 'a' && cs[n - 1] == 'r';
    proof {
        if r {
            let i = n - 4;
            assert(name@.skip(i + 1) =~= "jar"@);
            assert(name@[i as int] == '.');
        } else {
            assert forall|i: int| 0 < i < name@.len() && name@[i] == '.' && name@.skip(i + 1) == "jar"@
                implies exists|j: int| i < j < name@.len() && name@[j] == '.' by {
                assert(name@.skip(i + 1).len() == 3);
                assert(i == n - 4);
                assert(name@.skip(i + 1)[0] == name@[n - 3]);
                assert(name@.skip(i + 1)[1] == name@[n - 2]);
                assert(name@.skip(i + 1)[2] == name@[n - 1]);
            }
        }
    }
    r
}

/// The jars of a directory (`update/`, `disabled/`): the names ending in `.jar`, sorted.
pub fn jar_names(names: &Vec<String>) -> (r: Vec<String>)
    ensures
        sorted_strs(sviews(r@)),
        sviews(r@).to_multiset() == jar_suffixed(sviews(names@)).to_multiset(),
{
    let mut out: Vec<String> = Vec::new();
    let mut i: usize = 0;
    while i < names.len()
        invariant
            i <= names@.len(),
            sviews(out@) == jar_suffixed(sviews(names@).take(i as int)),
        decreases names@.len() - i,
    {
        assert(sviews(names@).take(i + 1).drop_last() =~= sviews(names@).take(i as int));
        assert(sviews(names@).take(i + 1).last() == names@[i as int]@);
        let cs = to_chars(names[i].as_str());
        let suffix = to_chars(".jar");
        proof {
            reveal_strlit(".jar");
        }
        if crate::text::ends_with(cs.as_slice(), suffix.as_slice()) {
            let ghost o0 = sviews(out@);
            out.push(clone_string(&names[i]));
            assert(sviews(out@) =~= o0.push(names@[i as int]@));
        }
        i = i + 1;
    }
    assert(sviews(names@).take(names@.len() as int) =~= sviews(names@));
    sort_strings(out)
}

/// The names that end in `.jar`, in order.
pub open spec fn jar_suffixed(s: Seq<Seq<char>>) -> Seq<Seq<char>>
    decreases s.len(),
{
    if s.len() == 0 {
        Seq::empty()
    } else {
        let r = jar_suffixed(s.drop_last());
        if is_suffix(".jar"@, s.last()) { r.push(s.last()) } else { r }
    }
}

/// The descriptor names of the scanned jars, in order.
pub open spec fn descriptor_names(js: Seq<ScannedJar>) -> Seq<Seq<char>>
    decreases js.len(),
{
    if js.len() == 0 {
        Seq::empty()
    } else {
        let r = descriptor_names(js.drop_last());
        match js.last().descriptor {
            Some(d) => r.push(d.name@),
            None => r,
        }
    }
}

/// How often `x` occurs in `s`.
pub open spec fn occurrences(s: Seq<Seq<char>>, x: Seq<char>) -> nat
    decreases s.len(),
{
    if s.len() == 0 {
        0
    } else {
        occurrences(s.drop_last(), x) + if s.last() == x { 1nat } else { 0nat }
    }
}

proof fn lemma_occurrences_contains(s: Seq<Seq<char>>, x: Seq<char>)
    ensures
        occurrences(s, x) > 0 <==> s.contains(x),
    decreases s.len(),
{
    if s.len() > 0 {
        lemma_occurrences_contains(s.drop_last(), x);
        if s.drop_last().contains(x) {
            let k = choose|k: int| 0 <= k < s.drop_last().len() && s.drop_last()[k] == x;
            assert(s[k] == x);
        }
        if s.contains(x) && s.last() != x {
            let k = choose|k: int| 0 <= k < s.len() && s[k] == x;
            assert(s.drop_last()[k] == x);
        }
    }
}

fn count_name(names: &Vec<String>, x: &str) -> (r: usize)
    ensures
        r == occurrences(sviews(names@), x@),
{
    let mut c: usize = 0;
    let mut j: usize = 0;
    while j < names.len()
        invariant
            j <= names@.len(),
            c == occurrences(sviews(names@).take(j as int), x@),
            c <= j,
        decreases names@.len() - j,
    {
        assert(sviews(names@).take(j + 1).drop_last() =~= sviews(names@).take(j as int));
        assert(sviews(names@).take(j + 1).last() == names@[j as int]@);
        if crate::lockfile::str_eq(names[j].as_str(), x) {
            c = c + 1;
        }
        j = j + 1;
    }
    assert(sviews(names@).take(names@.len() as int) =~= sviews(names@));
    c
}

/// Descriptor names that appear on more than one jar, each once, sorted.
pub fn duplicate_names(jars: &Vec<ScannedJar>) -> (r: Vec<String>)
    ensures
        sorted_strs(sviews(r@)),
        sviews(r@).no_duplicates(),
        forall|x: Seq<char>| sviews(r@).contains(x) <==> occurrences(descriptor_names(jars@), x) > 1,
{
    let mut names: Vec<String> = Vec::new();
    let mut i: usize = 0;
    while i < jars.len()
        invariant
            i <= jars@.len(),
            sviews(names@) == descriptor_names(jars@.take(i as int)),
        decreases jars@.len() - i,
    {
        assert(jars@.take(i + 1).drop_last() =~= jars@.take(i as int));
        assert(jars@.take(i + 1).last() == jars@[i as int]);
        if let Some(d) = &jars[i].descriptor {
            let ghost n0 = sviews(names@);
            names.push(clone_string(&d.name));
            assert(sviews(names@) =~= n0.push(d.name@));
        }
        i = i + 1;
    }
    assert(jars@.take(jars@.len() as int) =~= jars@);
    let ghost ns = sviews(names@);
    let mut dups: Vec<String> = Vec::new();
    let mut k: usize = 0;
    while k < names.len()
        invariant
            k <= names@.len(),
            ns == sviews(names@),
            sviews(dups@).no_duplicates(),
            forall|x: Seq<char>| sviews(dups@).contains(x) <==> (occurrences(ns, x) > 1 && ns.take(k as int).contains(x)),
        decreases names@.len() - k,
    {
        let c = count_name(&names, names[k].as_str());
        let ghost x0 = ns[k as int];
        assert(names@[k as int]@ == x0);
        let mut seen = false;
        let mut m: usize = 0;
        while m < dups.len()
            invariant
                m <= dups@.len(),
                k < names@.len(),
                ns == sviews(names@),
                x0 == ns[k as int],
                seen == sviews(dups@).take(m as int).contains(x0),
            decreases dups@.len() - m,
        {
            let ghost dm = sviews(dups@);
            assert(dm.take(m + 1) =~= dm.take(m as int).push(dm[m as int]));
            let hit = crate::lockfile::str_eq(dups[m].as_str(), names[k].as_str());
            proof {
                let a = dm.take(m as int);
                let b = dm.take(m + 1);
                if a.contains(x0) {
                    let q = choose|q: int| 0 <= q < a.len() && #[trigger] a[q] == x0;
                    assert(b[q] == x0);
                }
                if b.contains(x0) && !hit {
                    let q = choose|q: int| 0 <= q < b.len() && #[trigger] b[q] == x0;
                    assert(q != m);
                    assert(a[q] == x0);
                }
                if hit {
                    assert(b[m as int] == x0);
                }
            }
            if hit {
                seen = true;
            }
            m = m + 1;
        }
        assert(sviews(dups@).take(dups@.len() as int) =~= sviews(dups@));
        let ghost d0 = sviews(dups@);
        let ghost t0 = ns.take(k as int);
        let ghost t1 = ns.take(k + 1);
        assert(t1 =~= t0.push(x0));
        let pushed = c > 1 && !seen;
        if pushed {
            dups.push(clone_string(&names[k]));
            assert(sviews(dups@) =~= d0.push(x0));
            assert forall|a: int, b: int| 0 <= a < b < sviews(dups@).len() implies sviews(dups@)[a] != sviews(dups@)[b] by {
                if b == d0.len() {
                    assert(sviews(dups@)[a] == d0[a]);
                    assert(d0.contains(d0[a]));
                }
            }
        }
        proof {
            assert forall|x: Seq<char>| sviews(dups@).contains(x) <==> (occurrences(ns, x) > 1 && ns.take(k + 1).contains(x)) by {
                if x == x0 {
                    assert(t1[k as int] == x0);
                }
                if t1.contains(x) && x != x0 {
                    let q = choose|q: int| 0 <= q < t1.len() && #[trigger] t1[q] == x;
                    assert(q != k);
                    assert(t0[q] == x);
                }
                if t0.contains(x) {
                    let q = choose|q: int| 0 <= q < t0.len() && #[trigger] t0[q] == x;
                    assert(t1[q] == x);
                }
                if pushed {
                    let dn = sviews(dups@);
                    if dn.contains(x) && x != x0 {
                        let q = choose|q: int| 0 <= q < dn.len() && #[trigger] dn[q] == x;
                        assert(q != d0.len());
                        assert(d0[q] == x);
                    }
                    if d0.contains(x) {
                        let q = choose|q: int| 0 <= q < d0.len() && #[trigger] d0[q] == x;
                        assert(dn[q] == x);
                    }
                    if x == x0 {
                        assert(dn[d0.len() as int] == x0);
                    }
                }
            }
        }
        k = k + 1;
    }
    assert(ns.take(names@.len() as int) =~= ns);
    let ghost dv = sviews(dups@);
    let r = sort_strings(dups);
    proof {
        dv.lemma_multiset_has_no_duplicates();
        dv.to_multiset_ensures();
        sviews(r@).to_multiset_ensures();
        sviews(r@).lemma_multiset_has_no_duplicates_conv();
        assert forall|x: Seq<char>| sviews(r@).contains(x) <==> occurrences(descriptor_names(jars@), x) > 1 by {
            assert(sviews(r@).to_multiset().count(x) == dv.to_multiset().count(x));
            lemma_occurrences_contains(ns, x);
        }
    }
    r
}

/// How an entry that cannot be read is reported.
pub fn scan_error(path: &str, err: &str) -> (r: String)
    ensures
        r@ == path@ + ": "@ + err@,
{
    concat3(path, ": ", err)
}

} // verus!
