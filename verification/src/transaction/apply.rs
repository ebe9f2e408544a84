//! The lockfile side of a transaction: what applying a manifest does to the lock, what
//! reverting it does, and that the second undoes the first.

use vstd::prelude::*;
use crate::lockfile::{LockFile, PluginEntry, PluginEntryV, SourceRef, SourceRefV, entry_views};
use crate::transaction::rollback_dir;
use crate::util::path::{join, path_join};
use crate::util::sort::{isort, sort_by_key, key_le, key_lt};
use crate::text::{char_key, clone_string, lower, lower_key, opt_view};
use crate::lockfile::DIR;
use crate::archive::{entry_names, zip_entry_names};
use crate::platform::bukkit::{jar_descriptor, Bukkit};
use crate::plugins::hash::{JarHashes, JarHashesV};
use crate::transaction::plan::PlanItem;
use crate::transaction::journal::JournalItem;
use crate::sources::identify::{source_ref, source_ref_spec};
use crate::sources::resolve::{installed_label, installed_label_spec};
use crate::lockfile::{Channel, CompatMode};
use crate::text::{is_prefix, push_str, push_all, take_chars, to_chars, eq_ignore_case, string_from_chars};

verus! {

/// Progress events for user interfaces.
#[derive(Debug, Clone)]
pub enum Progress {
    Step(String),
    Download { name: String, done: u64, total: Option<u64> },
}

/// One swapped plugin, recorded before the swap happens.
#[derive(Debug, Clone)]
pub struct ManifestItem {
    pub name: String,
    pub old_file: Option<String>,
    pub new_file: String,
    pub old_entry: Option<PluginEntry>,
    pub new_entry: PluginEntry,
}

/// The intent log of a transaction, kept with the jars it replaced.
#[derive(Debug, Clone)]
pub struct Manifest {
    pub tx_id: String,
    /// Unix time, in seconds.
    pub time: i64,
    pub items: Vec<ManifestItem>,
    /// Set once every swap finished; a manifest without it means a crash mid-swap.
    pub completed: bool,
}

#[verifier::ext_equal]
pub struct ManifestItemV {
    pub name: Seq<char>,
    pub old_entry: Option<PluginEntryV>,
    pub new_entry: PluginEntryV,
}

impl View for ManifestItem {
    type V = ManifestItemV;

    open spec fn view(&self) -> ManifestItemV {
        ManifestItemV {
            name: self.name@,
            old_entry: match self.old_entry {
                Some(e) => Some(e@),
                None => None,
            },
            new_entry: self.new_entry@,
        }
    }
}

pub open spec fn item_views(v: Seq<ManifestItem>) -> Seq<ManifestItemV> {
    v.map_values(|m: ManifestItem| m@)
}

/// Where a transaction's manifest is kept.
pub fn manifest_path(plugins_dir: &str, tx: &str) -> (r: String)
    ensures
        r@ == path_join(path_join(path_join(path_join(plugins_dir@, DIR@), "rollback"@), tx@), "manifest.toml"@),
{
    let rb = rollback_dir(plugins_dir, tx);
    proof {
        reveal_strlit("manifest.toml");
    }
    join(rb.as_str(), "manifest.toml")
}

/// A GitHub source keeps the asset glob the user chose for the plugin it replaces.
pub open spec fn preserve_glob_spec(new: SourceRefV, from: Option<SourceRefV>) -> SourceRefV {
    match (new, from) {
        (SourceRefV::GitHub { owner, repo, tag, asset_name, .. }, Some(SourceRefV::GitHub { asset_glob, .. })) =>
            SourceRefV::GitHub { owner, repo, asset_glob, tag, asset_name },
        _ => new,
    }
}

pub fn preserve_github_glob(new: SourceRef, from: Option<&PluginEntry>) -> (r: SourceRef)
    ensures
        r@ == preserve_glob_spec(new@, match from {
            Some(f) => Some(f.source@),
            None => None,
        }),
{
    match (new, from) {
        (SourceRef::GitHub { owner, repo, tag, asset_name, asset_glob }, Some(f)) => match &f.source {
            SourceRef::GitHub { asset_glob: g, .. } => SourceRef::GitHub { owner, repo, asset_glob: clone_string(g), tag, asset_name },
            _ => SourceRef::GitHub { owner, repo, asset_glob, tag, asset_name },
        },
        (n, _) => n,
    }
}

// ---------------------------------------------------------------------------------------
// The lock as a sequence of entries.

/// The entries not called `n`, in order.
pub open spec fn drop_named(s: Seq<PluginEntryV>, n: Seq<char>) -> Seq<PluginEntryV>
    decreases s.len(),
{
    if s.len() == 0 {
        Seq::empty()
    } else {
        let r = drop_named(s.drop_last(), n);
        if s.last().name == n { r } else { r.push(s.last()) }
    }
}

/// Applying a manifest: each item's entry replaces the entries of its name, in order.
pub open spec fn apply_seq(s: Seq<PluginEntryV>, items: Seq<ManifestItemV>) -> Seq<PluginEntryV>
    decreases items.len(),
{
    if items.len() == 0 {
        s
    } else {
        drop_named(apply_seq(s, items.drop_last()), items.last().name).push(items.last().new_entry)
    }
}

/// Undoing one item: its entries go, the entry it replaced comes back.
pub open spec fn undo_seq(s: Seq<PluginEntryV>, m: ManifestItemV) -> Seq<PluginEntryV> {
    match m.old_entry {
        Some(o) => drop_named(s, m.name).push(o),
        None => drop_named(s, m.name),
    }
}

/// Reverting a manifest: its items undone from the last to the first.
pub open spec fn revert_seq(s: Seq<PluginEntryV>, items: Seq<ManifestItemV>) -> Seq<PluginEntryV>
    decreases items.len(),
{
    if items.len() == 0 {
        s
    } else {
        revert_seq(undo_seq(s, items.last()), items.drop_last())
    }
}

/// `ks` pairs each entry of `s`, in order, with its sort key, the lower-cased name.
pub open spec fn keyed_entries(ks: Seq<(Vec<u64>, PluginEntry)>, s: Seq<PluginEntryV>) -> bool {
    &&& ks.len() == s.len()
    &&& forall|i: int| 0 <= i < ks.len() ==> (#[trigger] ks[i]).1@ == s[i] && ks[i].0@ == char_key(lower(s[i].name))
}

pub open spec fn entries_of(ks: Seq<(Vec<u64>, PluginEntry)>) -> Seq<PluginEntryV> {
    ks.map_values(|p: (Vec<u64>, PluginEntry)| p.1@)
}

/// `r` is `s` stably sorted by name, ignoring ASCII case.
pub open spec fn sorted_by_name(r: Seq<PluginEntryV>, s: Seq<PluginEntryV>) -> bool {
    exists|ks: Seq<(Vec<u64>, PluginEntry)>| #[trigger] keyed_entries(ks, s) && entries_of(isort(ks)) == r
}

// ---------------------------------------------------------------------------------------
// The lock as a map from plugin name to entry.

pub open spec fn names_unique(s: Seq<PluginEntryV>) -> bool {
    forall|i: int, j: int| 0 <= i < s.len() && 0 <= j < s.len() && i != j ==> (#[trigger] s[i]).name != (#[trigger] s[j]).name
}

pub open spec fn has_name(s: Seq<PluginEntryV>, n: Seq<char>) -> bool {
    exists|i: int| 0 <= i < s.len() && (#[trigger] s[i]).name == n
}

/// The lock's entries by name.
pub open spec fn by_name(s: Seq<PluginEntryV>) -> Map<Seq<char>, PluginEntryV> {
    Map::new(|n: Seq<char>| has_name(s, n), |n: Seq<char>| s[choose|i: int| 0 <= i < s.len() && (#[trigger] s[i]).name == n])
}

pub open spec fn apply_map(m: Map<Seq<char>, PluginEntryV>, items: Seq<ManifestItemV>) -> Map<Seq<char>, PluginEntryV>
    decreases items.len(),
{
    if items.len() == 0 {
        m
    } else {
        apply_map(m, items.drop_last()).insert(items.last().name, items.last().new_entry)
    }
}

pub open spec fn undo_map(m: Map<Seq<char>, PluginEntryV>, it: ManifestItemV) -> Map<Seq<char>, PluginEntryV> {
    match it.old_entry {
        Some(o) => m.remove(it.name).insert(o.name, o),
        None => m.remove(it.name),
    }
}

pub open spec fn revert_map(m: Map<Seq<char>, PluginEntryV>, items: Seq<ManifestItemV>) -> Map<Seq<char>, PluginEntryV>
    decreases items.len(),
{
    if items.len() == 0 {
        m
    } else {
        revert_map(undo_map(m, items.last()), items.drop_last())
    }
}

/// What a manifest written for the lock `m` looks like: one item per plugin name, each new
/// entry under its item's name, each old entry the lock's entry of that name (none for an
/// install).
pub open spec fn manifest_of(m: Map<Seq<char>, PluginEntryV>, items: Seq<ManifestItemV>) -> bool {
    &&& forall|i: int, j: int| 0 <= i < items.len() && 0 <= j < items.len() && i != j ==> (#[trigger] items[i]).name != (#[trigger] items[j]).name
    &&& forall|i: int| 0 <= i < items.len() ==> {
        let it = #[trigger] items[i];
        &&& it.new_entry.name == it.name
        &&& match it.old_entry {
            Some(o) => o.name == it.name && m.contains_key(it.name) && m[it.name] == o,
            None => !m.contains_key(it.name),
        }
    }
}

proof fn lemma_drop_named(s: Seq<PluginEntryV>, n: Seq<char>)
    requires
        names_unique(s),
    ensures
        names_unique(drop_named(s, n)),
        by_name(drop_named(s, n)) =~= by_name(s).remove(n),
        forall|x: PluginEntryV| drop_named(s, n).contains(x) <==> (s.contains(x) && x.name != n),
    decreases s.len(),
{
    let r = drop_named(s, n);
    if s.len() == 0 {
        assert(by_name(r) =~= by_name(s).remove(n));
    } else {
        let init = s.drop_last();
        assert forall|i: int, j: int| 0 <= i < init.len() && 0 <= j < init.len() && i != j implies (#[trigger] init[i]).name != (#[trigger] init[j]).name by {
            assert(init[i] == s[i] && init[j] == s[j]);
        }
        lemma_drop_named(init, n);
        let d = drop_named(init, n);
        assert forall|x: PluginEntryV| r.contains(x) <==> (s.contains(x) && x.name != n) by {
            if r.contains(x) {
                let k = choose|k: int| 0 <= k < r.len() && r[k] == x;
                if s.last().name != n && k == d.len() {
                    assert(s[s.len() - 1] == x);
                } else {
                    assert(r[k] == d[k]);
                    assert(d.contains(x));
                    assert(init.contains(x));
                    let q = choose|q: int| 0 <= q < init.len() && init[q] == x;
                    assert(s[q] == x);
                }
            }
            if s.contains(x) && x.name != n {
                let k = choose|k: int| 0 <= k < s.len() && s[k] == x;
                if k == s.len() - 1 {
                    assert(r[r.len() - 1] == x);
                } else {
                    assert(init[k] == x);
                    assert(init.contains(x));
                    assert(d.contains(x));
                    let q = choose|q: int| 0 <= q < d.len() && d[q] == x;
                    assert(r[q] == x);
                }
            }
        }
        if s.last().name != n {
            let l = s.last();
            assert(!has_name(d, l.name)) by {
                if has_name(d, l.name) {
                    let q = choose|q: int| 0 <= q < d.len() && (#[trigger] d[q]).name == l.name;
                    assert(d.contains(d[q]));
                    assert(init.contains(d[q]));
                    let k = choose|k: int| 0 <= k < init.len() && init[k] == d[q];
                    assert(s[k].name == s[s.len() - 1].name);
                }
            }
            assert forall|i: int, j: int| 0 <= i < r.len() && 0 <= j < r.len() && i != j implies (#[trigger] r[i]).name != (#[trigger] r[j]).name by {
                if i == r.len() - 1 {
                    assert(r[j] == d[j]);
                } else if j == r.len() - 1 {
                    assert(r[i] == d[i]);
                } else {
                    assert(r[i] == d[i] && r[j] == d[j]);
                }
            }
            assert forall|k: Seq<char>| #[trigger] by_name(r).contains_key(k) == by_name(s).remove(n).contains_key(k) by {
                if has_name(r, k) {
                    let q = choose|q: int| 0 <= q < r.len() && (#[trigger] r[q]).name == k;
                    assert(r.contains(r[q]));
                    let z = choose|z: int| 0 <= z < s.len() && s[z] == r[q];
                    assert(s[z].name == k);
                }
                if has_name(s, k) && k != n {
                    let z = choose|z: int| 0 <= z < s.len() && (#[trigger] s[z]).name == k;
                    assert(s.contains(s[z]));
                    assert(r.contains(s[z]));
                    let q = choose|q: int| 0 <= q < r.len() && r[q] == s[z];
                    assert(r[q].name == k);
                }
            }
            assert forall|k: Seq<char>| #[trigger] by_name(r).contains_key(k) implies by_name(r)[k] == by_name(s).remove(n)[k] by {
                let q = choose|q: int| 0 <= q < r.len() && (#[trigger] r[q]).name == k;
                let z = choose|z: int| 0 <= z < s.len() && (#[trigger] s[z]).name == k;
                assert(r.contains(r[q]));
                let z2 = choose|z2: int| 0 <= z2 < s.len() && s[z2] == r[q];
                assert(z2 == z);
            }
            assert(by_name(r) =~= by_name(s).remove(n));
        } else {
            assert(r == d);
            assert forall|k: Seq<char>| #[trigger] by_name(r).contains_key(k) == by_name(s).remove(n).contains_key(k) by {
                if has_name(r, k) {
                    let q = choose|q: int| 0 <= q < r.len() && (#[trigger] r[q]).name == k;
                    assert(r.contains(r[q]));
                    let z = choose|z: int| 0 <= z < s.len() && s[z] == r[q];
                    assert(s[z].name == k);
                }
                if has_name(s, k) && k != n {
                    let z = choose|z: int| 0 <= z < s.len() && (#[trigger] s[z]).name == k;
                    assert(s.contains(s[z]));
                    assert(r.contains(s[z]));
                    let q = choose|q: int| 0 <= q < r.len() && r[q] == s[z];
                    assert(r[q].name == k);
                }
            }
            assert forall|k: Seq<char>| #[trigger] by_name(r).contains_key(k) implies by_name(r)[k] == by_name(s).remove(n)[k] by {
                let q = choose|q: int| 0 <= q < r.len() && (#[trigger] r[q]).name == k;
                let z = choose|z: int| 0 <= z < s.len() && (#[trigger] s[z]).name == k;
                assert(r.contains(r[q]));
                let z2 = choose|z2: int| 0 <= z2 < s.len() && s[z2] == r[q];
                assert(z2 == z);
            }
            assert(by_name(r) =~= by_name(s).remove(n));
        }
    }
}

proof fn lemma_push_new(s: Seq<PluginEntryV>, e: PluginEntryV)
    requires
        names_unique(s),
        !has_name(s, e.name),
    ensures
        names_unique(s.push(e)),
        by_name(s.push(e)) =~= by_name(s).insert(e.name, e),
{
    let r = s.push(e);
    assert forall|i: int, j: int| 0 <= i < r.len() && 0 <= j < r.len() && i != j implies (#[trigger] r[i]).name != (#[trigger] r[j]).name by {
        if i == s.len() {
            assert(r[j] == s[j]);
        } else if j == s.len() {
            assert(r[i] == s[i]);
        } else {
            assert(r[i] == s[i] && r[j] == s[j]);
        }
    }
    assert forall|k: Seq<char>| #[trigger] by_name(r).contains_key(k) == by_name(s).insert(e.name, e).contains_key(k) by {
        if has_name(r, k) && k != e.name {
            let q = choose|q: int| 0 <= q < r.len() && (#[trigger] r[q]).name == k;
            assert(s[q].name == k);
        }
        if has_name(s, k) {
            let q = choose|q: int| 0 <= q < s.len() && (#[trigger] s[q]).name == k;
            assert(r[q].name == k);
        }
        if k == e.name {
            assert(r[s.len() as int].name == k);
        }
    }
    assert forall|k: Seq<char>| #[trigger] by_name(r).contains_key(k) implies by_name(r)[k] == by_name(s).insert(e.name, e)[k] by {
        let q = choose|q: int| 0 <= q < r.len() && (#[trigger] r[q]).name == k;
        if k == e.name {
            assert(r[s.len() as int].name == k);
            assert(q == s.len());
        } else {
            let z = choose|z: int| 0 <= z < s.len() && (#[trigger] s[z]).name == k;
            assert(r[z].name == k);
            assert(q == z);
        }
    }
}

proof fn lemma_drop_named_gone(s: Seq<PluginEntryV>, n: Seq<char>)
    ensures
        !has_name(drop_named(s, n), n),
    decreases s.len(),
{
    if s.len() > 0 {
        lemma_drop_named_gone(s.drop_last(), n);
        let d = drop_named(s.drop_last(), n);
        if s.last().name != n {
            if has_name(d.push(s.last()), n) {
                let q = choose|q: int| 0 <= q < d.len() + 1 && (#[trigger] d.push(s.last())[q]).name == n;
                assert(d.push(s.last())[q] == d[q]);
            }
        }
    }
}

/// Applying a manifest to a lock with unique names: the map view takes each new entry.
proof fn lemma_apply_seq(s: Seq<PluginEntryV>, items: Seq<ManifestItemV>)
    requires
        names_unique(s),
        forall|i: int| 0 <= i < items.len() ==> (#[trigger] items[i]).new_entry.name == items[i].name,
    ensures
        names_unique(apply_seq(s, items)),
        by_name(apply_seq(s, items)) == apply_map(by_name(s), items),
    decreases items.len(),
{
    if items.len() > 0 {
        let init = items.drop_last();
        assert forall|i: int| 0 <= i < init.len() implies (#[trigger] init[i]).new_entry.name == init[i].name by {
            assert(init[i] == items[i]);
        }
        lemma_apply_seq(s, init);
        let a = apply_seq(s, init);
        let l = items.last();
        lemma_drop_named(a, l.name);
        lemma_drop_named_gone(a, l.name);
        lemma_push_new(drop_named(a, l.name), l.new_entry);
        assert(by_name(apply_seq(s, items)) =~= apply_map(by_name(s), items));
    }
}

/// Reverting on a lock with unique names, when every old entry is under its item's name.
proof fn lemma_revert_seq(s: Seq<PluginEntryV>, items: Seq<ManifestItemV>)
    requires
        names_unique(s),
        forall|i: int| 0 <= i < items.len() ==> ((#[trigger] items[i]).old_entry matches Some(o) ==> o.name == items[i].name),
    ensures
        names_unique(revert_seq(s, items)),
        by_name(revert_seq(s, items)) == revert_map(by_name(s), items),
    decreases items.len(),
{
    if items.len() > 0 {
        let init = items.drop_last();
        let l = items.last();
        assert forall|i: int| 0 <= i < init.len() implies ((#[trigger] init[i]).old_entry matches Some(o) ==> o.name == init[i].name) by {
            assert(init[i] == items[i]);
        }
        lemma_drop_named(s, l.name);
        lemma_drop_named_gone(s, l.name);
        let u = undo_seq(s, l);
        match l.old_entry {
            Some(o) => {
                lemma_push_new(drop_named(s, l.name), o);
            },
            None => {},
        }
        assert(by_name(u) =~= undo_map(by_name(s), l));
        lemma_revert_seq(u, init);
    }
}

proof fn lemma_apply_map_other(m: Map<Seq<char>, PluginEntryV>, items: Seq<ManifestItemV>, k: Seq<char>)
    requires
        forall|i: int| 0 <= i < items.len() ==> (#[trigger] items[i]).name != k,
    ensures
        apply_map(m, items).contains_key(k) == m.contains_key(k),
        m.contains_key(k) ==> apply_map(m, items)[k] == m[k],
    decreases items.len(),
{
    if items.len() > 0 {
        let init = items.drop_last();
        assert forall|i: int| 0 <= i < init.len() implies (#[trigger] init[i]).name != k by {
            assert(init[i] == items[i]);
        }
        assert(items[items.len() - 1].name != k);
        lemma_apply_map_other(m, init, k);
    }
}

/// On maps: undoing every item of a manifest, last first, gives back the lock the
/// manifest was written for.
proof fn lemma_revert_apply_map(m: Map<Seq<char>, PluginEntryV>, items: Seq<ManifestItemV>)
    requires
        manifest_of(m, items),
    ensures
        revert_map(apply_map(m, items), items) == m,
    decreases items.len(),
{
    if items.len() > 0 {
        let init = items.drop_last();
        let l = items.last();
        assert(manifest_of(m, init)) by {
            assert forall|i: int, j: int| 0 <= i < init.len() && 0 <= j < init.len() && i != j implies (#[trigger] init[i]).name != (#[trigger] init[j]).name by {
                assert(init[i] == items[i] && init[j] == items[j]);
            }
            assert forall|i: int| 0 <= i < init.len() implies {
                let it = #[trigger] init[i];
                &&& it.new_entry.name == it.name
                &&& match it.old_entry {
                    Some(o) => o.name == it.name && m.contains_key(it.name) && m[it.name] == o,
                    None => !m.contains_key(it.name),
                }
            } by {
                assert(init[i] == items[i]);
            }
        }
        let x = apply_map(m, init);
        assert forall|i: int| 0 <= i < init.len() implies (#[trigger] init[i]).name != l.name by {
            assert(init[i] == items[i]);
            assert(items[items.len() - 1] == l);
        }
        lemma_apply_map_other(m, init, l.name);
        assert(items[items.len() - 1] == l);
        let y = undo_map(x.insert(l.name, l.new_entry), l);
        assert(y =~= x);
        lemma_revert_apply_map(m, init);
    }
}

proof fn lemma_keys_distinct(ks: Seq<(Vec<u64>, PluginEntry)>, s: Seq<PluginEntryV>)
    requires
        keyed_entries(ks, s),
        names_unique(s),
    ensures
        ks.no_duplicates(),
{
    assert forall|i: int, j: int| 0 <= i < ks.len() && 0 <= j < ks.len() && i != j implies ks[i] != ks[j] by {
        assert(ks[i].1@ == s[i] && ks[j].1@ == s[j]);
        assert(s[i].name != s[j].name);
    }
}

/// A stable sort by name keeps a lock's entries and their unique names.
proof fn lemma_sorted_same(r: Seq<PluginEntryV>, s: Seq<PluginEntryV>)
    requires
        sorted_by_name(r, s),
        names_unique(s),
    ensures
        names_unique(r),
        by_name(r) == by_name(s),
{
    broadcast use vstd::seq_lib::group_to_multiset_ensures;
    let ks = choose|ks: Seq<(Vec<u64>, PluginEntry)>| #[trigger] keyed_entries(ks, s) && entries_of(isort(ks)) == r;
    let t = isort(ks);
    crate::util::sort::lemma_isort(ks);
    lemma_keys_distinct(ks, s);
    ks.lemma_multiset_has_no_duplicates();
    t.lemma_multiset_has_no_duplicates_conv();
    assert forall|i: int| 0 <= i < t.len() implies exists|a: int| 0 <= a < ks.len() && ks[a] == #[trigger] t[i] by {
        assert(t.contains(t[i]));
        assert(t.to_multiset().count(t[i]) > 0);
        assert(ks.contains(t[i]));
    }
    assert forall|a: int| 0 <= a < ks.len() implies exists|i: int| 0 <= i < t.len() && t[i] == #[trigger] ks[a] by {
        assert(ks.contains(ks[a]));
        assert(ks.to_multiset().count(ks[a]) > 0);
        assert(t.contains(ks[a]));
    }
    assert(r.len() == t.len());
    assert forall|i: int, j: int| 0 <= i < r.len() && 0 <= j < r.len() && i != j implies (#[trigger] r[i]).name != (#[trigger] r[j]).name by {
        assert(r[i] == t[i].1@ && r[j] == t[j].1@);
        let a = choose|a: int| 0 <= a < ks.len() && ks[a] == t[i];
        let b = choose|b: int| 0 <= b < ks.len() && ks[b] == t[j];
        assert(ks[a].1@ == s[a] && ks[b].1@ == s[b]);
        if r[i].name == r[j].name {
            assert(a == b);
            assert(t[i] == t[j]);
        }
    }
    assert forall|k: Seq<char>| #[trigger] by_name(r).contains_key(k) == by_name(s).contains_key(k) by {
        if has_name(r, k) {
            let q = choose|q: int| 0 <= q < r.len() && (#[trigger] r[q]).name == k;
            assert(r[q] == t[q].1@);
            let a = choose|a: int| 0 <= a < ks.len() && ks[a] == t[q];
            assert(ks[a].1@ == s[a]);
            assert(s[a].name == k);
        }
        if has_name(s, k) {
            let a = choose|a: int| 0 <= a < s.len() && (#[trigger] s[a]).name == k;
            assert(ks[a].1@ == s[a]);
            let q = choose|q: int| 0 <= q < t.len() && t[q] == ks[a];
            assert(r[q] == t[q].1@);
            assert(r[q].name == k);
        }
    }
    assert forall|k: Seq<char>| #[trigger] by_name(r).contains_key(k) implies by_name(r)[k] == by_name(s)[k] by {
        let q = choose|q: int| 0 <= q < r.len() && (#[trigger] r[q]).name == k;
        let z = choose|z: int| 0 <= z < s.len() && (#[trigger] s[z]).name == k;
        assert(r[q] == t[q].1@);
        let a = choose|a: int| 0 <= a < ks.len() && ks[a] == t[q];
        assert(ks[a].1@ == s[a]);
        assert(s[a].name == k);
        assert(a == z);
    }
    assert(by_name(r) =~= by_name(s));
}

/// Reverting a transaction restores the lock it was applied to: for a lock with unique
/// names and a manifest written for it (one item per name, each old entry the lock's entry
/// of that name), applying the manifest and then reverting it leaves every plugin name
/// with the entry it had, and no other names.
pub proof fn lemma_revert_undoes_apply(s: Seq<PluginEntryV>, items: Seq<ManifestItemV>, applied: Seq<PluginEntryV>, reverted: Seq<PluginEntryV>)
    requires
        names_unique(s),
        manifest_of(by_name(s), items),
        sorted_by_name(applied, apply_seq(s, items)),
        sorted_by_name(reverted, revert_seq(applied, items)),
    ensures
        by_name(reverted) == by_name(s),
        names_unique(reverted),
{
    assert forall|i: int| 0 <= i < items.len() implies (#[trigger] items[i]).new_entry.name == items[i].name by {}
    lemma_apply_seq(s, items);
    lemma_sorted_same(applied, apply_seq(s, items));
    assert forall|i: int| 0 <= i < items.len() implies ((#[trigger] items[i]).old_entry matches Some(o) ==> o.name == items[i].name) by {}
    lemma_revert_seq(applied, items);
    lemma_sorted_same(reverted, revert_seq(applied, items));
    lemma_revert_apply_map(by_name(s), items);
}

/// Where an entry sorts in the lock: its name, lower-cased.
pub open spec fn name_key(e: PluginEntryV) -> Seq<u64> {
    char_key(lower(e.name))
}

/// No two entries sort to the same place: their names differ even ignoring ASCII case.
pub open spec fn lower_unique(s: Seq<PluginEntryV>) -> bool {
    forall|i: int, j: int|
        0 <= i < s.len() && 0 <= j < s.len() && i != j ==> name_key(#[trigger] s[i]) != name_key(#[trigger] s[j])
}

/// Entries strictly in name order, ignoring ASCII case.
pub open spec fn in_name_order(s: Seq<PluginEntryV>) -> bool {
    forall|i: int, j: int| 0 <= i < j < s.len() ==> key_lt(name_key(#[trigger] s[i]), name_key(#[trigger] s[j]))
}

proof fn lemma_by_name_at(s: Seq<PluginEntryV>, k: int)
    requires
        names_unique(s),
        0 <= k < s.len(),
    ensures
        by_name(s).contains_key(s[k].name),
        by_name(s)[s[k].name] == s[k],
{
    assert(has_name(s, s[k].name));
    let q = choose|q: int| 0 <= q < s.len() && (#[trigger] s[q]).name == s[k].name;
    assert(q == k);
}

/// The names of `x` are those of `s`, so what holds of the names of `s` up to case
/// holds of those of `x`.
proof fn lemma_lower_unique_same(x: Seq<PluginEntryV>, s: Seq<PluginEntryV>)
    requires
        names_unique(x),
        by_name(x) == by_name(s),
        lower_unique(s),
    ensures
        lower_unique(x),
{
    assert forall|i: int, j: int|
        0 <= i < x.len() && 0 <= j < x.len() && i != j implies name_key(#[trigger] x[i]) != name_key(#[trigger] x[j]) by {
        lemma_by_name_at(x, i);
        lemma_by_name_at(x, j);
        assert(has_name(s, x[i].name) && has_name(s, x[j].name));
        let a = choose|a: int| 0 <= a < s.len() && (#[trigger] s[a]).name == x[i].name;
        let b = choose|b: int| 0 <= b < s.len() && (#[trigger] s[b]).name == x[j].name;
        assert(a != b);
    }
}

/// A stable sort by name of entries whose names differ even ignoring case puts them
/// strictly in name order.
proof fn lemma_sorted_in_order(r: Seq<PluginEntryV>, s: Seq<PluginEntryV>)
    requires
        sorted_by_name(r, s),
        lower_unique(r),
    ensures
        in_name_order(r),
{
    broadcast use vstd::seq_lib::group_to_multiset_ensures;
    let ks = choose|ks: Seq<(Vec<u64>, PluginEntry)>| #[trigger] keyed_entries(ks, s) && entries_of(isort(ks)) == r;
    let t = isort(ks);
    crate::util::sort::lemma_isort(ks);
    assert forall|i: int| 0 <= i < t.len() implies (#[trigger] t[i]).0@ == name_key(r[i]) by {
        assert(t.contains(t[i]));
        assert(t.to_multiset().count(t[i]) > 0);
        assert(ks.contains(t[i]));
        let a = choose|a: int| 0 <= a < ks.len() && ks[a] == t[i];
        assert(ks[a].1@ == s[a]);
        assert(r[i] == entries_of(t)[i]);
    }
    assert forall|i: int, j: int| 0 <= i < j < r.len() implies key_lt(name_key(#[trigger] r[i]), name_key(#[trigger] r[j])) by {
        assert(t[i].0@ == name_key(r[i]) && t[j].0@ == name_key(r[j]));
        assert(key_le(t[i].0@, t[j].0@));
        crate::util::sort::lemma_key_total(name_key(r[i]), name_key(r[j]));
    }
}

proof fn lemma_by_name_drop_first(a: Seq<PluginEntryV>)
    requires
        names_unique(a),
        a.len() > 0,
    ensures
        names_unique(a.drop_first()),
        by_name(a.drop_first()) == by_name(a).remove(a[0].name),
{
    let d = a.drop_first();
    assert forall|i: int, j: int| 0 <= i < d.len() && 0 <= j < d.len() && i != j implies (#[trigger] d[i]).name != (#[trigger] d[j]).name by {
        assert(d[i] == a[i + 1] && d[j] == a[j + 1]);
    }
    let m = by_name(a).remove(a[0].name);
    assert forall|n: Seq<char>| #[trigger] by_name(d).contains_key(n) == m.contains_key(n) by {
        if has_name(d, n) {
            let q = choose|q: int| 0 <= q < d.len() && (#[trigger] d[q]).name == n;
            assert(d[q] == a[q + 1]);
            lemma_by_name_at(a, q + 1);
        }
        if has_name(a, n) && n != a[0].name {
            let q = choose|q: int| 0 <= q < a.len() && (#[trigger] a[q]).name == n;
            assert(q != 0);
            assert(d[q - 1] == a[q]);
            assert(has_name(d, n));
        }
    }
    assert forall|n: Seq<char>| #[trigger] by_name(d).contains_key(n) implies by_name(d)[n] == m[n] by {
        let q = choose|q: int| 0 <= q < d.len() && (#[trigger] d[q]).name == n;
        assert(d[q] == a[q + 1]);
        lemma_by_name_at(d, q);
        lemma_by_name_at(a, q + 1);
    }
    assert(by_name(d) =~= m);
}

/// Two locks with unique names, each strictly in name order, that hold the same entry
/// for each name are the same sequence.
proof fn lemma_ordered_unique(a: Seq<PluginEntryV>, b: Seq<PluginEntryV>)
    requires
        names_unique(a),
        names_unique(b),
        in_name_order(a),
        in_name_order(b),
        by_name(a) == by_name(b),
    ensures
        a == b,
    decreases a.len(),
{
    if a.len() == 0 || b.len() == 0 {
        if a.len() > 0 {
            lemma_by_name_at(a, 0);
        }
        if b.len() > 0 {
            lemma_by_name_at(b, 0);
        }
        assert(a =~= b);
    } else {
        lemma_by_name_at(a, 0);
        lemma_by_name_at(b, 0);
        assert(has_name(b, a[0].name));
        let j = choose|j: int| 0 <= j < b.len() && (#[trigger] b[j]).name == a[0].name;
        lemma_by_name_at(b, j);
        assert(has_name(a, b[0].name));
        let i = choose|i: int| 0 <= i < a.len() && (#[trigger] a[i]).name == b[0].name;
        lemma_by_name_at(a, i);
        assert(b[j] == a[0] && a[i] == b[0]);
        if j > 0 {
            assert(key_lt(name_key(b[0]), name_key(b[j])));
            if i > 0 {
                assert(key_lt(name_key(a[0]), name_key(a[i])));
                crate::util::sort::lemma_key_lt_trans(name_key(a[0]), name_key(a[i]), name_key(a[0]));
                crate::util::sort::lemma_key_lt_irrefl(name_key(a[0]));
            } else {
                assert(b[0].name == b[j].name);
            }
        }
        assert(a[0] == b[0]);
        let da = a.drop_first();
        let db = b.drop_first();
        lemma_by_name_drop_first(a);
        lemma_by_name_drop_first(b);
        assert forall|x: int, y: int| 0 <= x < y < da.len() implies key_lt(name_key(#[trigger] da[x]), name_key(#[trigger] da[y])) by {
            assert(da[x] == a[x + 1] && da[y] == a[y + 1]);
        }
        assert forall|x: int, y: int| 0 <= x < y < db.len() implies key_lt(name_key(#[trigger] db[x]), name_key(#[trigger] db[y])) by {
            assert(db[x] == b[x + 1] && db[y] == b[y + 1]);
        }
        lemma_ordered_unique(da, db);
        assert forall|k: int| 0 <= k < a.len() implies a[k] == b[k] by {
            if k > 0 {
                assert(a[k] == da[k - 1] && b[k] == db[k - 1]);
            }
        }
        assert(a =~= b);
    }
}

/// Reverting a transaction gives back the lock it was applied to, entry for entry and in
/// order: for a lock whose names differ even ignoring ASCII case and a manifest written
/// for it, applying the manifest (the result sorted by name) and then reverting it (sorted
/// again) yields the lock's own entries sorted by name, and nothing else.
pub proof fn lemma_revert_restores_sorted_lock(
    s: Seq<PluginEntryV>,
    items: Seq<ManifestItemV>,
    applied: Seq<PluginEntryV>,
    reverted: Seq<PluginEntryV>,
)
    requires
        lower_unique(s),
        manifest_of(by_name(s), items),
        sorted_by_name(applied, apply_seq(s, items)),
        sorted_by_name(reverted, revert_seq(applied, items)),
    ensures
        in_name_order(reverted),
        by_name(reverted) == by_name(s),
        forall|r: Seq<PluginEntryV>| #[trigger] sorted_by_name(r, s) ==> r == reverted,
{
    assert forall|i: int, j: int| 0 <= i < s.len() && 0 <= j < s.len() && i != j implies (#[trigger] s[i]).name != (#[trigger] s[j]).name by {
        assert(name_key(s[i]) != name_key(s[j]));
    }
    lemma_revert_undoes_apply(s, items, applied, reverted);
    lemma_lower_unique_same(reverted, s);
    lemma_sorted_in_order(reverted, revert_seq(applied, items));
    assert forall|r: Seq<PluginEntryV>| #[trigger] sorted_by_name(r, s) implies r == reverted by {
        lemma_sorted_same(r, s);
        lemma_lower_unique_same(r, s);
        lemma_sorted_in_order(r, s);
        lemma_ordered_unique(r, reverted);
    }
}

// ---------------------------------------------------------------------------------------
// The lock updates themselves.

pub(crate) fn drop_named_vec(ps: Vec<PluginEntry>, name: &str) -> (r: Vec<PluginEntry>)
    ensures
        entry_views(r@) == drop_named(entry_views(ps@), name@),
{
    let ghost sv = entry_views(ps@);
    let n = ps.len();
    let mut rest = ps;
    let mut out: Vec<PluginEntry> = Vec::new();
    let mut i: usize = 0;
    assert(sv.take(0) =~= Seq::<PluginEntryV>::empty());
    while rest.len() > 0
        invariant
            i + rest@.len() == n,
            n == sv.len(),
            entry_views(rest@) == sv.skip(i as int),
            entry_views(out@) == drop_named(sv.take(i as int), name@),
        decreases rest@.len(),
    {
        let e = rest.remove(0);
        assert(sv.take(i + 1).drop_last() =~= sv.take(i as int));
        assert(sv.skip(i as int)[0] == e@);
        assert(sv.take(i + 1).last() == e@);
        let keep = !crate::lockfile::str_eq(e.name.as_str(), name);
        let ghost before = entry_views(out@);
        if keep {
            out.push(e);
            assert(entry_views(out@) =~= before.push(sv[i as int]));
        }
        assert(sv.skip(i as int).drop_first() =~= sv.skip(i + 1));
        i = i + 1;
        assert(entry_views(out@) =~= drop_named(sv.take(i as int), name@));
    }
    assert(sv.take(n as int) =~= sv);
    out
}

/// Sorts entries by name, ignoring ASCII case; equal names keep their order.
pub fn sort_entries(ps: Vec<PluginEntry>) -> (r: Vec<PluginEntry>)
    ensures
        sorted_by_name(entry_views(r@), entry_views(ps@)),
        forall|i: int, j: int| 0 <= i < j < r@.len() ==>
            key_le(char_key(lower((#[trigger] r@[i]).name@)), char_key(lower((#[trigger] r@[j]).name@))),
{
    let ghost sv = entry_views(ps@);
    let n = ps.len();
    let mut keyed: Vec<(Vec<u64>, PluginEntry)> = Vec::new();
    let mut rest = ps;
    let mut i: usize = 0;
    while rest.len() > 0
        invariant
            i + rest@.len() == n,
            n == sv.len(),
            entry_views(rest@) == sv.skip(i as int),
            keyed_entries(keyed@, sv.take(i as int)),
        decreases rest@.len(),
    {
        let e = rest.remove(0);
        assert(sv.skip(i as int)[0] == e@);
        let k = lower_key(e.name.as_str());
        keyed.push((k, e));
        assert(sv.skip(i as int).drop_first() =~= sv.skip(i + 1));
        i = i + 1;
        assert(keyed_entries(keyed@, sv.take(i as int)));
    }
    assert(sv.take(n as int) =~= sv);
    let ghost ks = keyed@;
    let sorted = sort_by_key(keyed);
    proof {
        crate::util::sort::lemma_isort(ks);
    }
    let ghost ss = sorted@;
    let mut out: Vec<PluginEntry> = Vec::new();
    let mut rest2 = sorted;
    let mut j: usize = 0;
    while rest2.len() > 0
        invariant
            j + rest2@.len() == ss.len(),
            ss.len() == n,
            rest2@ == ss.skip(j as int),
            out@ == ss.take(j as int).map_values(|p: (Vec<u64>, PluginEntry)| p.1),
        decreases rest2@.len(),
    {
        let p = rest2.remove(0);
        out.push(p.1);
        j = j + 1;
        assert(ss.skip(j - 1).drop_first() =~= ss.skip(j as int));
        assert(out@ =~= ss.take(j as int).map_values(|p: (Vec<u64>, PluginEntry)| p.1));
    }
    assert(ss.take(ss.len() as int) =~= ss);
    assert(entry_views(out@) =~= entries_of(isort(ks)));
    assert(keyed_entries(ks, sv));
    assert forall|a: int, b: int| 0 <= a < b < out@.len() implies
        key_le(char_key(lower((#[trigger] out@[a]).name@)), char_key(lower((#[trigger] out@[b]).name@))) by {
        broadcast use vstd::seq_lib::group_to_multiset_ensures;
        assert(out@[a] == ss[a].1);
        assert(out@[b] == ss[b].1);
        assert(ss.contains(ss[a]));
        assert(ss.contains(ss[b]));
        assert(ss.to_multiset().count(ss[a]) > 0);
        assert(ks.to_multiset().count(ss[a]) > 0);
        assert(ss.to_multiset().count(ss[b]) > 0);
        assert(ks.to_multiset().count(ss[b]) > 0);
        assert(ks.contains(ss[a]));
        assert(ks.contains(ss[b]));
        let ia = choose|x: int| 0 <= x < ks.len() && ks[x] == ss[a];
        let ib = choose|x: int| 0 <= x < ks.len() && ks[x] == ss[b];
        assert(ks[ia].0@ == char_key(lower(sv[ia].name)));
        assert(ks[ib].0@ == char_key(lower(sv[ib].name)));
    }
    out
}

/// Records an applied transaction in the lock: each item's new entry replaces the entries
/// of its name, then the entries are sorted by name.
pub fn apply_manifest(lock: &mut LockFile, items: &Vec<ManifestItem>)
    ensures
        sorted_by_name(entry_views(final(lock).plugins@), apply_seq(entry_views(old(lock).plugins@), item_views(items@))),
        final(lock).version == old(lock).version,
        final(lock).server == old(lock).server,
{
    let mut ps: Vec<PluginEntry> = Vec::new();
    std::mem::swap(&mut ps, &mut lock.plugins);
    let ghost s0 = entry_views(ps@);
    let ghost iv = item_views(items@);
    let mut k: usize = 0;
    assert(iv.take(0) =~= Seq::<ManifestItemV>::empty());
    while k < items.len()
        invariant
            k <= items@.len(),
            iv == item_views(items@),
            entry_views(ps@) == apply_seq(s0, iv.take(k as int)),
        decreases items@.len() - k,
    {
        let m = &items[k];
        let dropped = drop_named_vec(ps, m.name.as_str());
        ps = dropped;
        let e = m.new_entry.copy();
        let ghost before = entry_views(ps@);
        ps.push(e);
        assert(entry_views(ps@) =~= before.push(m.new_entry@));
        assert(iv.take(k + 1).drop_last() =~= iv.take(k as int));
        assert(iv.take(k + 1).last() == m@);
        k = k + 1;
    }
    assert(iv.take(items@.len() as int) =~= iv);
    let sorted = sort_entries(ps);
    lock.plugins = sorted;
}

/// Takes a transaction back out of the lock: from the last item to the first, the item's
/// entries go and the entry it replaced comes back; then the entries are sorted by name.
/// Returns the names in the order they were undone.
pub fn revert_manifest(lock: &mut LockFile, items: &Vec<ManifestItem>) -> (names: Vec<String>)
    ensures
        sorted_by_name(entry_views(final(lock).plugins@), revert_seq(entry_views(old(lock).plugins@), item_views(items@))),
        final(lock).version == old(lock).version,
        final(lock).server == old(lock).server,
        names@.len() == items@.len(),
        forall|i: int| 0 <= i < items@.len() ==> (#[trigger] names@[i])@ == items@[items@.len() - 1 - i].name@,
{
    let mut ps: Vec<PluginEntry> = Vec::new();
    std::mem::swap(&mut ps, &mut lock.plugins);
    let ghost s0 = entry_views(ps@);
    let ghost iv = item_views(items@);
    let mut names: Vec<String> = Vec::new();
    let mut k: usize = items.len();
    assert(iv.skip(iv.len() as int) =~= Seq::<ManifestItemV>::empty());
    assert(iv.take(iv.len() as int) =~= iv);
    while k > 0
        invariant
            k <= items@.len(),
            iv == item_views(items@),
            revert_seq(s0, iv) == revert_seq(entry_views(ps@), iv.take(k as int)),
            names@.len() == items@.len() - k,
            forall|i: int| 0 <= i < names@.len() ==> (#[trigger] names@[i])@ == items@[items@.len() - 1 - i].name@,
        decreases k,
    {
        k = k - 1;
        let m = &items[k];
        assert(iv.take(k + 1).drop_last() =~= iv.take(k as int));
        assert(iv.take(k + 1).last() == m@);
        let ghost u = undo_seq(entry_views(ps@), m@);
        let dropped = drop_named_vec(ps, m.name.as_str());
        ps = dropped;
        match &m.old_entry {
            Some(o) => {
                let e = o.copy();
                let ghost before = entry_views(ps@);
                ps.push(e);
                assert(entry_views(ps@) =~= before.push(o@));
            },
            None => {},
        }
        assert(entry_views(ps@) == u);
        names.push(clone_string(&m.name));
    }
    assert(iv.take(0) =~= Seq::<ManifestItemV>::empty());
    let sorted = sort_entries(ps);
    lock.plugins = sorted;
    names
}


/// A published checksum the download does not match (compared without ASCII case).
pub open spec fn mismatch(want: Option<Seq<char>>, have: Seq<char>) -> bool {
    match want {
        Some(w) => lower(w) != lower(have),
        None => false,
    }
}

/// A checksum is shown by its first twelve characters (all of it when shorter).
pub open spec fn shown(s: Seq<char>) -> Seq<char> {
    if s.len() >= 12 { s.take(12) } else { s }
}

pub open spec fn mismatch_message(name: Seq<char>, file: Seq<char>, want: Seq<char>, have: Seq<char>) -> Seq<char> {
    name + ": checksum mismatch for "@ + file + " (expected "@ + shown(want) + "…, got "@ + shown(have) + "…)"@
}

/// The first failed check of a download, in the order sha512, sha256, sha1; `None` when
/// every published checksum matches.
pub open spec fn checksum_error(name: Seq<char>, f: crate::sources::model::VersionFileV, got: JarHashesV) -> Option<Seq<char>> {
    if mismatch(f.sha512, got.sha512) {
        Some(mismatch_message(name, f.name, f.sha512->0, got.sha512))
    } else if mismatch(f.sha256, got.sha256) {
        Some(mismatch_message(name, f.name, f.sha256->0, got.sha256))
    } else if mismatch(f.sha1, got.sha1) {
        Some(mismatch_message(name, f.name, f.sha1->0, got.sha1))
    } else {
        None
    }
}

fn check_one(name: &str, file: &str, want: &Option<String>, have: &String) -> (r: Option<String>)
    ensures
        match r {
            Some(m) => mismatch(opt_view(*want), have@) && m@ == mismatch_message(name@, file@, want->0@, have@),
            None => !mismatch(opt_view(*want), have@),
        },
{
    match want {
        Some(w) => {
            let wc = to_chars(w.as_str());
            let hc = to_chars(have.as_str());
            if eq_ignore_case(wc.as_slice(), hc.as_slice()) {
                None
            } else {
                proof {
                    reveal_strlit(": checksum mismatch for ");
                    reveal_strlit(" (expected ");
                    reveal_strlit("…, got ");
                    reveal_strlit("…)");
                }
                let mut out: Vec<char> = Vec::new();
                push_str(&mut out, name);
                push_str(&mut out, ": checksum mismatch for ");
                push_str(&mut out, file);
                push_str(&mut out, " (expected ");
                let a = take_chars(wc.as_slice(), if wc.len() >= 12 { 12 } else { wc.len() });
                push_all(&mut out, a.as_slice());
                push_str(&mut out, "…, got ");
                let b = take_chars(hc.as_slice(), if hc.len() >= 12 { 12 } else { hc.len() });
                push_all(&mut out, b.as_slice());
                assert(wc@.take(wc@.len() as int) =~= wc@);
                assert(hc@.take(hc@.len() as int) =~= hc@);
                push_str(&mut out, "…)");
                Some(string_from_chars(out.as_slice()))
            }
        },
        None => None,
    }
}

/// What checking a downloaded jar finds: a checksum mismatch, a file that is not a jar, a
/// jar without a descriptor for the platform, or an update whose jar names another
/// plugin. `Err` holds the message, except for an unreadable archive, whose message is
/// only known to begin with the plugin's name and `: downloaded file is not a jar: `.
pub open spec fn download_ok(item: PlanItem, got: JarHashesV, kind: crate::server::PlatformKind, jar: Seq<u8>) -> Result<(), Seq<char>> {
    match checksum_error(item.name@, item.file@, got) {
        Some(m) => Err(m),
        None => if zip_entry_names(jar) is None {
            Err(item.name@ + ": downloaded file is not a jar: "@)
        } else {
            match jar_descriptor(kind, jar) {
                None => Err(item.name@ + ": "@ + item.file.name@ + " has no plugin descriptor for this platform"@),
                Some(d) => match item.from {
                    Some(f) => if lower(d.name) != lower(f.name@) {
                        Err(item.name@ + ": downloaded jar identifies itself as "@ + crate::cli::update::debug_quoted(d.name) + " — wrong file?"@)
                    } else {
                        Ok(())
                    },
                    None => Ok(()),
                },
            }
        },
    }
}

/// Checks a downloaded jar before anything on the server is touched: its digests
/// (returned, computed from the bytes themselves) against the published checksums, then
/// the archive and its plugin descriptor.
pub fn verify_download(item: &PlanItem, jar: &[u8], platform: &Bukkit) -> (r: Result<JarHashes, String>)
    ensures
        match download_ok(*item, crate::plugins::hash::hashes_of(jar@), platform.kind, jar@) {
            Ok(()) => r matches Ok(h) && h@ == crate::plugins::hash::hashes_of(jar@),
            Err(m) => r matches Err(e) && (if zip_entry_names(jar@) is None && checksum_error(item.name@, item.file@, crate::plugins::hash::hashes_of(jar@)) is None {
                is_prefix(m, e@)
            } else {
                e@ == m
            }),
        },
{
    let got = JarHashes::of_bytes(jar);
    let name = item.name.as_str();
    let file = item.file.name.as_str();
    if let Some(m) = check_one(name, file, &item.file.sha512, &got.sha512) {
        return Err(m);
    }
    if let Some(m) = check_one(name, file, &item.file.sha256, &got.sha256) {
        return Err(m);
    }
    if let Some(m) = check_one(name, file, &item.file.sha1, &got.sha1) {
        return Err(m);
    }
    proof {
        reveal_strlit(": downloaded file is not a jar: ");
        reveal_strlit(": ");
        reveal_strlit(" has no plugin descriptor for this platform");
        reveal_strlit(": downloaded jar identifies itself as ");
        reveal_strlit(" — wrong file?");
    }
    match entry_names(jar) {
        Err(e) => {
            let head = crate::text::concat2(name, ": downloaded file is not a jar: ");
            let msg = crate::text::concat2(head.as_str(), e.as_str());
            assert(msg@.take(head@.len() as int) =~= head@);
            return Err(msg);
        },
        Ok(_) => {},
    }
    let d = match platform.read_descriptor(jar) {
        Some(d) => d,
        None => {
            let head = crate::text::concat3(name, ": ", file);
            return Err(crate::text::concat2(head.as_str(), " has no plugin descriptor for this platform"));
        },
    };
    match &item.from {
        Some(f) => {
            let dn = to_chars(d.name.as_str());
            let fname = to_chars(f.name.as_str());
            if !eq_ignore_case(dn.as_slice(), fname.as_slice()) {
                let q = crate::cli::update::debug_str(d.name.as_str());
                let head = crate::text::concat3(name, ": downloaded jar identifies itself as ", q.as_str());
                return Err(crate::text::concat2(head.as_str(), " — wrong file?"));
            }
        },
        None => {},
    }
    Ok(got)
}


/// The entry a swapped-in jar gets: the plan's name and file, the descriptor's version
/// and the download's hashes, the replaced entry's channel, pin, ignore list and
/// compatibility mode (defaults for an install), the install time, and the new version as
/// its source (keeping a GitHub asset glob).
pub open spec fn new_entry_spec(item: PlanItem, hashes: JarHashesV, descriptor_version: Option<Seq<char>>, now: i64) -> PluginEntryV {
    PluginEntryV {
        name: item.name@,
        file: item.file.name@,
        descriptor_version,
        hashes,
        channel: match item.from { Some(f) => f.channel, None => Channel::Release },
        pinned: match item.from { Some(f) => f.pinned, None => false },
        ignored_versions: match item.from { Some(f) => f@.ignored_versions, None => Seq::empty() },
        compat: match item.from { Some(f) => f.compat, None => CompatMode::Inherit },
        installed_at: Some(now),
        source: preserve_glob_spec(source_ref_spec(item.project, item.to), match item.from {
            Some(f) => Some(f.source@),
            None => None,
        }),
    }
}

/// The manifest item recorded, before the swap, for a plan item.
pub fn manifest_item(item: &PlanItem, hashes: &JarHashes, descriptor_version: Option<String>, now: i64) -> (r: ManifestItem)
    ensures
        r@.name == item.name@,
        r.new_file@ == item.file.name@,
        opt_view(r.old_file) == match item.from { Some(f) => Some(f.file@), None => None },
        r@.old_entry == match item.from { Some(f) => Some(f@), None => None },
        r@.new_entry == new_entry_spec(*item, hashes@, opt_view(descriptor_version), now),
{
    let ghost dv = opt_view(descriptor_version);
    let new_entry = PluginEntry {
        name: clone_string(&item.name),
        file: clone_string(&item.file.name),
        descriptor_version,
        hashes: hashes.copy(),
        channel: match &item.from { Some(f) => f.channel, None => Channel::Release },
        pinned: match &item.from { Some(f) => f.pinned, None => false },
        ignored_versions: match &item.from { Some(f) => crate::text::clone_strings(&f.ignored_versions), None => Vec::new() },
        compat: match &item.from { Some(f) => f.compat, None => CompatMode::Inherit },
        installed_at: Some(now),
        source: preserve_github_glob(source_ref(&item.project, &item.to), match &item.from { Some(f) => Some(f), None => None }),
    };
    assert(new_entry@ =~= new_entry_spec(*item, hashes@, dv, now));
    ManifestItem {
        name: clone_string(&item.name),
        old_file: match &item.from { Some(f) => Some(clone_string(&f.file)), None => None },
        new_file: clone_string(&item.file.name),
        old_entry: match &item.from { Some(f) => Some(f.copy()), None => None },
        new_entry,
    }
}

/// A journal line's item for an applied swap: old and new version labels and files.
pub open spec fn applied_item_spec(r: JournalItem, m: ManifestItem) -> bool {
    &&& r.name@ == m.name@
    &&& opt_view(r.from) == match m.old_entry { Some(o) => Some(installed_label_spec(o@)), None => None }
    &&& r.to@ == installed_label_spec(m.new_entry@)
    &&& opt_view(r.old_file) == opt_view(m.old_file)
    &&& r.new_file@ == m.new_file@
}

pub fn applied_item(m: &ManifestItem) -> (r: JournalItem)
    ensures
        applied_item_spec(r, *m),
{
    JournalItem {
        name: clone_string(&m.name),
        from: match &m.old_entry { Some(o) => Some(installed_label(o)), None => None },
        to: installed_label(&m.new_entry),
        old_file: crate::text::clone_opt_string(&m.old_file),
        new_file: clone_string(&m.new_file),
    }
}

/// A journal line's item for a reverted swap: the new version back to the old one (or
/// `removed`), the new file back to the old one.
pub open spec fn reverted_item_spec(r: JournalItem, m: ManifestItem) -> bool {
    &&& r.name@ == m.name@
    &&& opt_view(r.from) == Some(installed_label_spec(m.new_entry@))
    &&& r.to@ == match m.old_entry { Some(o) => installed_label_spec(o@), None => "removed"@ }
    &&& opt_view(r.old_file) == Some(m.new_file@)
    &&& r.new_file@ == match m.old_file { Some(f) => f@, None => Seq::<char>::empty() }
}

pub fn reverted_item(m: &ManifestItem) -> (r: JournalItem)
    ensures
        reverted_item_spec(r, *m),
{
    proof {
        reveal_strlit("removed");
    }
    JournalItem {
        name: clone_string(&m.name),
        from: Some(installed_label(&m.new_entry)),
        to: match &m.old_entry { Some(o) => installed_label(o), None => String::from_str("removed") },
        old_file: Some(clone_string(&m.new_file)),
        new_file: match &m.old_file { Some(f) => clone_string(f), None => String::new() },
    }
}

/// A transaction is an install when no item replaces an installed plugin, else an update.
pub fn tx_action(items: &Vec<PlanItem>) -> (r: &'static str)
    ensures
        r@ == (if forall|i: int| 0 <= i < items@.len() ==> (#[trigger] items@[i]).from is None { "install"@ } else { "update"@ }),
{
    let mut i: usize = 0;
    while i < items.len()
        invariant
            i <= items@.len(),
            forall|j: int| 0 <= j < i ==> (#[trigger] items@[j]).from is None,
        decreases items@.len() - i,
    {
        if items[i].from.is_some() {
            return "update";
        }
        i = i + 1;
    }
    "install"
}

} // verus!
