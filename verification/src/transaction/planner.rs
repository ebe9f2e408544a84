//! Building an update plan. Requests are taken from a queue, last first; for each, the
//! caller fetches the project and then its versions, and the planner decides what becomes
//! of it: a note, an item, an error, and the required dependencies it brings.

use vstd::prelude::*;
use crate::lockfile::{LockFile, PluginEntry, PluginEntryV};
use crate::sources::model::{source_name, CompatCtx, ProjectLocator, ProjectRef, ResolvedVersion, ResolvedVersionV, SourceKind, VersionFileV, dep_views, effective_mode};
use crate::sources::resolve::rv_views;
use crate::text::{clone_string, concat2, concat3, opt_view, sviews};
use crate::transaction::plan::{
    already_installed, already_installed_spec, checksum_gate, choose_error, choose_file, choose_version, chosen_spec, entry_locator,
    entry_locator_spec, file_error, file_spec, fresh_entry, fresh_entry_v, new_deps, order_items, deps_first, PlanItem, PlanRequest, Target,
    UpdatePlan,
};

verus! {

pub open spec fn key_views(ks: Seq<(SourceKind, String)>) -> Seq<(SourceKind, Seq<char>)> {
    ks.map_values(|k: (SourceKind, String)| (k.0, k.1@))
}

/// The projects a lockfile's managed entries come from, in order.
pub open spec fn lock_keys(ps: Seq<PluginEntry>) -> Seq<(SourceKind, Seq<char>)>
    decreases ps.len(),
{
    if ps.len() == 0 {
        Seq::empty()
    } else {
        let r = lock_keys(ps.drop_last());
        match entry_locator_spec(ps.last()@.source) {
            Some(k) => r.push(k),
            None => r,
        }
    }
}

/// The project ids of one source among keys, in order.
pub open spec fn ids_for(ks: Seq<(SourceKind, Seq<char>)>, s: SourceKind) -> Seq<Seq<char>>
    decreases ks.len(),
{
    if ks.len() == 0 {
        Seq::empty()
    } else {
        let r = ids_for(ks.drop_last(), s);
        if ks.last().0 == s { r.push(ks.last().1) } else { r }
    }
}

/// The entry a target's versions are judged by: the installed one, or a fresh one.
pub open spec fn judged_by(from: Option<PluginEntry>, name: Seq<char>) -> PluginEntryV {
    match from {
        Some(e) => e@,
        None => fresh_entry_v(name),
    }
}

pub open spec fn from_view(from: Option<PluginEntry>) -> Option<PluginEntryV> {
    match from {
        Some(e) => Some(e@),
        None => None,
    }
}

/// What a target's fetched versions come to.
pub enum Considered {
    /// The plan cannot be built: this error.
    Failed(Seq<char>),
    /// Nothing to do for it: this note.
    Noted(Seq<char>),
    /// An item: the version at this index, this file, and whether it has no checksum.
    Planned { k: int, file: VersionFileV, unverified: bool },
}

/// The version asked for (or the newest acceptable one), its download, the checksum rule,
/// and whether that file is the installed jar already.
pub open spec fn consider_spec(
    from: Option<PluginEntry>,
    want: Option<Seq<char>>,
    source: SourceKind,
    name: Seq<char>,
    vs: Seq<ResolvedVersionV>,
    ctx: CompatCtx,
    allow_unverified: bool,
) -> Considered {
    match chosen_spec(vs, want, judged_by(from, name), ctx.mc_version@, ctx.mode, sviews(ctx.loaders@)) {
        None => Considered::Failed(choose_error(name, want, ctx.mc_version@)),
        Some(k) => match file_spec(vs[k], from_view(from)) {
            None => Considered::Failed(file_error(name, vs[k], from_view(from))),
            Some(f) => {
                let unverified = f.sha512 is None && f.sha256 is None && f.sha1 is None;
                if unverified && !allow_unverified {
                    Considered::Failed(name + ": "@ + source_name(source) + " publishes no checksum; pass --allow-unverified to accept"@)
                } else if from matches Some(e) && already_installed_spec(e@, f) {
                    Considered::Noted(name + ": "@ + vs[k].version_number + " is already installed"@)
                } else {
                    Considered::Planned { k, file: f, unverified }
                }
            },
        },
    }
}

/// The planner's state: the plan so far, the projects installed or planned, the
/// dependencies queued, and the requests left.
pub struct Planner {
    pub plan: UpdatePlan,
    pub installed: Vec<(SourceKind, String)>,
    pub queued: Vec<(SourceKind, String)>,
    pub queue: Vec<(PlanRequest, Option<String>)>,
}

/// The queue entry that installs a dependency of `name`.
pub open spec fn dep_request(q: (PlanRequest, Option<String>), source: SourceKind, pid: Seq<char>, name: Seq<char>) -> bool {
    &&& q.0 matches PlanRequest::Install { locator, version_id } && locator.source == source && locator.id@ == pid && version_id is None
    &&& q.1 matches Some(n) && n@ == name
}

impl Planner {
    /// A planner for these requests: everything the lockfile manages counts as installed.
    pub fn new(lock: &LockFile, requests: Vec<PlanRequest>, tx_id: String) -> (r: Planner)
        ensures
            key_views(r.installed@) == lock_keys(lock.plugins@),
            r.queued@.len() == 0,
            r.queue@.len() == requests@.len(),
            forall|i: int| 0 <= i < requests@.len() ==> #[trigger] r.queue@[i] == (requests@[i], None::<String>),
            r.plan.tx_id == tx_id,
            r.plan.items@.len() == 0,
            r.plan.unresolved_deps@.len() == 0,
            r.plan.notes@.len() == 0,
    {
        let ghost ps = lock.plugins@;
        let mut installed: Vec<(SourceKind, String)> = Vec::new();
        let mut i: usize = 0;
        assert(ps.take(0) =~= Seq::<PluginEntry>::empty());
        while i < lock.plugins.len()
            invariant
                i <= ps.len(),
                ps == lock.plugins@,
                key_views(installed@) == lock_keys(ps.take(i as int)),
            decreases ps.len() - i,
        {
            assert(ps.take(i + 1).drop_last() =~= ps.take(i as int));
            assert(ps.take(i + 1).last() == ps[i as int]);
            let ghost before = key_views(installed@);
            match entry_locator(&lock.plugins[i]) {
                Some(l) => {
                    installed.push((l.source, l.id));
                    assert(key_views(installed@) =~= before.push((l.source, l.id@)));
                },
                None => {},
            }
            i = i + 1;
        }
        assert(ps.take(ps.len() as int) =~= ps);
        let ghost rs = requests@;
        let n = requests.len();
        let mut rest = requests;
        let mut queue: Vec<(PlanRequest, Option<String>)> = Vec::new();
        let mut j: usize = 0;
        while j < n
            invariant
                j <= n,
                n == rs.len(),
                rest@ == rs.skip(j as int),
                queue@.len() == j,
                forall|k: int| 0 <= k < j ==> #[trigger] queue@[k] == (rs[k], None::<String>),
            decreases n - j,
        {
            assert(rs.skip(j as int)[0] == rs[j as int]);
            let q = rest.remove(0);
            assert(rs.skip(j as int).drop_first() =~= rs.skip(j + 1));
            assert(rest@ =~= rs.skip(j + 1));
            queue.push((q, None));
            j = j + 1;
        }
        Planner {
            plan: UpdatePlan { tx_id, items: Vec::new(), unresolved_deps: Vec::new(), notes: Vec::new() },
            installed,
            queued: Vec::new(),
            queue,
        }
    }

    /// The next request, the one queued last.
    pub fn next(&mut self) -> (r: Option<(PlanRequest, Option<String>)>)
        ensures
            old(self).queue@.len() == 0 ==> r is None && final(self).queue@ == old(self).queue@,
            old(self).queue@.len() > 0 ==> r == Some(old(self).queue@.last()) && final(self).queue@ == old(self).queue@.drop_last(),
            final(self).plan == old(self).plan,
            final(self).installed == old(self).installed,
            final(self).queued == old(self).queued,
    {
        self.queue.pop()
    }

    /// After fetching the target's project: an install of a project already installed (or
    /// planned) becomes a note; otherwise the plugin's name (the project's, for an
    /// install) and the context its versions are fetched and judged in: the entry's own
    /// mode for an update, the server's for an install.
    pub fn project_fetched(&mut self, t: &Target, project_name: &str, ctx: &CompatCtx) -> (r: Option<(String, CompatCtx)>)
        ensures
            ({
                let name = if t.name@.len() == 0 { project_name@ } else { t.name@ };
                if t.from is None && key_views(old(self).installed@).contains((t.locator.source, t.locator.id@)) {
                    &&& r is None
                    &&& sviews(final(self).plan.notes@) == sviews(old(self).plan.notes@).push(name + ": already installed"@)
                    &&& final(self).plan.items == old(self).plan.items
                    &&& final(self).plan.tx_id == old(self).plan.tx_id
                    &&& final(self).plan.unresolved_deps == old(self).plan.unresolved_deps
                    &&& final(self).installed == old(self).installed
                    &&& final(self).queued == old(self).queued
                    &&& final(self).queue == old(self).queue
                } else {
                    &&& r matches Some((n, c)) && n@ == name && c.mc_version@ == ctx.mc_version@ && sviews(c.loaders@) == sviews(ctx.loaders@)
                        && c.hangar_platform == ctx.hangar_platform && c.mode == match t.from {
                            Some(e) => effective_mode(e.compat, crate::lockfile::CompatMode::Strict),
                            None => ctx.mode,
                        }
                    &&& *final(self) == *old(self)
                }
            }),
    {
        proof {
            reveal_strlit(": already installed");
        }
        let name = if t.name.unicode_len() == 0 { String::from_str(project_name) } else { clone_string(&t.name) };
        if t.from.is_none() && self.has_installed(t.locator.source, t.locator.id.as_str()) {
            let ghost before = sviews(self.plan.notes@);
            let note = concat2(name.as_str(), ": already installed");
            self.plan.notes.push(note);
            assert(sviews(self.plan.notes@) =~= before.push(name@ + ": already installed"@));
            return None;
        }
        let c = match &t.from {
            Some(e) => ctx.with_mode(e.compat, crate::lockfile::CompatMode::Strict),
            None => ctx.copy(),
        };
        Some((name, c))
    }

    fn has_installed(&self, source: SourceKind, id: &str) -> (r: bool)
        ensures
            r == key_views(self.installed@).contains((source, id@)),
    {
        let ghost ks = key_views(self.installed@);
        let mut i: usize = 0;
        while i < self.installed.len()
            invariant
                i <= self.installed@.len(),
                ks == key_views(self.installed@),
                forall|j: int| 0 <= j < i ==> ks[j] != (source, id@),
            decreases self.installed@.len() - i,
        {
            let (k, pid) = &self.installed[i];
            assert(ks[i as int] == (*k, pid@));
            if *k == source && crate::lockfile::str_eq(pid.as_str(), id) {
                assert(ks[i as int] == (source, id@));
                return true;
            }
            i = i + 1;
        }
        assert(!ks.contains((source, id@)));
        false
    }

    /// The ids of one source that are installed, planned or queued.
    fn known_ids(&self, source: SourceKind) -> (r: Vec<String>)
        ensures
            sviews(r@) == ids_for(key_views(self.installed@), source) + ids_for(key_views(self.queued@), source),
    {
        let a = ids_of(&self.installed, source);
        let b = ids_of(&self.queued, source);
        let mut out = a;
        let ghost head = sviews(out@);
        let mut i: usize = 0;
        while i < b.len()
            invariant
                i <= b@.len(),
                sviews(out@) == head + sviews(b@).take(i as int),
            decreases b@.len() - i,
        {
            let ghost before = sviews(out@);
            out.push(clone_string(&b[i]));
            assert(sviews(out@) =~= before.push(b@[i as int]@));
            assert(sviews(b@).take(i + 1) =~= sviews(b@).take(i as int).push(b@[i as int]@));
            assert(sviews(out@) =~= head + sviews(b@).take(i + 1));
            i = i + 1;
        }
        assert(sviews(b@).take(b@.len() as int) =~= sviews(b@));
        out
    }

    /// After fetching the target's versions: the version and file it gets, or the error
    /// that stops the plan, or a note when that file is installed already. An item is
    /// added, the project counts as planned, and the required dependencies of the chosen
    /// version that are neither installed, planned nor queued are queued, as installs on
    /// behalf of this plugin.
    #[verifier::rlimit(40)]
    pub fn versions_fetched(
        &mut self,
        t: Target,
        dep_of: Option<String>,
        name: String,
        project: ProjectRef,
        versions: &Vec<ResolvedVersion>,
        ctx: &CompatCtx,
        allow_unverified: bool,
    ) -> (r: Result<(), String>)
        ensures
            match consider_spec(t.from, opt_view(t.want), t.locator.source, name@, rv_views(versions@), *ctx, allow_unverified) {
                Considered::Failed(e) => r matches Err(m) && m@ == e && *final(self) == *old(self),
                Considered::Noted(note) => {
                    &&& r is Ok
                    &&& sviews(final(self).plan.notes@) == sviews(old(self).plan.notes@).push(note)
                    &&& final(self).plan.items == old(self).plan.items
                    &&& final(self).plan.tx_id == old(self).plan.tx_id
                    &&& final(self).plan.unresolved_deps == old(self).plan.unresolved_deps
                    &&& final(self).installed == old(self).installed
                    &&& final(self).queued == old(self).queued
                    &&& final(self).queue == old(self).queue
                },
                Considered::Planned { k, file, unverified } => {
                    let source = t.locator.source;
                    let deps = new_deps(
                        dep_views(versions@[k].dependencies@),
                        ids_for(key_views(old(self).installed@), source) + ids_for(key_views(old(self).queued@), source),
                    );
                    &&& r is Ok
                    &&& final(self).plan.items@.len() == old(self).plan.items@.len() + 1
                    &&& final(self).plan.items@.drop_last() == old(self).plan.items@
                    &&& ({
                        let it = final(self).plan.items@.last();
                        &&& it.name@ == name@
                        &&& it.project == project
                        &&& it.from == t.from
                        &&& it.to@ == versions@[k]@
                        &&& it.file@ == file
                        &&& it.dependency_of == dep_of
                        &&& it.unverified == unverified
                    })
                    &&& final(self).plan.notes == old(self).plan.notes
                    &&& final(self).plan.tx_id == old(self).plan.tx_id
                    &&& final(self).plan.unresolved_deps == old(self).plan.unresolved_deps
                    &&& key_views(final(self).installed@) == key_views(old(self).installed@).push((source, t.locator.id@))
                    &&& key_views(final(self).queued@) == key_views(old(self).queued@) + deps.map_values(|p: Seq<char>| (source, p))
                    &&& final(self).queue@.len() == old(self).queue@.len() + deps.len()
                    &&& final(self).queue@.take(old(self).queue@.len() as int) == old(self).queue@
                    &&& forall|i: int| 0 <= i < deps.len() ==> dep_request(#[trigger] final(self).queue@[old(self).queue@.len() + i], source, deps[i], name@)
                },
            },
    {
        proof {
            reveal_strlit(": ");
            reveal_strlit(" is already installed");
        }
        let judge = match &t.from {
            Some(e) => e.copy(),
            None => fresh_entry(name.as_str()),
        };
        let chosen = match choose_version(versions, &t.want, &judge, name.as_str(), ctx) {
            Ok(v) => v,
            Err(e) => return Err(e),
        };
        let ghost k = chosen_spec(rv_views(versions@), opt_view(t.want), judged_by(t.from, name@), ctx.mc_version@, ctx.mode, sviews(ctx.loaders@))->0;
        assert(rv_views(versions@)[k] == versions@[k]@);
        let file = match choose_file(&chosen, &t.from, name.as_str()) {
            Ok(f) => f,
            Err(e) => return Err(e),
        };
        let unverified = match checksum_gate(&file, allow_unverified, name.as_str(), t.locator.source) {
            Ok(u) => u,
            Err(e) => return Err(e),
        };
        if let Some(e) = &t.from {
            if already_installed(e, &file) {
                let ghost before = sviews(self.plan.notes@);
                let head = concat3(name.as_str(), ": ", chosen.version_number.as_str());
                let note = concat2(head.as_str(), " is already installed");
                self.plan.notes.push(note);
                assert(sviews(self.plan.notes@) =~= before.push(name@ + ": "@ + versions@[k]@.version_number + " is already installed"@));
                return Ok(());
            }
        }
        let source = t.locator.source;
        let known = self.known_ids(source);
        let deps = crate::transaction::plan::dependencies_to_queue(&chosen, &known);
        let ghost ds = sviews(deps@);
        let ghost q0 = self.queue@;
        let ghost k0 = key_views(self.queued@);
        let mut i: usize = 0;
        while i < deps.len()
            invariant
                i <= deps@.len(),
                ds == sviews(deps@),
                self.queue@.len() == q0.len() + i,
                self.queue@.take(q0.len() as int) == q0,
                forall|j: int| 0 <= j < i ==> dep_request(#[trigger] self.queue@[q0.len() + j], source, ds[j], name@),
                key_views(self.queued@) == k0 + ds.take(i as int).map_values(|p: Seq<char>| (source, p)),
                self.plan == old(self).plan,
                self.installed == old(self).installed,
            decreases deps@.len() - i,
        {
            let ghost before_q = self.queue@;
            let ghost before_k = key_views(self.queued@);
            self.queued.push((source, clone_string(&deps[i])));
            let locator = ProjectLocator { source, id: clone_string(&deps[i]) };
            self.queue.push((PlanRequest::Install { locator, version_id: None }, Some(clone_string(&name))));
            assert(self.queue@.take(q0.len() as int) =~= before_q.take(q0.len() as int));
            assert(ds.take(i + 1) =~= ds.take(i as int).push(ds[i as int]));
            assert(key_views(self.queued@) =~= before_k.push((source, ds[i as int])));
            assert(ds.take(i + 1).map_values(|p: Seq<char>| (source, p)) =~= ds.take(i as int).map_values(|p: Seq<char>| (source, p)).push((source, ds[i as int])));
            assert(dep_request(self.queue@[q0.len() + i], source, ds[i as int], name@));
            i = i + 1;
        }
        assert(ds.take(ds.len() as int) =~= ds);
        let ghost before_i = key_views(self.installed@);
        let id = clone_string(&t.locator.id);
        self.installed.push((source, id));
        assert(key_views(self.installed@) =~= before_i.push((source, t.locator.id@)));
        let ghost items0 = self.plan.items@;
        self.plan.items.push(PlanItem { name, project, from: t.from, to: chosen, file, dependency_of: dep_of, unverified });
        assert(self.plan.items@.drop_last() =~= items0);
        Ok(())
    }

    /// The plan: dependencies first, so a missing dependency is caught before its
    /// dependent is swapped in; otherwise in the order the items were planned.
    pub fn finish(self) -> (r: UpdatePlan)
        ensures
            r.items@ == deps_first(self.plan.items@),
            r.tx_id == self.plan.tx_id,
            r.notes == self.plan.notes,
            r.unresolved_deps == self.plan.unresolved_deps,
    {
        let UpdatePlan { tx_id, items, unresolved_deps, notes } = self.plan;
        UpdatePlan { tx_id, items: order_items(items), unresolved_deps, notes }
    }
}

/// The ids of one source among keys, in order.
fn ids_of(ks: &Vec<(SourceKind, String)>, source: SourceKind) -> (r: Vec<String>)
    ensures
        sviews(r@) == ids_for(key_views(ks@), source),
{
    let ghost kv = key_views(ks@);
    let mut out: Vec<String> = Vec::new();
    let mut i: usize = 0;
    assert(kv.take(0) =~= Seq::<(SourceKind, Seq<char>)>::empty());
    while i < ks.len()
        invariant
            i <= ks@.len(),
            kv == key_views(ks@),
            sviews(out@) == ids_for(kv.take(i as int), source),
        decreases ks@.len() - i,
    {
        assert(kv.take(i + 1).drop_last() =~= kv.take(i as int));
        assert(kv.take(i + 1).last() == kv[i as int]);
        let (k, pid) = &ks[i];
        assert(kv[i as int] == (*k, pid@));
        if *k == source {
            let ghost before = sviews(out@);
            out.push(clone_string(pid));
            assert(sviews(out@) =~= before.push(pid@));
        }
        i = i + 1;
    }
    assert(kv.take(ks@.len() as int) =~= kv);
    out
}

} // verus!
