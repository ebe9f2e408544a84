//! What a transaction will do: one item per plugin, with the version and file chosen.

use vstd::prelude::*;
use crate::digest::{hex_lower, sha1_of, sha256_of, sha512_of};
use crate::lockfile::{Channel, CompatMode, PluginEntry, PluginEntryV, SourceRef, SourceRefV};
use crate::plugins::hash::JarHashes;
use crate::sources::model::{ProjectLocator, ProjectRef, ResolvedVersion, SourceKind, VersionFile};
use crate::sources::resolve::{installed_label, installed_label_spec, project_id, project_id_spec, source_kind, source_kind_spec};
use crate::text::{join_with, push_str, string_from_chars, views, clone_string, concat2, concat3, opt_view};
use crate::lockfile::{first_named, LockFile, PluginEntryV as EntryV};
use crate::sources::model::{CompatCtx, DependencyKind, ResolvedVersionV, VersionFileV, source_name};
use crate::sources::resolve::{pick, pick_spec, rv_views};
use crate::sources::github::{filter_assets, filtered_files};
use crate::util::version::display_spec;

verus! {

#[derive(Debug, Clone)]
pub struct PlanItem {
    /// Plugin name (descriptor name for updates; project name for fresh installs).
    pub name: String,
    pub project: ProjectRef,
    /// `None` for a fresh install.
    pub from: Option<PluginEntry>,
    pub to: ResolvedVersion,
    pub file: VersionFile,
    /// Pulled in as a required dependency of another item.
    pub dependency_of: Option<String>,
    pub unverified: bool,
}

#[derive(Debug, Clone)]
pub struct UpdatePlan {
    pub tx_id: String,
    pub items: Vec<PlanItem>,
    /// Required dependencies that could not be resolved to an installable version.
    pub unresolved_deps: Vec<String>,
    pub notes: Vec<String>,
}

/// What the user asked for.
#[derive(Debug, Clone)]
pub enum PlanRequest {
    /// Update an installed plugin to the newest acceptable version.
    UpdateLatest { name: String },
    /// Update (or downgrade) an installed plugin to a specific version id.
    UpdateTo { name: String, version_id: String },
    /// Install a project that is not installed yet.
    Install { locator: ProjectLocator, version_id: Option<String> },
}

/// How one item reads in a summary: `name old→new`, or `+name new` for an install.
pub open spec fn item_summary(i: PlanItem) -> Seq<char> {
    match i.from {
        Some(f) => i.name@ + " "@ + installed_label_spec(f@) + "→"@ + i.to.version_number@,
        None => "+"@ + i.name@ + " "@ + i.to.version_number@,
    }
}

pub open spec fn plan_summary(items: Seq<PlanItem>) -> Seq<char> {
    join_with(items.map_values(|i: PlanItem| item_summary(i)), ", "@)
}

fn item_summary_exec(i: &PlanItem) -> (r: Vec<char>)
    ensures
        r@ == item_summary(*i),
{
    let mut out: Vec<char> = Vec::new();
    proof {
        reveal_strlit(" ");
        reveal_strlit("→");
        reveal_strlit("+");
    }
    match &i.from {
        Some(f) => {
            push_str(&mut out, i.name.as_str());
            push_str(&mut out, " ");
            let l = installed_label(f);
            push_str(&mut out, l.as_str());
            push_str(&mut out, "→");
            push_str(&mut out, i.to.version_number.as_str());
        },
        None => {
            push_str(&mut out, "+");
            push_str(&mut out, i.name.as_str());
            push_str(&mut out, " ");
            push_str(&mut out, i.to.version_number.as_str());
        },
    }
    out
}

impl UpdatePlan {
    pub fn is_empty(&self) -> (r: bool)
        ensures
            r == (self.items@.len() == 0),
    {
        self.items.len() == 0
    }

    /// `LuckPerms 5.4→5.5, +Vault 1.7`: what the plan changes, for journals and backups.
    pub fn summary(&self) -> (r: String)
        ensures
            r@ == plan_summary(self.items@),
    {
        let mut parts: Vec<Vec<char>> = Vec::new();
        let mut k: usize = 0;
        while k < self.items.len()
            invariant
                k <= self.items@.len(),
                views(parts@) == self.items@.take(k as int).map_values(|i: PlanItem| item_summary(i)),
            decreases self.items@.len() - k,
        {
            let p = item_summary_exec(&self.items[k]);
            let ghost before = views(parts@);
            let ghost pv = p@;
            parts.push(p);
            assert(views(parts@) =~= before.push(pv));
            assert(self.items@.take(k + 1) =~= self.items@.take(k as int).push(self.items@[k as int]));
            k = k + 1;
            assert(views(parts@) =~= self.items@.take(k as int).map_values(|i: PlanItem| item_summary(i)));
        }
        assert(self.items@.take(self.items@.len() as int) =~= self.items@);
        let sep = crate::text::to_chars(", ");
        let j = crate::text::join_chars(&parts, sep.as_slice());
        string_from_chars(j.as_slice())
    }
}

/// Where an installed plugin comes from, when it is managed.
pub open spec fn entry_locator_spec(s: SourceRefV) -> Option<(SourceKind, Seq<char>)> {
    match (source_kind_spec(s), project_id_spec(s)) {
        (Some(k), Some(id)) => Some((k, id)),
        _ => None,
    }
}

pub fn entry_locator(e: &PluginEntry) -> (r: Option<ProjectLocator>)
    ensures
        match entry_locator_spec(e@.source) {
            Some((k, id)) => r matches Some(l) && l.source == k && l.id@ == id,
            None => r is None,
        },
{
    match (source_kind(e), project_id(e)) {
        (Some(k), Some(id)) => Some(ProjectLocator { source: k, id }),
        _ => None,
    }
}

/// The entry a fresh install is judged by: release channel, not pinned, nothing ignored,
/// the server's compatibility mode, the hashes of an empty jar.
pub open spec fn fresh_entry_v(name: Seq<char>) -> EntryV {
    EntryV {
        name,
        file: Seq::empty(),
        descriptor_version: None,
        hashes: crate::plugins::hash::JarHashesV {
            sha1: hex_lower(sha1_of(Seq::<u8>::empty())),
            sha256: hex_lower(sha256_of(Seq::<u8>::empty())),
            sha512: hex_lower(sha512_of(Seq::<u8>::empty())),
            size: 0,
        },
        channel: Channel::Release,
        pinned: false,
        ignored_versions: Seq::empty(),
        compat: CompatMode::Inherit,
        installed_at: None,
        source: SourceRefV::Unidentified,
    }
}

pub fn fresh_entry(name: &str) -> (r: PluginEntry)
    ensures
        r@ == fresh_entry_v(name@),
        r@.name == name@,
        r@.file.len() == 0,
        r@.descriptor_version is None,
        r@.hashes.sha1 == hex_lower(sha1_of(Seq::<u8>::empty())),
        r@.hashes.sha256 == hex_lower(sha256_of(Seq::<u8>::empty())),
        r@.hashes.sha512 == hex_lower(sha512_of(Seq::<u8>::empty())),
        r@.hashes.size == 0,
        r@.channel == Channel::Release,
        !r@.pinned,
        r@.ignored_versions.len() == 0,
        r@.compat == CompatMode::Inherit,
        r@.installed_at is None,
        r@.source == SourceRefV::Unidentified,
{
    let empty: Vec<u8> = Vec::new();
    let hashes = JarHashes::of_bytes(empty.as_slice());
    assert(empty@ =~= Seq::<u8>::empty());
    let r = PluginEntry {
        name: String::from_str(name),
        file: String::new(),
        descriptor_version: None,
        hashes,
        channel: Channel::Release,
        pinned: false,
        ignored_versions: Vec::new(),
        compat: CompatMode::Inherit,
        installed_at: None,
        source: SourceRef::Unidentified,
    };
    assert(r@.ignored_versions =~= Seq::<Seq<char>>::empty());
    r
}


/// What a request is about: the project, the installed entry it replaces, the version
/// asked for, and the plugin's name (empty until the project's name is known, for an
/// install).
#[derive(Debug, Clone)]
pub struct Target {
    pub locator: ProjectLocator,
    pub from: Option<PluginEntry>,
    pub want: Option<String>,
    pub name: String,
}

/// An update names an installed plugin, which must have a known source; an install names
/// its project.
pub open spec fn target_error(ps: Seq<PluginEntry>, req: PlanRequest) -> Option<Seq<char>> {
    match req {
        PlanRequest::UpdateLatest { name } | PlanRequest::UpdateTo { name, .. } => match first_named(ps, name@) {
            None => Some(name@ + ": not in lockfile (scan first)"@),
            Some(i) => if entry_locator_spec(ps[i]@.source) is None { Some(name@ + ": no source — identify it first"@) } else { None },
        },
        PlanRequest::Install { .. } => None,
    }
}

pub fn resolve_request(lock: &LockFile, req: &PlanRequest) -> (r: Result<Target, String>)
    ensures
        match target_error(lock.plugins@, *req) {
            Some(e) => r matches Err(m) && m@ == e,
            None => r matches Ok(t) && match *req {
                PlanRequest::UpdateLatest { name } => {
                    let e = lock.plugins@[first_named(lock.plugins@, name@)->0];
                    &&& t.name@ == name@
                    &&& t.from matches Some(f) && f@ == e@
                    &&& t.want is None
                    &&& entry_locator_spec(e@.source) == Some((t.locator.source, t.locator.id@))
                },
                PlanRequest::UpdateTo { name, version_id } => {
                    let e = lock.plugins@[first_named(lock.plugins@, name@)->0];
                    &&& t.name@ == name@
                    &&& t.from matches Some(f) && f@ == e@
                    &&& opt_view(t.want) == Some(version_id@)
                    &&& entry_locator_spec(e@.source) == Some((t.locator.source, t.locator.id@))
                },
                PlanRequest::Install { locator, version_id } => {
                    &&& t.name@.len() == 0
                    &&& t.from is None
                    &&& opt_view(t.want) == opt_view(version_id)
                    &&& t.locator.source == locator.source && t.locator.id@ == locator.id@
                },
            },
        },
{
    proof {
        reveal_strlit(": not in lockfile (scan first)");
        reveal_strlit(": no source — identify it first");
    }
    let (name, want) = match req {
        PlanRequest::UpdateLatest { name } => (name, None),
        PlanRequest::UpdateTo { name, version_id } => (name, Some(clone_string(version_id))),
        PlanRequest::Install { locator, version_id } => {
            return Ok(Target {
                locator: ProjectLocator { source: locator.source, id: clone_string(&locator.id) },
                from: None,
                want: crate::text::clone_opt_string(version_id),
                name: String::new(),
            });
        },
    };
    let e = match lock.get(name.as_str()) {
        Some(e) => e,
        None => return Err(concat2(name.as_str(), ": not in lockfile (scan first)")),
    };
    let loc = match entry_locator(e) {
        Some(l) => l,
        None => return Err(concat2(name.as_str(), ": no source — identify it first")),
    };
    Ok(Target { locator: loc, from: Some(e.copy()), want, name: clone_string(name) })
}

/// The first version with this id.
pub open spec fn version_with_id(vs: Seq<ResolvedVersionV>, id: Seq<char>) -> Option<int>
    decreases vs.len(),
{
    if vs.len() == 0 {
        None
    } else {
        match version_with_id(vs.drop_last(), id) {
            Some(k) => Some(k),
            None => if vs.last().version_id == id { Some(vs.len() - 1) } else { None },
        }
    }
}

/// The version a request gets: the one asked for by id, else the newest acceptable one for
/// the replaced entry (a fresh entry for an install).
pub open spec fn chosen_spec(vs: Seq<ResolvedVersionV>, want: Option<Seq<char>>, entry: EntryV, ctx_mc: crate::util::version::VersionV, mode: CompatMode, prefs: Seq<Seq<char>>) -> Option<int> {
    match want {
        Some(id) => version_with_id(vs, id),
        None => pick_spec(vs, entry, ctx_mc, mode, prefs),
    }
}

pub open spec fn choose_error(name: Seq<char>, want: Option<Seq<char>>, mc: crate::util::version::VersionV) -> Seq<char> {
    match want {
        Some(id) => name + ": version "@ + id + " not found"@,
        None => name + ": no version compatible with "@ + display_spec(mc),
    }
}

pub fn choose_version(versions: &Vec<ResolvedVersion>, want: &Option<String>, entry: &PluginEntry, name: &str, ctx: &CompatCtx) -> (r: Result<ResolvedVersion, String>)
    ensures
        match chosen_spec(rv_views(versions@), opt_view(*want), entry@, ctx.mc_version@, ctx.mode, crate::text::sviews(ctx.loaders@)) {
            Some(k) => 0 <= k < versions@.len() && (r matches Ok(v) && v@ == versions@[k]@),
            None => r matches Err(m) && m@ == choose_error(name@, opt_view(*want), ctx.mc_version@),
        },
{
    proof {
        lemma_chosen_in_range(rv_views(versions@), opt_view(*want), entry@, ctx.mc_version@, ctx.mode, crate::text::sviews(ctx.loaders@));
        reveal_strlit(": version ");
        reveal_strlit(" not found");
        reveal_strlit(": no version compatible with ");
    }
    match want {
        Some(id) => {
            let ghost vs = rv_views(versions@);
            let mut i: usize = 0;
            assert(vs.take(0) =~= Seq::<ResolvedVersionV>::empty());
            while i < versions.len()
                invariant
                    i <= versions@.len(),
                    vs == rv_views(versions@),
                    opt_view(*want) == Some(id@),
                    version_with_id(vs.take(i as int), id@) is None,
                decreases versions@.len() - i,
            {
                assert(vs.take(i + 1).drop_last() =~= vs.take(i as int));
                assert(vs.take(i + 1).last() == versions@[i as int]@);
                if crate::text::str_eq_string(&versions[i].version_id, id) {
                    proof {
                        assert(version_with_id(vs.take(i + 1), id@) == Some(i as int));
                        lemma_version_with_id_prefix(vs, id@, i + 1, i as int);
                        assert(vs[i as int] == versions@[i as int]@);
                    }
                    let c = versions[i].copy();
                    assert(chosen_spec(rv_views(versions@), opt_view(*want), entry@, ctx.mc_version@, ctx.mode, crate::text::sviews(ctx.loaders@)) == Some(i as int));
                    return Ok(c);
                }
                i = i + 1;
            }
            assert(vs.take(versions@.len() as int) =~= vs);
            let head = concat3(name, ": version ", id.as_str());
            Err(concat2(head.as_str(), " not found"))
        },
        None => match pick(versions, entry, ctx) {
            Some((v, _)) => Ok(v),
            None => {
                let mc = ctx.mc_version.to_string();
                Err(concat2(concat2(name, ": no version compatible with ").as_str(), mc.as_str()))
            },
        },
    }
}

proof fn lemma_version_with_id_range(vs: Seq<ResolvedVersionV>, id: Seq<char>)
    ensures
        version_with_id(vs, id) matches Some(k) ==> 0 <= k < vs.len(),
    decreases vs.len(),
{
    if vs.len() > 0 {
        lemma_version_with_id_range(vs.drop_last(), id);
    }
}

proof fn lemma_chosen_in_range(vs: Seq<ResolvedVersionV>, want: Option<Seq<char>>, entry: EntryV, mc: crate::util::version::VersionV, mode: CompatMode, prefs: Seq<Seq<char>>)
    ensures
        chosen_spec(vs, want, entry, mc, mode, prefs) matches Some(k) ==> 0 <= k < vs.len(),
{
    if let Some(id) = want {
        lemma_version_with_id_range(vs, id);
    }
}

proof fn lemma_version_with_id_prefix(vs: Seq<ResolvedVersionV>, id: Seq<char>, n: int, k: int)
    requires
        0 <= n <= vs.len(),
        version_with_id(vs.take(n), id) == Some(k),
    ensures
        version_with_id(vs, id) == Some(k),
    decreases vs.len() - n,
{
    if n < vs.len() {
        assert(vs.take(n + 1).drop_last() =~= vs.take(n));
        assert(version_with_id(vs.take(n + 1), id) == Some(k));
        lemma_version_with_id_prefix(vs, id, n + 1, k);
    } else {
        assert(vs.take(n) =~= vs);
    }
}

/// The file to download: the version's primary file, or for a GitHub plugin the first
/// asset its glob selects.
pub open spec fn file_spec(v: ResolvedVersionV, from: Option<EntryV>) -> Option<VersionFileV> {
    match primary_index_of(v.files) {
        None => None,
        Some(i) => match from {
            Some(f) => match f.source {
                SourceRefV::GitHub { asset_glob, .. } => match primary_index_of(filtered_files(v.files, asset_glob)) {
                    Some(j) => Some(filtered_files(v.files, asset_glob)[j]),
                    None => None,
                },
                _ => Some(v.files[i]),
            },
            None => Some(v.files[i]),
        },
    }
}

pub open spec fn primary_index_of(fs: Seq<VersionFileV>) -> Option<int> {
    crate::sources::model::primary_index_v(fs)
}

pub open spec fn file_error(name: Seq<char>, v: ResolvedVersionV, from: Option<EntryV>) -> Seq<char> {
    match primary_index_of(v.files) {
        None => name + ": version "@ + v.version_number + " has no downloadable file"@,
        Some(_) => match from {
            Some(f) => match f.source {
                SourceRefV::GitHub { asset_glob, .. } => name + ": no asset matches "@ + asset_glob,
                _ => Seq::empty(),
            },
            None => Seq::empty(),
        },
    }
}

pub fn choose_file(chosen: &ResolvedVersion, from: &Option<PluginEntry>, name: &str) -> (r: Result<VersionFile, String>)
    ensures
        match file_spec(chosen@, match *from { Some(f) => Some(f@), None => None }) {
            Some(f) => r matches Ok(x) && x@ == f,
            None => r matches Err(m) && m@ == file_error(name@, chosen@, match *from { Some(f) => Some(f@), None => None }),
        },
{
    proof {
        reveal_strlit(": version ");
        reveal_strlit(" has no downloadable file");
        reveal_strlit(": no asset matches ");
        crate::sources::model::lemma_primary_index_v(chosen.files@);
    }
    let first = match chosen.primary_file() {
        Some(f) => f.copy(),
        None => {
            let head = concat3(name, ": version ", chosen.version_number.as_str());
            return Err(concat2(head.as_str(), " has no downloadable file"));
        },
    };
    match from {
        Some(f) => match &f.source {
            SourceRef::GitHub { asset_glob, .. } => {
                let mut v = chosen.copy();
                filter_assets(&mut v, asset_glob.as_str());
                proof {
                    crate::sources::model::lemma_primary_index_v(v.files@);
                }
                match v.primary_file() {
                    Some(x) => Ok(x.copy()),
                    None => Err(concat3(name, ": no asset matches ", asset_glob.as_str())),
                }
            },
            _ => Ok(first),
        },
        None => Ok(first),
    }
}

/// A file without any published checksum is only accepted when the user allows it.
pub fn checksum_gate(file: &VersionFile, allow_unverified: bool, name: &str, source: SourceKind) -> (r: Result<bool, String>)
    ensures
        ({
            let unverified = file.sha512 is None && file.sha256 is None && file.sha1 is None;
            if unverified && !allow_unverified {
                r matches Err(m) && m@ == name@ + ": "@ + source_name(source) + " publishes no checksum; pass --allow-unverified to accept"@
            } else {
                r == Ok::<bool, String>(unverified)
            }
        }),
{
    let unverified = file.sha512.is_none() && file.sha256.is_none() && file.sha1.is_none();
    if unverified && !allow_unverified {
        proof {
            reveal_strlit(": ");
            reveal_strlit(" publishes no checksum; pass --allow-unverified to accept");
        }
        let head = concat3(name, ": ", source.as_str());
        return Err(concat2(head.as_str(), " publishes no checksum; pass --allow-unverified to accept"));
    }
    Ok(unverified)
}

/// The chosen file is the installed jar: its sha512 is the entry's (a file without one
/// counts as an empty hash), or its sha256 is.
pub open spec fn already_installed_spec(e: EntryV, f: VersionFileV) -> bool {
    e.hashes.sha512 == (match f.sha512 { Some(h) => h, None => Seq::empty() }) || f.sha256 == Some(e.hashes.sha256)
}

pub fn already_installed(e: &PluginEntry, f: &VersionFile) -> (r: bool)
    ensures
        r == already_installed_spec(e@, f@),
{
    let same512 = match &f.sha512 {
        Some(h) => crate::text::str_eq_string(&e.hashes.sha512, h),
        None => {
            let z = e.hashes.sha512.unicode_len() == 0;
            proof {
                if z {
                    assert(e.hashes.sha512@ =~= Seq::<char>::empty());
                }
            }
            z
        },
    };
    let same256 = match &f.sha256 {
        Some(h) => crate::text::str_eq_string(h, &e.hashes.sha256),
        None => false,
    };
    same512 || same256
}

/// The required dependencies (by project id) a chosen version brings that are neither
/// installed nor queued, in order; each is queued as it is found.
pub open spec fn new_deps(deps: Seq<crate::sources::model::DependencyV>, known: Seq<Seq<char>>) -> Seq<Seq<char>>
    decreases deps.len(),
{
    if deps.len() == 0 {
        Seq::empty()
    } else {
        let r = new_deps(deps.drop_last(), known);
        let d = deps.last();
        if d.kind == DependencyKind::Required && d.project_id is Some && !known.contains(d.project_id->0) && !r.contains(d.project_id->0) {
            r.push(d.project_id->0)
        } else {
            r
        }
    }
}

/// What a chosen version queues: only project ids of its required dependencies (optional,
/// embedded and incompatible ones never), none already known, none twice; and every
/// required dependency with a project id that is not known is queued.
pub proof fn lemma_new_deps(deps: Seq<crate::sources::model::DependencyV>, known: Seq<Seq<char>>)
    ensures
        forall|k: int| 0 <= k < new_deps(deps, known).len() ==> exists|j: int|
            0 <= j < deps.len() && (#[trigger] deps[j]).kind == DependencyKind::Required && deps[j].project_id == Some(#[trigger] new_deps(deps, known)[k]),
        forall|k: int| 0 <= k < new_deps(deps, known).len() ==> !known.contains(#[trigger] new_deps(deps, known)[k]),
        new_deps(deps, known).no_duplicates(),
        forall|j: int| 0 <= j < deps.len() && (#[trigger] deps[j]).kind == DependencyKind::Required && deps[j].project_id is Some
            && !known.contains(deps[j].project_id->0) ==> new_deps(deps, known).contains(deps[j].project_id->0),
    decreases deps.len(),
{
    if deps.len() > 0 {
        let init = deps.drop_last();
        lemma_new_deps(init, known);
        let r0 = new_deps(init, known);
        let r = new_deps(deps, known);
        let d = deps.last();
        assert forall|j: int| 0 <= j < init.len() implies #[trigger] init[j] == deps[j] by {}
        assert forall|k: int| 0 <= k < r.len() implies exists|j: int|
            0 <= j < deps.len() && (#[trigger] deps[j]).kind == DependencyKind::Required && deps[j].project_id == Some(#[trigger] r[k]) by {
            if k < r0.len() {
                assert(r[k] == r0[k]);
                let j = choose|j: int| 0 <= j < init.len() && (#[trigger] init[j]).kind == DependencyKind::Required && init[j].project_id == Some(r0[k]);
                assert(deps[j] == init[j]);
            } else {
                assert(deps[deps.len() - 1] == d);
            }
        }
        assert forall|k: int| 0 <= k < r.len() implies !known.contains(#[trigger] r[k]) by {
            if k < r0.len() {
                assert(r[k] == r0[k]);
            }
        }
        assert forall|x: int, y: int| 0 <= x < y < r.len() implies r[x] != r[y] by {
            if y < r0.len() {
                assert(r[x] == r0[x] && r[y] == r0[y]);
            } else {
                assert(r[x] == r0[x]);
                assert(r0.contains(r0[x]));
            }
        }
        assert forall|j: int| 0 <= j < deps.len() && (#[trigger] deps[j]).kind == DependencyKind::Required && deps[j].project_id is Some
            && !known.contains(deps[j].project_id->0) implies r.contains(deps[j].project_id->0) by {
            if j < init.len() {
                assert(deps[j] == init[j]);
                let k = choose|k: int| 0 <= k < r0.len() && r0[k] == init[j].project_id->0;
                assert(r[k] == r0[k]);
            } else {
                if r0.contains(d.project_id->0) {
                    let k = choose|k: int| 0 <= k < r0.len() && r0[k] == d.project_id->0;
                    assert(r[k] == r0[k]);
                } else {
                    assert(r[r.len() - 1] == d.project_id->0);
                }
            }
        }
    }
}

pub fn dependencies_to_queue(v: &ResolvedVersion, known: &Vec<String>) -> (r: Vec<String>)
    ensures
        crate::text::sviews(r@) == new_deps(crate::sources::model::dep_views(v.dependencies@), crate::text::sviews(known@)),
{
    let ghost ds = crate::sources::model::dep_views(v.dependencies@);
    let mut out: Vec<String> = Vec::new();
    let mut i: usize = 0;
    assert(ds.take(0) =~= Seq::<crate::sources::model::DependencyV>::empty());
    while i < v.dependencies.len()
        invariant
            i <= v.dependencies@.len(),
            ds == crate::sources::model::dep_views(v.dependencies@),
            crate::text::sviews(out@) == new_deps(ds.take(i as int), crate::text::sviews(known@)),
        decreases v.dependencies@.len() - i,
    {
        assert(ds.take(i + 1).drop_last() =~= ds.take(i as int));
        assert(ds.take(i + 1).last() == v.dependencies@[i as int]@);
        let d = &v.dependencies[i];
        if d.kind == DependencyKind::Required {
            if let Some(pid) = &d.project_id {
                if !crate::text::strings_contain(known, pid.as_str()) && !crate::text::strings_contain(&out, pid.as_str()) {
                    let ghost before = crate::text::sviews(out@);
                    out.push(clone_string(pid));
                    assert(crate::text::sviews(out@) =~= before.push(pid@));
                }
            }
        }
        i = i + 1;
    }
    assert(ds.take(v.dependencies@.len() as int) =~= ds);
    out
}

/// Dependencies first, so a missing dependency is caught before its dependent is
/// swapped in; otherwise the order is kept.
pub open spec fn deps_first(items: Seq<PlanItem>) -> Seq<PlanItem> {
    with_dep(items, true) + with_dep(items, false)
}

/// The items pulled in as dependencies (`true`) or not (`false`), in order.
pub open spec fn with_dep(items: Seq<PlanItem>, dep: bool) -> Seq<PlanItem>
    decreases items.len(),
{
    if items.len() == 0 {
        Seq::empty()
    } else {
        let r = with_dep(items.drop_last(), dep);
        if (items.last().dependency_of is Some) == dep { r.push(items.last()) } else { r }
    }
}

pub fn order_items(items: Vec<PlanItem>) -> (r: Vec<PlanItem>)
    ensures
        r@ == deps_first(items@),
{
    let ghost s = items@;
    let mut deps: Vec<PlanItem> = Vec::new();
    let mut rest_items: Vec<PlanItem> = Vec::new();
    let mut rest = items;
    let n = rest.len();
    let mut i: usize = 0;
    assert(s.take(0) =~= Seq::<PlanItem>::empty());
    while rest.len() > 0
        invariant
            i + rest@.len() == n,
            n == s.len(),
            rest@ == s.skip(i as int),
            deps@ == with_dep(s.take(i as int), true),
            rest_items@ == with_dep(s.take(i as int), false),
        decreases rest@.len(),
    {
        let it = rest.remove(0);
        assert(s.skip(i as int)[0] == it);
        assert(s.take(i + 1).drop_last() =~= s.take(i as int));
        assert(s.take(i + 1).last() == it);
        assert(s.skip(i as int).drop_first() =~= s.skip(i + 1));
        if it.dependency_of.is_some() {
            deps.push(it);
        } else {
            rest_items.push(it);
        }
        i = i + 1;
        assert(s.take(i as int) =~= s.take(i - 1).push(it));
    }
    assert(s.take(n as int) =~= s);
    let mut out = deps;
    let ghost d = out@;
    let mut k: usize = 0;
    let m = rest_items.len();
    let mut rest2 = rest_items;
    let ghost r2 = rest2@;
    while rest2.len() > 0
        invariant
            k + rest2@.len() == m,
            m == r2.len(),
            rest2@ == r2.skip(k as int),
            out@ == d + r2.take(k as int),
        decreases rest2@.len(),
    {
        let it = rest2.remove(0);
        assert(r2.skip(k as int)[0] == it);
        out.push(it);
        assert(r2.skip(k as int).drop_first() =~= r2.skip(k + 1));
        k = k + 1;
        assert(out@ =~= d + r2.take(k as int));
    }
    assert(r2.take(m as int) =~= r2);
    out
}

} // verus!
