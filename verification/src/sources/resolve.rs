//! Decide, for every managed plugin, which version it *should* be on.

use vstd::prelude::*;
use crate::lockfile::{channel_rank, CompatMode, PluginEntry, PluginEntryV, SourceRef, SourceRefV};
use crate::sources::github::{any_jar_asset, has_jar_asset};
use crate::sources::model::{compat_acceptable, compat_spec, effective_mode, Compat, CompatCtx, ResolvedVersion, ResolvedVersionV, SourceKind};
use crate::text::{char_key, clone_string, concat2, concat3, decimal, eq_chars, lower, lower_key, str_eq_string, strings_contain, sviews, to_chars, u32_text};
use crate::lockfile::{LockFile, entry_views, managed};
use crate::util::sort::{sort_by_key, isort};
use crate::sources::model::source_name;
use crate::util::version::VersionV;

verus! {

/// UTC calendar day of a Unix time.
pub open spec fn day_of(t: i64) -> int {
    t as int / 86400
}

/// Position in `prefs` of the first loader the version lists.
pub open spec fn first_listed(prefs: Seq<Seq<char>>, listed: Seq<Seq<char>>) -> Option<int>
    decreases prefs.len(),
{
    if prefs.len() == 0 {
        None
    } else {
        match first_listed(prefs.drop_last(), listed) {
            Some(i) => Some(i),
            None => if listed.contains(prefs.last()) { Some(prefs.len() - 1) } else { None },
        }
    }
}

/// How well a version's loaders fit the server: the index of the server's most specific
/// loader it lists, or `usize::MAX` when it lists none.
pub open spec fn loader_rank(prefs: Seq<Seq<char>>, listed: Seq<Seq<char>>) -> int {
    match first_listed(prefs, listed) {
        Some(i) => i,
        None => usize::MAX as int,
    }
}

/// `vs[i]` comes before `vs[j]` in the newest-first order: later UTC day first, then the
/// better loader rank, then the order given.
pub open spec fn before(vs: Seq<ResolvedVersionV>, prefs: Seq<Seq<char>>, i: int, j: int) -> bool {
    let di = day_of(vs[i].published);
    let dj = day_of(vs[j].published);
    let ri = loader_rank(prefs, vs[i].loaders);
    let rj = loader_rank(prefs, vs[j].loaders);
    di > dj || (di == dj && (ri < rj || (ri == rj && i < j)))
}

/// The plugin's channel, ignore list and (for GitHub) asset glob allow the version.
pub open spec fn eligible(v: ResolvedVersionV, e: PluginEntryV) -> bool {
    &&& channel_rank(v.channel) <= channel_rank(e.channel)
    &&& !e.ignored_versions.contains(v.version_id)
    &&& (e.source matches SourceRefV::GitHub { asset_glob, .. } ==> has_jar_asset(v.files, asset_glob))
}

/// 2: eligible and compatible; 1: eligible with same-line-only or unknown compatibility;
/// 0: not a candidate.
pub open spec fn pick_class(v: ResolvedVersionV, e: PluginEntryV, mc: VersionV, mode: CompatMode) -> int {
    if !eligible(v, e) {
        0
    } else {
        let c = compat_spec(v.game_versions, mc, mode);
        if compat_acceptable(c) { 2 } else if c is SameLineOnly || c is Unknown { 1 } else { 0 }
    }
}

pub open spec fn is_best(vs: Seq<ResolvedVersionV>, e: PluginEntryV, mc: VersionV, mode: CompatMode, prefs: Seq<Seq<char>>, i: int, cls: int) -> bool {
    &&& 0 <= i < vs.len()
    &&& pick_class(vs[i], e, mc, mode) == cls
    &&& forall|j: int| 0 <= j < vs.len() && j != i && pick_class(vs[j], e, mc, mode) == cls ==> before(vs, prefs, i, j)
}

/// The version `pick` settles on: the first compatible one in newest-first order, else
/// the first one of same-line-only or unknown compatibility.
pub open spec fn pick_spec(vs: Seq<ResolvedVersionV>, e: PluginEntryV, mc: VersionV, mode: CompatMode, prefs: Seq<Seq<char>>) -> Option<int> {
    if exists|i: int| is_best(vs, e, mc, mode, prefs, i, 2) {
        Some(choose|i: int| is_best(vs, e, mc, mode, prefs, i, 2))
    } else if exists|i: int| is_best(vs, e, mc, mode, prefs, i, 1) {
        Some(choose|i: int| is_best(vs, e, mc, mode, prefs, i, 1))
    } else {
        None
    }
}

pub open spec fn rv_views(v: Seq<ResolvedVersion>) -> Seq<ResolvedVersionV> {
    v.map_values(|x: ResolvedVersion| x@)
}

proof fn lemma_best_unique(vs: Seq<ResolvedVersionV>, e: PluginEntryV, mc: VersionV, mode: CompatMode, prefs: Seq<Seq<char>>, a: int, b: int, cls: int)
    requires
        is_best(vs, e, mc, mode, prefs, a, cls),
        is_best(vs, e, mc, mode, prefs, b, cls),
    ensures
        a == b,
{
    if a != b {
        assert(before(vs, prefs, a, b));
        assert(before(vs, prefs, b, a));
    }
}

proof fn lemma_before_trans(vs: Seq<ResolvedVersionV>, prefs: Seq<Seq<char>>, a: int, b: int, c: int)
    requires
        before(vs, prefs, a, b),
        before(vs, prefs, b, c),
    ensures
        before(vs, prefs, a, c),
{
}

/// Floor division by the length of a day.
fn day_exec(t: i64) -> (r: i64)
    ensures
        r == day_of(t),
{
    if t >= 0 {
        t / 86400
    } else {
        let u: i64 = -(t + 1);
        let q = u / 86400;
        assert(-q - 1 == t as int / 86400) by (nonlinear_arith)
            requires
                u == -(t + 1),
                t < 0,
                q == u / 86400,
                u >= 0,
        ;
        -q - 1
    }
}

fn loader_rank_exec(prefs: &Vec<String>, listed: &Vec<String>) -> (r: usize)
    ensures
        r == loader_rank(sviews(prefs@), sviews(listed@)),
{
    let ghost pv = sviews(prefs@);
    let mut i: usize = 0;
    assert(pv.take(0) =~= Seq::<Seq<char>>::empty());
    while i < prefs.len()
        invariant
            i <= prefs@.len(),
            pv == sviews(prefs@),
            first_listed(pv.take(i as int), sviews(listed@)) is None,
        decreases prefs@.len() - i,
    {
        assert(pv.take(i + 1).drop_last() =~= pv.take(i as int));
        if strings_contain(listed, prefs[i].as_str()) {
            proof {
                lemma_first_listed_extend(pv, sviews(listed@), i as int);
            }
            return i;
        }
        i = i + 1;
    }
    assert(pv.take(prefs@.len() as int) =~= pv);
    usize::MAX
}

proof fn lemma_first_listed_extend(pv: Seq<Seq<char>>, listed: Seq<Seq<char>>, i: int)
    requires
        0 <= i < pv.len(),
        first_listed(pv.take(i), listed) is None,
        listed.contains(pv[i]),
    ensures
        first_listed(pv, listed) == Some(i),
    decreases pv.len(),
{
    if i + 1 == pv.len() {
        assert(pv.drop_last() =~= pv.take(i));
    } else {
        assert(pv.drop_last().take(i) =~= pv.take(i));
        lemma_first_listed_extend(pv.drop_last(), listed, i);
    }
}

fn eligible_exec(v: &ResolvedVersion, e: &PluginEntry) -> (r: bool)
    ensures
        r == eligible(v@, e@),
{
    if !e.channel.accepts(v.channel) {
        return false;
    }
    if strings_contain(&e.ignored_versions, v.version_id.as_str()) {
        return false;
    }
    match &e.source {
        SourceRef::GitHub { asset_glob, .. } => any_jar_asset(&v.files, asset_glob.as_str()),
        _ => true,
    }
}

/// Pick the newest version that passes channel/ignore/compat rules. Among versions published
/// the same day, the one listing the server's most specific loader wins.
pub fn pick(versions: &Vec<ResolvedVersion>, entry: &PluginEntry, ctx: &CompatCtx) -> (r: Option<(ResolvedVersion, Compat)>)
    ensures
        match pick_spec(rv_views(versions@), entry@, ctx.mc_version@, ctx.mode, sviews(ctx.loaders@)) {
            Some(k) => r matches Some((v, c)) && v@ == versions@[k]@ && c == compat_spec(versions@[k]@.game_versions, ctx.mc_version@, ctx.mode),
            None => r is None,
        },
{
    let ghost vs = rv_views(versions@);
    let ghost prefs = sviews(ctx.loaders@);
    let ghost mc = ctx.mc_version@;
    let mut best2: Option<usize> = None;
    let mut best1: Option<usize> = None;
    let mut key2: (i64, usize) = (0, 0);
    let mut key1: (i64, usize) = (0, 0);
    let mut i: usize = 0;
    while i < versions.len()
        invariant
            i <= versions@.len(),
            vs == rv_views(versions@),
            prefs == sviews(ctx.loaders@),
            mc == ctx.mc_version@,
            match best2 {
                Some(b) => b < i && key2.0 == day_of(vs[b as int].published) && key2.1 == loader_rank(prefs, vs[b as int].loaders)
                    && pick_class(vs[b as int], entry@, mc, ctx.mode) == 2
                    && forall|j: int| 0 <= j < i && j != b && pick_class(vs[j], entry@, mc, ctx.mode) == 2 ==> before(vs, prefs, b as int, j),
                None => forall|j: int| 0 <= j < i ==> pick_class(vs[j], entry@, mc, ctx.mode) != 2,
            },
            match best1 {
                Some(b) => b < i && key1.0 == day_of(vs[b as int].published) && key1.1 == loader_rank(prefs, vs[b as int].loaders)
                    && pick_class(vs[b as int], entry@, mc, ctx.mode) == 1
                    && forall|j: int| 0 <= j < i && j != b && pick_class(vs[j], entry@, mc, ctx.mode) == 1 ==> before(vs, prefs, b as int, j),
                None => forall|j: int| 0 <= j < i ==> pick_class(vs[j], entry@, mc, ctx.mode) != 1,
            },
        decreases versions@.len() - i,
    {
        let v = &versions[i];
        assert(vs[i as int] == v@);
        let el = eligible_exec(v, entry);
        if el {
            let c = v.compat(ctx);
            let cls: u8 = if c.acceptable() { 2 } else {
                match c {
                    Compat::SameLineOnly | Compat::Unknown => 1,
                    _ => 0,
                }
            };
            assert(cls == pick_class(vs[i as int], entry@, mc, ctx.mode));
            if cls > 0 {
                let d = day_exec(v.published);
                let rk = loader_rank_exec(&ctx.loaders, &v.loaders);
                if cls == 2 {
                    let better = match best2 {
                        None => true,
                        Some(_) => d > key2.0 || (d == key2.0 && rk < key2.1),
                    };
                    let ghost prev = best2;
                    if better {
                        proof {
                            if let Some(b) = prev {
                                assert(before(vs, prefs, i as int, b as int));
                                assert forall|j: int| 0 <= j < i + 1 && j != i && pick_class(vs[j], entry@, mc, ctx.mode) == 2 implies before(vs, prefs, i as int, j) by {
                                    if j != b {
                                        lemma_before_trans(vs, prefs, i as int, b as int, j);
                                    }
                                }
                            }
                        }
                        best2 = Some(i);
                        key2 = (d, rk);
                    } else {
                        proof {
                            if let Some(b) = prev {
                                assert(before(vs, prefs, b as int, i as int));
                            }
                        }
                    }
                } else {
                    let better = match best1 {
                        None => true,
                        Some(_) => d > key1.0 || (d == key1.0 && rk < key1.1),
                    };
                    let ghost prev = best1;
                    if better {
                        proof {
                            if let Some(b) = prev {
                                assert(before(vs, prefs, i as int, b as int));
                                assert forall|j: int| 0 <= j < i + 1 && j != i && pick_class(vs[j], entry@, mc, ctx.mode) == 1 implies before(vs, prefs, i as int, j) by {
                                    if j != b {
                                        lemma_before_trans(vs, prefs, i as int, b as int, j);
                                    }
                                }
                            }
                        }
                        best1 = Some(i);
                        key1 = (d, rk);
                    } else {
                        proof {
                            if let Some(b) = prev {
                                assert(before(vs, prefs, b as int, i as int));
                            }
                        }
                    }
                }
            }
        } else {
            assert(pick_class(vs[i as int], entry@, mc, ctx.mode) == 0);
        }
        i = i + 1;
    }
    match best2 {
        Some(b) => {
            assert(is_best(vs, entry@, mc, ctx.mode, prefs, b as int, 2));
            proof {
                let k = choose|k: int| is_best(vs, entry@, mc, ctx.mode, prefs, k, 2);
                lemma_best_unique(vs, entry@, mc, ctx.mode, prefs, k, b as int, 2);
            }
            let c = versions[b].compat(ctx);
            return Some((versions[b].copy(), c));
        },
        None => {},
    }
    assert(!exists|k: int| is_best(vs, entry@, mc, ctx.mode, prefs, k, 2));
    match best1 {
        Some(b) => {
            assert(is_best(vs, entry@, mc, ctx.mode, prefs, b as int, 1));
            proof {
                let k = choose|k: int| is_best(vs, entry@, mc, ctx.mode, prefs, k, 1);
                lemma_best_unique(vs, entry@, mc, ctx.mode, prefs, k, b as int, 1);
            }
            let c = versions[b].compat(ctx);
            Some((versions[b].copy(), c))
        },
        None => {
            assert(!exists|k: int| is_best(vs, entry@, mc, ctx.mode, prefs, k, 1));
            None
        },
    }
}

/// Effective compat mode for an entry.
pub fn mode_for(entry: &PluginEntry, server_default: CompatMode) -> (r: CompatMode)
    ensures
        r == effective_mode(entry.compat, server_default),
{
    match entry.compat {
        CompatMode::Inherit => match server_default {
            CompatMode::Inherit => CompatMode::Strict,
            m => m,
        },
        m => m,
    }
}

/// The installed version's id at its source.
pub open spec fn installed_version_id_spec(s: SourceRefV) -> Option<Seq<char>> {
    match s {
        SourceRefV::Modrinth { version_id, .. } => Some(version_id),
        SourceRefV::Hangar { version_name, .. } => Some(version_name),
        SourceRefV::GitHub { tag, .. } => Some(tag),
        SourceRefV::GeyserMc { build, .. } => match build {
            Some(b) => Some(decimal(b as nat)),
            None => None,
        },
        _ => None,
    }
}

/// What the installed version is called for people.
pub open spec fn installed_label_spec(e: PluginEntryV) -> Seq<char> {
    match e.source {
        SourceRefV::Modrinth { version_number, .. } => version_number,
        SourceRefV::Hangar { version_name, .. } => version_name,
        SourceRefV::GitHub { tag, .. } => tag,
        SourceRefV::GeyserMc { build, .. } => match build {
            Some(b) => "build "@ + decimal(b as nat),
            None => "?"@,
        },
        _ => match e.descriptor_version {
            Some(v) => v,
            None => "?"@,
        },
    }
}

pub open spec fn project_id_spec(s: SourceRefV) -> Option<Seq<char>> {
    match s {
        SourceRefV::Modrinth { project_id, .. } => Some(project_id),
        SourceRefV::Hangar { slug, .. } => Some(slug),
        SourceRefV::GitHub { owner, repo, .. } => Some(owner + "/"@ + repo),
        SourceRefV::GeyserMc { project, .. } => Some(project),
        _ => None,
    }
}

pub open spec fn source_kind_spec(s: SourceRefV) -> Option<SourceKind> {
    match s {
        SourceRefV::Modrinth { .. } => Some(SourceKind::Modrinth),
        SourceRefV::Hangar { .. } => Some(SourceKind::Hangar),
        SourceRefV::GitHub { .. } => Some(SourceKind::GitHub),
        SourceRefV::GeyserMc { .. } => Some(SourceKind::GeyserMc),
        _ => None,
    }
}

pub fn installed_version_id(entry: &PluginEntry) -> (r: Option<String>)
    ensures
        crate::text::opt_view(r) == installed_version_id_spec(entry@.source),
{
    match &entry.source {
        SourceRef::Modrinth { version_id, .. } => Some(clone_string(version_id)),
        SourceRef::Hangar { version_name, .. } => Some(clone_string(version_name)),
        SourceRef::GitHub { tag, .. } => Some(clone_string(tag)),
        SourceRef::GeyserMc { build, .. } => match build {
            Some(b) => Some(u32_text(*b)),
            None => None,
        },
        _ => None,
    }
}

pub fn installed_label(entry: &PluginEntry) -> (r: String)
    ensures
        r@ == installed_label_spec(entry@),
{
    match &entry.source {
        SourceRef::Modrinth { version_number, .. } => clone_string(version_number),
        SourceRef::Hangar { version_name, .. } => clone_string(version_name),
        SourceRef::GitHub { tag, .. } => clone_string(tag),
        SourceRef::GeyserMc { build, .. } => match build {
            Some(b) => {
                let n = u32_text(*b);
                concat2("build ", n.as_str())
            },
            None => String::from_str("?"),
        },
        _ => match &entry.descriptor_version {
            Some(v) => clone_string(v),
            None => String::from_str("?"),
        },
    }
}

pub fn project_id(entry: &PluginEntry) -> (r: Option<String>)
    ensures
        crate::text::opt_view(r) == project_id_spec(entry@.source),
{
    match &entry.source {
        SourceRef::Modrinth { project_id, .. } => Some(clone_string(project_id)),
        SourceRef::Hangar { slug, .. } => Some(clone_string(slug)),
        SourceRef::GitHub { owner, repo, .. } => Some(concat3(owner.as_str(), "/", repo.as_str())),
        SourceRef::GeyserMc { project, .. } => Some(clone_string(project)),
        _ => None,
    }
}

pub fn source_kind(entry: &PluginEntry) -> (r: Option<SourceKind>)
    ensures
        r == source_kind_spec(entry@.source),
{
    match &entry.source {
        SourceRef::Modrinth { .. } => Some(SourceKind::Modrinth),
        SourceRef::Hangar { .. } => Some(SourceKind::Hangar),
        SourceRef::GitHub { .. } => Some(SourceKind::GitHub),
        SourceRef::GeyserMc { .. } => Some(SourceKind::GeyserMc),
        _ => None,
    }
}

/// Is `latest` a different release than what's installed? Sources publish the same
/// version number as separate files per loader, so a differing id with an identical
/// version number is a sibling, not an update.
pub open spec fn is_newer_spec(e: PluginEntryV, latest: ResolvedVersionV) -> bool {
    if installed_version_id_spec(e.source) == Some(latest.version_id) {
        false
    } else {
        let installed = installed_label_spec(e);
        installed == "unknown"@ || installed == "?"@ || installed != latest.version_number
    }
}

fn str_is(s: &String, lit: &str) -> (r: bool)
    ensures
        r == (s@ == lit@),
{
    let a = to_chars(s.as_str());
    let b = to_chars(lit);
    eq_chars(a.as_slice(), b.as_slice())
}

pub fn is_newer(entry: &PluginEntry, latest: &ResolvedVersion) -> (r: bool)
    ensures
        r == is_newer_spec(entry@, latest@),
{
    match installed_version_id(entry) {
        Some(id) => {
            if str_eq_string(&id, &latest.version_id) {
                return false;
            }
        },
        None => {},
    }
    let installed = installed_label(entry);
    str_is(&installed, "unknown") || str_is(&installed, "?") || !str_eq_string(&installed, &latest.version_number)
}

#[derive(Debug, Clone)]
pub struct UpdateCandidate {
    pub name: String,
    pub installed: String,
    pub latest: ResolvedVersion,
    pub compat: String,
    /// Same line only / unknown game versions: shown but not auto-applied.
    pub untested: bool,
    pub unverified: bool,
}

#[derive(Debug, Default, Clone)]
pub struct CheckReport {
    pub updates: Vec<UpdateCandidate>,
    pub up_to_date: Vec<String>,
    pub pinned: Vec<String>,
    pub unmanaged: Vec<String>,
    pub errors: Vec<String>,
}

/// How a compatibility verdict is written (`{compat:?}` lower-cased).
pub open spec fn compat_word(c: Compat) -> Seq<char> {
    match c {
        Compat::Exact => "exact"@,
        Compat::Lenient => "lenient"@,
        Compat::SameLineOnly => "samelineonly"@,
        Compat::Unknown => "unknown"@,
        Compat::Incompatible => "incompatible"@,
    }
}

pub fn compat_text(c: Compat) -> (r: String)
    ensures
        r@ == compat_word(c),
{
    let s = match c {
        Compat::Exact => "exact",
        Compat::Lenient => "lenient",
        Compat::SameLineOnly => "samelineonly",
        Compat::Unknown => "unknown",
        Compat::Incompatible => "incompatible",
    };
    String::from_str(s)
}

/// The primary file publishes neither a sha512 nor a sha256.
pub open spec fn unverified_spec(v: ResolvedVersionV) -> bool {
    match crate::sources::model::primary_index_v(v.files) {
        Some(i) => v.files[i].sha512 is None && v.files[i].sha256 is None,
        None => false,
    }
}

pub fn candidate(entry: &PluginEntry, latest: ResolvedVersion, compat: Compat) -> (r: UpdateCandidate)
    ensures
        r.name@ == entry.name@,
        r.installed@ == installed_label_spec(entry@),
        r.latest@ == latest@,
        r.compat@ == compat_word(compat),
        r.untested == !compat_acceptable(compat),
        r.unverified == unverified_spec(latest@),
{
    let unverified = match latest.primary_file() {
        Some(f) => f.sha512.is_none() && f.sha256.is_none(),
        None => false,
    };
    proof {
        crate::sources::model::lemma_primary_index_v(latest.files@);
    }
    UpdateCandidate {
        name: clone_string(&entry.name),
        installed: installed_label(entry),
        unverified,
        untested: !compat.acceptable(),
        compat: compat_text(compat),
        latest,
    }
}

#[verifier::ext_equal]
pub struct UpdateV {
    pub name: Seq<char>,
    pub installed: Seq<char>,
    pub latest: ResolvedVersionV,
    pub compat: Seq<char>,
    pub untested: bool,
    pub unverified: bool,
}

impl View for UpdateCandidate {
    type V = UpdateV;

    open spec fn view(&self) -> UpdateV {
        UpdateV {
            name: self.name@,
            installed: self.installed@,
            latest: self.latest@,
            compat: self.compat@,
            untested: self.untested,
            unverified: self.unverified,
        }
    }
}

pub open spec fn update_views(v: Seq<UpdateCandidate>) -> Seq<UpdateV> {
    v.map_values(|u: UpdateCandidate| u@)
}

#[verifier::ext_equal]
pub struct CheckReportV {
    pub updates: Seq<UpdateV>,
    pub up_to_date: Seq<Seq<char>>,
    pub pinned: Seq<Seq<char>>,
    pub unmanaged: Seq<Seq<char>>,
    pub errors: Seq<Seq<char>>,
}

impl View for CheckReport {
    type V = CheckReportV;

    open spec fn view(&self) -> CheckReportV {
        CheckReportV {
            updates: update_views(self.updates@),
            up_to_date: sviews(self.up_to_date@),
            pinned: sviews(self.pinned@),
            unmanaged: sviews(self.unmanaged@),
            errors: sviews(self.errors@),
        }
    }
}

/// The update offered for an entry.
pub open spec fn candidate_v(e: PluginEntryV, latest: ResolvedVersionV, c: Compat) -> UpdateV {
    UpdateV {
        name: e.name,
        installed: installed_label_spec(e),
        latest,
        compat: compat_word(c),
        untested: !compat_acceptable(c),
        unverified: unverified_spec(latest),
    }
}

pub open spec fn bulk_views(b: Seq<(String, ResolvedVersion)>) -> Seq<(Seq<char>, ResolvedVersionV)> {
    b.map_values(|p: (String, ResolvedVersion)| (p.0@, p.1@))
}

/// The bulk answer for a jar hash (the first one listed for it).
pub open spec fn bulk_find(b: Seq<(Seq<char>, ResolvedVersionV)>, h: Seq<char>) -> Option<ResolvedVersionV>
    decreases b.len(),
{
    if b.len() == 0 {
        None
    } else if b[0].0 == h {
        Some(b[0].1)
    } else {
        bulk_find(b.drop_first(), h)
    }
}

/// Entries Modrinth is asked about in bulk: Modrinth-sourced, not pinned, strict.
pub open spec fn bulk_wanted(e: PluginEntryV, server_default: CompatMode) -> bool {
    e.source is Modrinth && !e.pinned && effective_mode(e.compat, server_default) == CompatMode::Strict
}

pub open spec fn bulk_hashes_spec(es: Seq<PluginEntryV>, server_default: CompatMode) -> Seq<Seq<char>>
    decreases es.len(),
{
    if es.len() == 0 {
        Seq::empty()
    } else {
        let r = bulk_hashes_spec(es.drop_last(), server_default);
        if bulk_wanted(es.last(), server_default) { r.push(es.last().hashes.sha512) } else { r }
    }
}

/// The jar hashes to send in one bulk request.
pub fn bulk_hashes(lock: &LockFile, server_default: CompatMode) -> (r: Vec<String>)
    ensures
        sviews(r@) == bulk_hashes_spec(entry_views(lock.plugins@), server_default),
{
    let ghost es = entry_views(lock.plugins@);
    let mut out: Vec<String> = Vec::new();
    let mut i: usize = 0;
    assert(es.take(0) =~= Seq::<PluginEntryV>::empty());
    while i < lock.plugins.len()
        invariant
            i <= lock.plugins@.len(),
            es == entry_views(lock.plugins@),
            sviews(out@) == bulk_hashes_spec(es.take(i as int), server_default),
        decreases lock.plugins@.len() - i,
    {
        let e = &lock.plugins[i];
        assert(es.take(i + 1).drop_last() =~= es.take(i as int));
        assert(es.take(i + 1).last() == e@);
        let is_mr = match &e.source {
            SourceRef::Modrinth { .. } => true,
            _ => false,
        };
        if is_mr && !e.pinned && mode_for(e, server_default) == CompatMode::Strict {
            out.push(clone_string(&e.hashes.sha512));
        }
        i = i + 1;
        assert(sviews(out@) =~= bulk_hashes_spec(es.take(i as int), server_default));
    }
    assert(es.take(lock.plugins@.len() as int) =~= es);
    out
}

pub open spec fn empty_report() -> CheckReportV {
    CheckReportV { updates: Seq::empty(), up_to_date: Seq::empty(), pinned: Seq::empty(), unmanaged: Seq::empty(), errors: Seq::empty() }
}

/// One entry of the bulk pass: unmanaged and pinned entries are listed as such; an entry
/// whose bulk answer its channel and ignore list accept is decided; the rest (by index)
/// need their source's version list.
pub open spec fn bulk_step(r: CheckReportV, needs: Seq<int>, i: int, e: PluginEntryV, b: Seq<(Seq<char>, ResolvedVersionV)>, mc: VersionV, server_default: CompatMode) -> (CheckReportV, Seq<int>) {
    if !managed_v(e.source) {
        (CheckReportV { unmanaged: r.unmanaged.push(e.name), ..r }, needs)
    } else if e.pinned {
        (CheckReportV { pinned: r.pinned.push(e.name), ..r }, needs)
    } else {
        match bulk_find(b, e.hashes.sha512) {
            Some(latest) => {
                if channel_rank(latest.channel) <= channel_rank(e.channel) && !e.ignored_versions.contains(latest.version_id) {
                    if is_newer_spec(e, latest) {
                        let c = compat_spec(latest.game_versions, mc, effective_mode(e.compat, server_default));
                        (CheckReportV { updates: r.updates.push(candidate_v(e, latest, c)), ..r }, needs)
                    } else {
                        (CheckReportV { up_to_date: r.up_to_date.push(e.name), ..r }, needs)
                    }
                } else {
                    (r, needs.push(i))
                }
            },
            None => (r, needs.push(i)),
        }
    }
}

pub open spec fn managed_v(s: SourceRefV) -> bool {
    !(s is Unidentified || s is Unmanaged)
}

pub open spec fn bulk_phase(es: Seq<PluginEntryV>, b: Seq<(Seq<char>, ResolvedVersionV)>, mc: VersionV, server_default: CompatMode) -> (CheckReportV, Seq<int>)
    decreases es.len(),
{
    if es.len() == 0 {
        (empty_report(), Seq::empty())
    } else {
        let (r, n) = bulk_phase(es.drop_last(), b, mc, server_default);
        bulk_step(r, n, es.len() - 1, es.last(), b, mc, server_default)
    }
}

fn bulk_lookup<'a>(b: &'a Vec<(String, ResolvedVersion)>, h: &String) -> (r: Option<&'a ResolvedVersion>)
    ensures
        match bulk_find(bulk_views(b@), h@) {
            Some(v) => r matches Some(x) && x@ == v,
            None => r is None,
        },
{
    let ghost bv = bulk_views(b@);
    let mut i: usize = 0;
    assert(bv.skip(0) =~= bv);
    while i < b.len()
        invariant
            i <= b@.len(),
            bv == bulk_views(b@),
            bulk_find(bv, h@) == bulk_find(bv.skip(i as int), h@),
        decreases b@.len() - i,
    {
        assert(bv.skip(i as int)[0] == (b@[i as int].0@, b@[i as int].1@));
        if str_eq_string(&b[i].0, h) {
            return Some(&b[i].1);
        }
        assert(bv.skip(i as int).drop_first() =~= bv.skip(i + 1));
        i = i + 1;
    }
    assert(bv.skip(i as int) =~= Seq::<(Seq<char>, ResolvedVersionV)>::empty());
    None
}

/// Records that the bulk request failed: its message comes first among the report's
/// errors, and nothing else changes.
pub fn record_bulk_error(report: &mut CheckReport, e: &str)
    ensures
        final(report)@ == (CheckReportV { errors: seq!["modrinth bulk check: "@ + e@] + old(report)@.errors, ..old(report)@ }),
{
    proof {
        reveal_strlit("modrinth bulk check: ");
    }
    let msg = concat2("modrinth bulk check: ", e);
    let ghost before = report.errors@;
    report.errors.insert(0, msg);
    assert(sviews(report.errors@) =~= seq!["modrinth bulk check: "@ + e@] + sviews(before));
}

/// The bulk pass of an update check: classifies every entry from the bulk answer
/// (hash to latest version) and returns the indices of the entries that still need their
/// source's version list.
pub fn check_bulk(lock: &LockFile, bulk: &Vec<(String, ResolvedVersion)>, base_ctx: &CompatCtx, server_default: CompatMode) -> (r: (CheckReport, Vec<usize>))
    ensures
        r.0@ == bulk_phase(entry_views(lock.plugins@), bulk_views(bulk@), base_ctx.mc_version@, server_default).0,
        r.1@.map_values(|i: usize| i as int) == bulk_phase(entry_views(lock.plugins@), bulk_views(bulk@), base_ctx.mc_version@, server_default).1,
{
    let ghost es = entry_views(lock.plugins@);
    let ghost bv = bulk_views(bulk@);
    let ghost mc = base_ctx.mc_version@;
    let mut report = CheckReport { updates: Vec::new(), up_to_date: Vec::new(), pinned: Vec::new(), unmanaged: Vec::new(), errors: Vec::new() };
    let mut needs: Vec<usize> = Vec::new();
    let mut i: usize = 0;
    assert(es.take(0) =~= Seq::<PluginEntryV>::empty());
    assert(report@ =~~= empty_report());
    assert(needs@.map_values(|i: usize| i as int) =~= Seq::<int>::empty());
    while i < lock.plugins.len()
        invariant
            i <= lock.plugins@.len(),
            es == entry_views(lock.plugins@),
            bv == bulk_views(bulk@),
            mc == base_ctx.mc_version@,
            report@ == bulk_phase(es.take(i as int), bv, mc, server_default).0,
            needs@.map_values(|i: usize| i as int) == bulk_phase(es.take(i as int), bv, mc, server_default).1,
        decreases lock.plugins@.len() - i,
    {
        let e = &lock.plugins[i];
        assert(es.take(i + 1).drop_last() =~= es.take(i as int));
        assert(es.take(i + 1).last() == e@);
        let ghost before_r = report@;
        let ghost before_n = needs@.map_values(|i: usize| i as int);
        if !e.source.is_managed() {
            report.unmanaged.push(clone_string(&e.name));
        } else if e.pinned {
            report.pinned.push(clone_string(&e.name));
        } else {
            match bulk_lookup(bulk, &e.hashes.sha512) {
                Some(latest) => {
                    if e.channel.accepts(latest.channel) && !strings_contain(&e.ignored_versions, latest.version_id.as_str()) {
                        if is_newer(e, latest) {
                            let ctx = base_ctx.with_mode(e.compat, server_default);
                            let c = latest.compat(&ctx);
                            report.updates.push(candidate(e, latest.copy(), c));
                        } else {
                            report.up_to_date.push(clone_string(&e.name));
                        }
                    } else {
                        needs.push(i);
                    }
                },
                None => {
                    needs.push(i);
                },
            }
        }
        i = i + 1;
        assert(report@ =~~= bulk_phase(es.take(i as int), bv, mc, server_default).0);
        assert(needs@.map_values(|i: usize| i as int) =~= bulk_phase(es.take(i as int), bv, mc, server_default).1);
    }
    assert(es.take(lock.plugins@.len() as int) =~= es);
    (report, needs)
}


/// What asking an entry's own source for its version list gave.
#[derive(Debug, Clone)]
pub enum Listing {
    /// The entry names no source kind or no project id: nothing was asked.
    NoSource,
    /// The entry's source is turned off.
    Disabled(SourceKind),
    /// The request failed with this message.
    Failed(String),
    /// The versions, newest first.
    Listed(Vec<ResolvedVersion>),
}

pub enum ListingV {
    NoSource,
    Disabled(SourceKind),
    Failed(Seq<char>),
    Listed(Seq<ResolvedVersionV>),
}

impl View for Listing {
    type V = ListingV;

    open spec fn view(&self) -> ListingV {
        match self {
            Listing::NoSource => ListingV::NoSource,
            Listing::Disabled(k) => ListingV::Disabled(*k),
            Listing::Failed(m) => ListingV::Failed(m@),
            Listing::Listed(vs) => ListingV::Listed(rv_views(vs@)),
        }
    }
}

/// One entry of the second pass, decided from its source's version list.
pub open spec fn listed_step(r: CheckReportV, e: PluginEntryV, l: ListingV, mc: VersionV, server_default: CompatMode, prefs: Seq<Seq<char>>) -> CheckReportV {
    match l {
        ListingV::NoSource => r,
        ListingV::Disabled(k) => CheckReportV { errors: r.errors.push(e.name + ": source "@ + source_name(k) + " is disabled"@), ..r },
        ListingV::Failed(m) => CheckReportV { errors: r.errors.push(e.name + ": "@ + m), ..r },
        ListingV::Listed(vs) => {
            let mode = effective_mode(e.compat, server_default);
            match pick_spec(vs, e, mc, mode, prefs) {
                Some(k) => if is_newer_spec(e, vs[k]) {
                    CheckReportV { updates: r.updates.push(candidate_v(e, vs[k], compat_spec(vs[k].game_versions, mc, mode))), ..r }
                } else {
                    CheckReportV { up_to_date: r.up_to_date.push(e.name), ..r }
                },
                None => CheckReportV { up_to_date: r.up_to_date.push(e.name), ..r },
            }
        },
    }
}

/// How many names and updates a report lists, all its lists together.
pub open spec fn report_size(r: CheckReportV) -> nat {
    r.updates.len() + r.up_to_date.len() + r.pinned.len() + r.unmanaged.len() + r.errors.len()
}

/// The bulk pass accounts for every entry exactly once: each is listed in the report
/// (unmanaged, pinned, an update or up to date) or its index is handed on, never both;
/// the indices handed on are those of managed, unpinned entries, in lock order, and the
/// pass reports no error.
pub proof fn lemma_bulk_phase_partition(es: Seq<PluginEntryV>, b: Seq<(Seq<char>, ResolvedVersionV)>, mc: VersionV, server_default: CompatMode)
    ensures
        ({
            let (r, n) = bulk_phase(es, b, mc, server_default);
            &&& report_size(r) + n.len() == es.len()
            &&& r.errors.len() == 0
            &&& forall|k: int| 0 <= k < n.len() ==> 0 <= #[trigger] n[k] < es.len() && managed_v(es[n[k]].source) && !es[n[k]].pinned
            &&& forall|k: int, l: int| 0 <= k < l < n.len() ==> #[trigger] n[k] < #[trigger] n[l]
        }),
    decreases es.len(),
{
    if es.len() > 0 {
        let init = es.drop_last();
        lemma_bulk_phase_partition(init, b, mc, server_default);
        let (r0, n0) = bulk_phase(init, b, mc, server_default);
        let (r, n) = bulk_phase(es, b, mc, server_default);
        assert forall|k: int| 0 <= k < n0.len() implies #[trigger] es[n0[k]] == init[n0[k]] by {}
        assert forall|k: int| 0 <= k < n.len() implies 0 <= #[trigger] n[k] < es.len() && managed_v(es[n[k]].source) && !es[n[k]].pinned by {
            if k < n0.len() {
                assert(n[k] == n0[k]);
                assert(es[n0[k]] == init[n0[k]]);
            }
        }
        assert forall|k: int, l: int| 0 <= k < l < n.len() implies #[trigger] n[k] < #[trigger] n[l] by {
            if l < n0.len() {
                assert(n[k] == n0[k] && n[l] == n0[l]);
            } else {
                assert(n[k] == n0[k]);
            }
        }
    }
}

/// The listing pass adds one line to the report for each entry it is given, unless the
/// entry has no source to list.
pub proof fn lemma_listed_step_size(r: CheckReportV, e: PluginEntryV, l: ListingV, mc: VersionV, server_default: CompatMode, prefs: Seq<Seq<char>>)
    ensures
        report_size(listed_step(r, e, l, mc, server_default, prefs)) == report_size(r) + if l is NoSource { 0int } else { 1int },
{
}

/// Records what an entry's version list says: an update, up to date, or the error.
pub fn check_listed(report: &mut CheckReport, entry: &PluginEntry, listing: Listing, base_ctx: &CompatCtx, server_default: CompatMode)
    ensures
        final(report)@ == listed_step(old(report)@, entry@, listing@, base_ctx.mc_version@, server_default, sviews(base_ctx.loaders@)),
{
    let ghost r0 = report@;
    match listing {
        Listing::NoSource => {},
        Listing::Disabled(k) => {
            let head = concat3(entry.name.as_str(), ": source ", k.as_str());
            let msg = concat2(head.as_str(), " is disabled");
            proof {
                reveal_strlit(": source ");
                reveal_strlit(" is disabled");
            }
            report.errors.push(msg);
            assert(report@ =~~= listed_step(r0, entry@, listing@, base_ctx.mc_version@, server_default, sviews(base_ctx.loaders@)));
        },
        Listing::Failed(m) => {
            let msg = concat3(entry.name.as_str(), ": ", m.as_str());
            proof {
                reveal_strlit(": ");
            }
            report.errors.push(msg);
            assert(report@ =~~= listed_step(r0, entry@, listing@, base_ctx.mc_version@, server_default, sviews(base_ctx.loaders@)));
        },
        Listing::Listed(versions) => {
            let ctx = base_ctx.with_mode(entry.compat, server_default);
            match pick(&versions, entry, &ctx) {
                Some((latest, compat)) => {
                    if is_newer(entry, &latest) {
                        report.updates.push(candidate(entry, latest, compat));
                    } else {
                        report.up_to_date.push(clone_string(&entry.name));
                    }
                },
                None => {
                    report.up_to_date.push(clone_string(&entry.name));
                },
            }
            assert(report@ =~~= listed_step(r0, entry@, listing@, base_ctx.mc_version@, server_default, sviews(base_ctx.loaders@)));
        },
    }
}

/// Pairs of update and its sort key (the lower-cased name) in the order given.
pub open spec fn keyed_by_name(ks: Seq<(Vec<u64>, UpdateCandidate)>, us: Seq<UpdateCandidate>) -> bool {
    &&& ks.len() == us.len()
    &&& forall|i: int| 0 <= i < ks.len() ==> (#[trigger] ks[i]).1 == us[i] && ks[i].0@ == char_key(lower(us[i].name@))
}

pub open spec fn unkeyed(ks: Seq<(Vec<u64>, UpdateCandidate)>) -> Seq<UpdateCandidate> {
    ks.map_values(|p: (Vec<u64>, UpdateCandidate)| p.1)
}

/// Orders the offered updates by name, ignoring ASCII case; equal names keep their order.
pub fn sort_updates(report: &mut CheckReport)
    ensures
        exists|ks: Seq<(Vec<u64>, UpdateCandidate)>|
            #[trigger] keyed_by_name(ks, old(report).updates@) && unkeyed(isort(ks)) == final(report).updates@,
        forall|i: int, j: int| 0 <= i < j < final(report).updates@.len() ==>
            crate::util::sort::key_le(char_key(lower((#[trigger] final(report).updates@[i]).name@)), char_key(lower((#[trigger] final(report).updates@[j]).name@))),
        final(report)@.up_to_date == old(report)@.up_to_date,
        final(report)@.pinned == old(report)@.pinned,
        final(report)@.unmanaged == old(report)@.unmanaged,
        final(report)@.errors == old(report)@.errors,
{
    let mut updates: Vec<UpdateCandidate> = Vec::new();
    std::mem::swap(&mut updates, &mut report.updates);
    let ghost us = updates@;
    let mut keyed: Vec<(Vec<u64>, UpdateCandidate)> = Vec::new();
    let mut rest = updates;
    let mut i: usize = 0;
    let n = rest.len();
    while rest.len() > 0
        invariant
            i + rest@.len() == us.len(),
            n == us.len(),
            rest@ == us.skip(i as int),
            keyed_by_name(keyed@, us.take(i as int)),
        decreases rest@.len(),
    {
        let u = rest.remove(0);
        let k = lower_key(u.name.as_str());
        keyed.push((k, u));
        i = i + 1;
        assert(us.skip(i - 1).drop_first() =~= us.skip(i as int));
        assert(keyed_by_name(keyed@, us.take(i as int)));
    }
    assert(us.take(us.len() as int) =~= us);
    let ghost ks = keyed@;
    let sorted = sort_by_key(keyed);
    assert(sorted@.len() == n) by {
        assert(sorted@.to_multiset().len() == ks.to_multiset().len());
        ks.to_multiset_ensures();
        sorted@.to_multiset_ensures();
    }
    let mut out: Vec<UpdateCandidate> = Vec::new();
    let mut rest2 = sorted;
    let ghost ss = rest2@;
    let mut j: usize = 0;
    while rest2.len() > 0
        invariant
            j + rest2@.len() == ss.len(),
            ss.len() == n,
            rest2@ == ss.skip(j as int),
            out@ == ss.take(j as int).map_values(|p: (Vec<u64>, UpdateCandidate)| p.1),
        decreases rest2@.len(),
    {
        let p = rest2.remove(0);
        out.push(p.1);
        j = j + 1;
        assert(ss.skip(j - 1).drop_first() =~= ss.skip(j as int));
        assert(out@ =~= ss.take(j as int).map_values(|p: (Vec<u64>, UpdateCandidate)| p.1));
    }
    assert(ss.take(ss.len() as int) =~= ss);
    assert(ss.to_multiset() == ks.to_multiset());
    assert(keyed_by_name(ks, us));
    assert(unkeyed(isort(ks)) == out@);
    assert forall|a: int, b: int| 0 <= a < b < out@.len() implies
        crate::util::sort::key_le(char_key(lower((#[trigger] out@[a]).name@)), char_key(lower((#[trigger] out@[b]).name@))) by {
        assert(out@[a] == ss[a].1);
        assert(out@[b] == ss[b].1);
        broadcast use vstd::seq_lib::group_to_multiset_ensures;
        assert(ss.contains(ss[a]));
        assert(ss.contains(ss[b]));
        assert(ss.to_multiset().count(ss[a]) > 0);
        assert(ks.to_multiset().count(ss[a]) > 0);
        assert(ss.to_multiset().count(ss[b]) > 0);
        assert(ks.to_multiset().count(ss[b]) > 0);
        assert(ks.contains(ss[a]));
        assert(ks.contains(ss[b]));
        let ia = choose|x: int| 0 <= x < ks.len() && ks[x] == ss[a];
        let ib = choose|x: int| 0 <= x < ks.len() && ks[x] == ss[b];
        assert(ks[ia].0@ == char_key(lower(us[ia].name@)));
        assert(ks[ib].0@ == char_key(lower(us[ib].name@)));
    }
    report.updates = out;
}

} // verus!
