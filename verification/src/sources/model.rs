//! Source-agnostic view of projects and versions.

use vstd::prelude::*;
use crate::lockfile::{Channel, CompatMode};
use crate::text::{clone_opt_string, clone_strings, lower, opt_view, str_eq_string, sviews, to_chars};
use crate::util::version::{display_spec, parse_spec, McVersion, VersionV};

verus! {

#[derive(Debug, Clone, Copy, PartialEq, Eq, Hash, Structural)]
pub enum SourceKind {
    Modrinth,
    Hangar,
    GitHub,
    GeyserMc,
}

pub open spec fn source_name(k: SourceKind) -> Seq<char> {
    match k {
        SourceKind::Modrinth => "modrinth"@,
        SourceKind::Hangar => "hangar"@,
        SourceKind::GitHub => "github"@,
        SourceKind::GeyserMc => "geysermc"@,
    }
}

impl SourceKind {
    pub fn as_str(self) -> (r: &'static str)
        ensures
            r@ == source_name(self),
    {
        match self {
            SourceKind::Modrinth => "modrinth",
            SourceKind::Hangar => "hangar",
            SourceKind::GitHub => "github",
            SourceKind::GeyserMc => "geysermc",
        }
    }
}

#[derive(Debug, Clone)]
pub struct ProjectRef {
    pub source: SourceKind,
    /// Modrinth project id, Hangar slug, GitHub `owner/repo`, GeyserMC project name.
    pub id: String,
    pub slug: String,
    pub name: String,
    pub author: Option<String>,
    pub page_url: String,
    pub description: String,
    pub downloads: Option<u64>,
    pub icon_url: Option<String>,
}

#[derive(Debug, Clone)]
pub struct VersionFile {
    pub name: String,
    pub url: String,
    pub size: Option<u64>,
    pub sha512: Option<String>,
    pub sha256: Option<String>,
    pub sha1: Option<String>,
    pub primary: bool,
}

#[derive(Debug, Clone, Copy, PartialEq, Eq, Structural)]
pub enum DependencyKind {
    Required,
    Optional,
    Incompatible,
    Embedded,
}

#[derive(Debug, Clone)]
pub struct Dependency {
    pub project_id: Option<String>,
    pub version_id: Option<String>,
    pub name: Option<String>,
    pub kind: DependencyKind,
}

#[derive(Debug, Clone)]
pub struct ResolvedVersion {
    pub source: SourceKind,
    pub project_id: String,
    /// Modrinth version id | Hangar version name | GitHub tag | GeyserMC build number.
    pub version_id: String,
    pub version_number: String,
    pub channel: Channel,
    /// Empty when the source doesn't know (GitHub).
    pub game_versions: Vec<String>,
    pub loaders: Vec<String>,
    /// Unix time (seconds, UTC) of publication.
    pub published: i64,
    pub files: Vec<VersionFile>,
    pub dependencies: Vec<Dependency>,
    pub changelog: Option<String>,
}

/// What the server is, for filtering versions.
#[derive(Debug, Clone)]
pub struct CompatCtx {
    pub mc_version: McVersion,
    pub loaders: Vec<String>,
    pub hangar_platform: Option<String>,
    /// Effective mode after resolving `Inherit` against the server default.
    pub mode: CompatMode,
}

#[derive(Debug, Clone, Copy, PartialEq, Eq, Structural)]
pub enum Compat {
    /// Lists the exact server version.
    Exact,
    /// Same line and the mode allows it.
    Lenient,
    /// Same line but the mode is strict: shown, not auto-applied.
    SameLineOnly,
    /// Source doesn't declare game versions.
    Unknown,
    Incompatible,
}

/// A search hit or identification candidate.
#[derive(Debug, Clone)]
pub struct Candidate {
    pub project: ProjectRef,
    pub confidence: Confidence,
    /// The version the installed jar matches, if hash-confirmed.
    pub version: Option<ResolvedVersion>,
}

#[derive(Debug, Clone, Copy, PartialEq, Eq, Structural, PartialOrd, Ord)]
pub enum Confidence {
    Weak,
    NameMatch,
    ExactName,
    HashConfirmed,
}

/// Weak < NameMatch < ExactName < HashConfirmed.
pub open spec fn confidence_rank(c: Confidence) -> nat {
    match c {
        Confidence::Weak => 0,
        Confidence::NameMatch => 1,
        Confidence::ExactName => 2,
        Confidence::HashConfirmed => 3,
    }
}

impl Confidence {
    pub fn rank(self) -> (r: u8)
        ensures
            r == confidence_rank(self),
    {
        match self {
            Confidence::Weak => 0,
            Confidence::NameMatch => 1,
            Confidence::ExactName => 2,
            Confidence::HashConfirmed => 3,
        }
    }
}

/// Where a pasted URL points.
#[derive(Debug, Clone, PartialEq, Eq)]
pub struct ProjectLocator {
    pub source: SourceKind,
    pub id: String,
}


#[verifier::ext_equal]
pub struct VersionFileV {
    pub name: Seq<char>,
    pub url: Seq<char>,
    pub size: Option<u64>,
    pub sha512: Option<Seq<char>>,
    pub sha256: Option<Seq<char>>,
    pub sha1: Option<Seq<char>>,
    pub primary: bool,
}

impl View for VersionFile {
    type V = VersionFileV;

    open spec fn view(&self) -> VersionFileV {
        VersionFileV {
            name: self.name@,
            url: self.url@,
            size: self.size,
            sha512: opt_view(self.sha512),
            sha256: opt_view(self.sha256),
            sha1: opt_view(self.sha1),
            primary: self.primary,
        }
    }
}

#[verifier::ext_equal]
pub struct DependencyV {
    pub project_id: Option<Seq<char>>,
    pub version_id: Option<Seq<char>>,
    pub name: Option<Seq<char>>,
    pub kind: DependencyKind,
}

impl View for Dependency {
    type V = DependencyV;

    open spec fn view(&self) -> DependencyV {
        DependencyV {
            project_id: opt_view(self.project_id),
            version_id: opt_view(self.version_id),
            name: opt_view(self.name),
            kind: self.kind,
        }
    }
}

#[verifier::ext_equal]
pub struct ResolvedVersionV {
    pub source: SourceKind,
    pub project_id: Seq<char>,
    pub version_id: Seq<char>,
    pub version_number: Seq<char>,
    pub channel: Channel,
    pub game_versions: Seq<Seq<char>>,
    pub loaders: Seq<Seq<char>>,
    pub published: i64,
    pub files: Seq<VersionFileV>,
    pub dependencies: Seq<DependencyV>,
    pub changelog: Option<Seq<char>>,
}

impl View for ResolvedVersion {
    type V = ResolvedVersionV;

    open spec fn view(&self) -> ResolvedVersionV {
        ResolvedVersionV {
            source: self.source,
            project_id: self.project_id@,
            version_id: self.version_id@,
            version_number: self.version_number@,
            channel: self.channel,
            game_versions: sviews(self.game_versions@),
            loaders: sviews(self.loaders@),
            published: self.published,
            files: file_views(self.files@),
            dependencies: dep_views(self.dependencies@),
            changelog: opt_view(self.changelog),
        }
    }
}

#[verifier::ext_equal]
pub struct ProjectRefV {
    pub source: SourceKind,
    pub id: Seq<char>,
    pub slug: Seq<char>,
    pub name: Seq<char>,
    pub author: Option<Seq<char>>,
    pub page_url: Seq<char>,
    pub description: Seq<char>,
    pub downloads: Option<u64>,
    pub icon_url: Option<Seq<char>>,
}

impl View for ProjectRef {
    type V = ProjectRefV;

    open spec fn view(&self) -> ProjectRefV {
        ProjectRefV {
            source: self.source,
            id: self.id@,
            slug: self.slug@,
            name: self.name@,
            author: opt_view(self.author),
            page_url: self.page_url@,
            description: self.description@,
            downloads: self.downloads,
            icon_url: opt_view(self.icon_url),
        }
    }
}

impl VersionFile {
    pub fn copy(&self) -> (r: VersionFile)
        ensures
            r@ == self@,
    {
        VersionFile {
            name: self.name.clone(),
            url: self.url.clone(),
            size: self.size,
            sha512: clone_opt_string(&self.sha512),
            sha256: clone_opt_string(&self.sha256),
            sha1: clone_opt_string(&self.sha1),
            primary: self.primary,
        }
    }
}

impl Dependency {
    pub fn copy(&self) -> (r: Dependency)
        ensures
            r@ == self@,
    {
        Dependency {
            project_id: clone_opt_string(&self.project_id),
            version_id: clone_opt_string(&self.version_id),
            name: clone_opt_string(&self.name),
            kind: self.kind,
        }
    }
}

impl ProjectRef {
    pub fn copy(&self) -> (r: ProjectRef)
        ensures
            r@ == self@,
    {
        ProjectRef {
            source: self.source,
            id: self.id.clone(),
            slug: self.slug.clone(),
            name: self.name.clone(),
            author: clone_opt_string(&self.author),
            page_url: self.page_url.clone(),
            description: self.description.clone(),
            downloads: self.downloads,
            icon_url: clone_opt_string(&self.icon_url),
        }
    }
}

pub open spec fn file_views(v: Seq<VersionFile>) -> Seq<VersionFileV> {
    v.map_values(|f: VersionFile| f@)
}

pub open spec fn dep_views(v: Seq<Dependency>) -> Seq<DependencyV> {
    v.map_values(|d: Dependency| d@)
}

pub fn copy_files(v: &Vec<VersionFile>) -> (r: Vec<VersionFile>)
    ensures
        file_views(r@) == file_views(v@),
{
    let mut out: Vec<VersionFile> = Vec::new();
    let mut i: usize = 0;
    while i < v.len()
        invariant
            i <= v@.len(),
            out@.len() == i,
            forall|k: int| 0 <= k < i ==> out@[k]@ == v@[k]@,
        decreases v@.len() - i,
    {
        out.push(v[i].copy());
        i = i + 1;
    }
    assert(file_views(out@) =~= file_views(v@));
    out
}

fn copy_deps(v: &Vec<Dependency>) -> (r: Vec<Dependency>)
    ensures
        dep_views(r@) == dep_views(v@),
{
    let mut out: Vec<Dependency> = Vec::new();
    let mut i: usize = 0;
    while i < v.len()
        invariant
            i <= v@.len(),
            out@.len() == i,
            forall|k: int| 0 <= k < i ==> out@[k]@ == v@[k]@,
        decreases v@.len() - i,
    {
        out.push(v[i].copy());
        i = i + 1;
    }
    assert(dep_views(out@) =~= dep_views(v@));
    out
}

/// `Inherit` resolved against the server default, itself defaulting to strict.
pub open spec fn effective_mode(plugin_mode: CompatMode, server_default: CompatMode) -> CompatMode {
    match plugin_mode {
        CompatMode::Inherit => match server_default {
            CompatMode::Inherit => CompatMode::Strict,
            m => m,
        },
        m => m,
    }
}

/// A declared game version on the server's release line.
pub open spec fn on_line(g: Seq<char>, mc: VersionV) -> bool {
    match parse_spec(g) {
        Some(v) => v.major == mc.major && v.minor == mc.minor,
        None => false,
    }
}

/// Some declared game version is on the server's release line.
pub open spec fn lists_same_line(gv: Seq<Seq<char>>, mc: VersionV) -> bool {
    exists|i: int| 0 <= i < gv.len() && #[trigger] on_line(gv[i], mc)
}

/// How a version's declared game versions fit the server under a compatibility mode.
pub open spec fn compat_spec(gv: Seq<Seq<char>>, mc: VersionV, mode: CompatMode) -> Compat {
    if gv.len() == 0 {
        Compat::Unknown
    } else if gv.contains(display_spec(mc)) {
        Compat::Exact
    } else if mode is Any {
        Compat::Lenient
    } else if lists_same_line(gv, mc) {
        if mode is Lenient || mode is Inherit { Compat::Lenient } else { Compat::SameLineOnly }
    } else {
        Compat::Incompatible
    }
}

pub open spec fn compat_acceptable(c: Compat) -> bool {
    c is Exact || c is Lenient
}

/// What each compatibility mode lets through. A version is exact exactly when it lists
/// the server's version text, and unknown exactly when it declares no game version.
/// Under strict compatibility a version is acceptable only when it lists the server's
/// exact version: another version of the same line is reported as same-line-only (never
/// lenient), and only strict mode reports that. Declared versions are ignored only in
/// any-mode, where every declaring version is at least lenient.
pub proof fn lemma_compat_modes(gv: Seq<Seq<char>>, mc: VersionV, mode: CompatMode)
    ensures
        (compat_spec(gv, mc, mode) is Exact) == gv.contains(display_spec(mc)),
        (compat_spec(gv, mc, mode) is Unknown) == (gv.len() == 0),
        compat_acceptable(compat_spec(gv, mc, CompatMode::Strict)) == gv.contains(display_spec(mc)),
        compat_spec(gv, mc, mode) is Lenient ==> !(mode is Strict),
        compat_spec(gv, mc, mode) is SameLineOnly ==> mode is Strict,
        mode is Any && gv.len() > 0 ==> compat_acceptable(compat_spec(gv, mc, mode)),
        (mode is Lenient || mode is Inherit) && lists_same_line(gv, mc) ==> compat_acceptable(compat_spec(gv, mc, mode)),
        mode is Strict && lists_same_line(gv, mc) && !gv.contains(display_spec(mc)) ==> compat_spec(gv, mc, mode) is SameLineOnly,
        (compat_spec(gv, mc, mode) is Incompatible) == (gv.len() > 0 && !(mode is Any) && !lists_same_line(gv, mc) && !gv.contains(display_spec(mc))),
{
    if gv.contains(display_spec(mc)) {
        let k = choose|k: int| 0 <= k < gv.len() && gv[k] == display_spec(mc);
        assert(gv.len() > 0);
    }
}

/// Index of the first `true`.
pub open spec fn first_true(flags: Seq<bool>) -> Option<int>
    decreases flags.len(),
{
    if flags.len() == 0 {
        None
    } else {
        match first_true(flags.drop_last()) {
            Some(i) => Some(i),
            None => if flags.last() { Some(flags.len() - 1) } else { None },
        }
    }
}

pub open spec fn primary_pos(flags: Seq<bool>) -> Option<int> {
    match first_true(flags) {
        Some(i) => Some(i),
        None => if flags.len() > 0 { Some(0) } else { None },
    }
}

/// Index of the primary file: the first marked primary, else the first file.
pub open spec fn primary_index(files: Seq<VersionFile>) -> Option<int> {
    primary_pos(files.map_values(|f: VersionFile| f.primary))
}

proof fn lemma_first_true_extend(flags: Seq<bool>, i: int)
    requires
        0 <= i < flags.len(),
        first_true(flags.take(i)) is None,
        flags[i],
    ensures
        first_true(flags) == Some(i),
    decreases flags.len(),
{
    if i + 1 == flags.len() {
        assert(flags.drop_last() =~= flags.take(i));
    } else {
        assert(flags.drop_last().take(i) =~= flags.take(i));
        lemma_first_true_extend(flags.drop_last(), i);
    }
}

fn any_on_line(gvs: &Vec<String>, mc: &McVersion) -> (r: bool)
    ensures
        r == lists_same_line(sviews(gvs@), mc@),
{
    let ghost gv = sviews(gvs@);
    let mut k: usize = 0;
    while k < gvs.len()
        invariant
            k <= gvs@.len(),
            gv == sviews(gvs@),
            forall|j: int| 0 <= j < k ==> !#[trigger] on_line(gv[j], mc@),
        decreases gvs@.len() - k,
    {
        match McVersion::parse(gvs[k].as_str()) {
            Some(v) => {
                if v.same_line(mc) {
                    assert(parse_spec(gv[k as int]) == Some(v@));
                    assert(on_line(gv[k as int], mc@));
                    return true;
                }
            },
            None => {},
        }
        assert(!on_line(gv[k as int], mc@));
        k = k + 1;
    }
    false
}

impl ResolvedVersion {
    pub fn copy(&self) -> (r: ResolvedVersion)
        ensures
            r@ == self@,
    {
        ResolvedVersion {
            source: self.source,
            project_id: self.project_id.clone(),
            version_id: self.version_id.clone(),
            version_number: self.version_number.clone(),
            channel: self.channel,
            game_versions: clone_strings(&self.game_versions),
            loaders: clone_strings(&self.loaders),
            published: self.published,
            files: copy_files(&self.files),
            dependencies: copy_deps(&self.dependencies),
            changelog: clone_opt_string(&self.changelog),
        }
    }

    pub fn primary_file(&self) -> (r: Option<&VersionFile>)
        ensures
            match primary_index(self.files@) {
                Some(i) => 0 <= i < self.files@.len() && r == Some(&self.files@[i]),
                None => r is None,
            },
    {
        let ghost flags = self.files@.map_values(|f: VersionFile| f.primary);
        let mut i: usize = 0;
        assert(flags.take(0) =~= Seq::<bool>::empty());
        while i < self.files.len()
            invariant
                i <= self.files@.len(),
                flags == self.files@.map_values(|f: VersionFile| f.primary),
                first_true(flags.take(i as int)) is None,
            decreases self.files@.len() - i,
        {
            assert(flags.take(i + 1).drop_last() =~= flags.take(i as int));
            if self.files[i].primary {
                proof {
                    lemma_first_true_extend(flags, i as int);
                }
                return Some(&self.files[i]);
            }
            i = i + 1;
        }
        assert(flags.take(self.files@.len() as int) =~= flags);
        if self.files.len() > 0 {
            Some(&self.files[0])
        } else {
            None
        }
    }

    pub fn compat(&self, ctx: &CompatCtx) -> (r: Compat)
        ensures
            r == compat_spec(sviews(self.game_versions@), ctx.mc_version@, ctx.mode),
    {
        let ghost gv = sviews(self.game_versions@);
        if self.game_versions.len() == 0 {
            return Compat::Unknown;
        }
        let mc = ctx.mc_version.to_string();
        let mut i: usize = 0;
        while i < self.game_versions.len()
            invariant
                i <= self.game_versions@.len(),
                gv == sviews(self.game_versions@),
                mc@ == display_spec(ctx.mc_version@),
                forall|j: int| 0 <= j < i ==> gv[j] != mc@,
            decreases self.game_versions@.len() - i,
        {
            if str_eq_string(&self.game_versions[i], &mc) {
                assert(gv[i as int] == mc@);
                return Compat::Exact;
            }
            i = i + 1;
        }
        assert(!gv.contains(display_spec(ctx.mc_version@)));
        if let CompatMode::Any = ctx.mode {
            return Compat::Lenient;
        }
        let same = any_on_line(&self.game_versions, &ctx.mc_version);
        if same {
            match ctx.mode {
                CompatMode::Lenient | CompatMode::Inherit => Compat::Lenient,
                _ => Compat::SameLineOnly,
            }
        } else {
            Compat::Incompatible
        }
    }
}

impl CompatCtx {
    pub fn copy(&self) -> (r: CompatCtx)
        ensures
            r.mode == self.mode,
            r.mc_version@ == self.mc_version@,
            sviews(r.loaders@) == sviews(self.loaders@),
            r.hangar_platform == self.hangar_platform,
    {
        CompatCtx {
            mc_version: self.mc_version.copy(),
            loaders: clone_strings(&self.loaders),
            hangar_platform: self.hangar_platform.clone(),
            mode: self.mode,
        }
    }

    /// The context with the plugin's mode resolved against the server default.
    pub fn with_mode(&self, plugin_mode: CompatMode, server_default: CompatMode) -> (r: CompatCtx)
        ensures
            r.mode == effective_mode(plugin_mode, server_default),
            r.mc_version@ == self.mc_version@,
            sviews(r.loaders@) == sviews(self.loaders@),
            r.hangar_platform == self.hangar_platform,
    {
        let mode = match plugin_mode {
            CompatMode::Inherit => match server_default {
                CompatMode::Inherit => CompatMode::Strict,
                m => m,
            },
            m => m,
        };
        CompatCtx {
            mc_version: self.mc_version.copy(),
            loaders: clone_strings(&self.loaders),
            hangar_platform: self.hangar_platform.clone(),
            mode,
        }
    }
}

impl Compat {
    pub fn acceptable(self) -> (r: bool)
        ensures
            r == compat_acceptable(self),
    {
        match self {
            Compat::Exact | Compat::Lenient => true,
            _ => false,
        }
    }
}

/// `primary_index` over file views.
pub open spec fn primary_index_v(files: Seq<VersionFileV>) -> Option<int> {
    primary_pos(files.map_values(|f: VersionFileV| f.primary))
}

pub proof fn lemma_primary_index_v(files: Seq<VersionFile>)
    ensures
        primary_index_v(file_views(files)) == primary_index(files),
{
    assert(file_views(files).map_values(|f: VersionFileV| f.primary) =~= files.map_values(|f: VersionFile| f.primary));
}


/// The sort key that puts later publication times first.
pub open spec fn newest_key(published: i64) -> Seq<u64> {
    seq![(i64::MAX - published) as u64]
}

pub open spec fn keyed_versions(ks: Seq<(Vec<u64>, ResolvedVersion)>, vs: Seq<ResolvedVersionV>) -> bool {
    &&& ks.len() == vs.len()
    &&& forall|i: int| 0 <= i < ks.len() ==> (#[trigger] ks[i]).1@ == vs[i] && ks[i].0@ == newest_key(vs[i].published)
}

/// `r` is `vs` stably sorted newest first.
pub open spec fn newest_first(r: Seq<ResolvedVersionV>, vs: Seq<ResolvedVersionV>) -> bool {
    exists|ks: Seq<(Vec<u64>, ResolvedVersion)>| #[trigger] keyed_versions(ks, vs)
        && r == crate::util::sort::isort(ks).map_values(|p: (Vec<u64>, ResolvedVersion)| p.1@)
}

/// Sorts versions newest first; versions published at the same time keep their order.
pub fn sort_newest_first(vs: Vec<ResolvedVersion>) -> (r: Vec<ResolvedVersion>)
    ensures
        newest_first(crate::sources::resolve::rv_views(r@), crate::sources::resolve::rv_views(vs@)),
{
    let ghost s = vs@;
    let ghost sv = crate::sources::resolve::rv_views(vs@);
    let n = vs.len();
    let mut keyed: Vec<(Vec<u64>, ResolvedVersion)> = Vec::new();
    let mut rest = vs;
    let mut i: usize = 0;
    while rest.len() > 0
        invariant
            i + rest@.len() == n,
            n == s.len(),
            rest@ == s.skip(i as int),
            sv == crate::sources::resolve::rv_views(s),
            keyed_versions(keyed@, sv.take(i as int)),
        decreases rest@.len(),
    {
        let v = rest.remove(0);
        assert(s.skip(i as int)[0] == v);
        let key: u64 = (i64::MAX as i128 - v.published as i128) as u64;
        let mut k: Vec<u64> = Vec::new();
        k.push(key);
        assert(k@ =~= newest_key(v.published));
        keyed.push((k, v));
        assert(s.skip(i as int).drop_first() =~= s.skip(i + 1));
        i = i + 1;
        assert(keyed_versions(keyed@, sv.take(i as int)));
    }
    assert(sv.take(n as int) =~= sv);
    let ghost ks = keyed@;
    let sorted = crate::util::sort::sort_by_key(keyed);
    proof {
        crate::util::sort::lemma_isort(ks);
    }
    let ghost ss = sorted@;
    let mut out: Vec<ResolvedVersion> = Vec::new();
    let mut rest2 = sorted;
    let mut j: usize = 0;
    while rest2.len() > 0
        invariant
            j + rest2@.len() == ss.len(),
            ss.len() == n,
            rest2@ == ss.skip(j as int),
            crate::sources::resolve::rv_views(out@) == ss.take(j as int).map_values(|p: (Vec<u64>, ResolvedVersion)| p.1@),
        decreases rest2@.len(),
    {
        let p = rest2.remove(0);
        assert(ss.skip(j as int)[0] == p);
        let ghost before = crate::sources::resolve::rv_views(out@);
        out.push(p.1);
        assert(crate::sources::resolve::rv_views(out@) =~= before.push(ss[j as int].1@));
        assert(ss.skip(j as int).drop_first() =~= ss.skip(j + 1));
        j = j + 1;
        assert(crate::sources::resolve::rv_views(out@) =~= ss.take(j as int).map_values(|p: (Vec<u64>, ResolvedVersion)| p.1@));
    }
    assert(ss.take(n as int) =~= ss);
    assert(keyed_versions(ks, sv));
    out
}

/// How a search hit's confidence follows from its name (or slug) and the query, both
/// compared lower-cased: equal is an exact name, containing it a name match.
pub open spec fn name_confidence(names: Seq<Seq<char>>, title: Seq<char>, q: Seq<char>) -> Confidence {
    if exists|i: int| 0 <= i < names.len() && lower(#[trigger] names[i]) == lower(q) {
        Confidence::ExactName
    } else if crate::text::has_sub(lower(title), lower(q)) {
        Confidence::NameMatch
    } else {
        Confidence::Weak
    }
}

pub fn confidence_for(names: &Vec<String>, title: &str, query: &str) -> (r: Confidence)
    ensures
        r == name_confidence(crate::text::sviews(names@), title@, query@),
{
    let q = crate::text::lower_chars(to_chars(query).as_slice());
    let mut i: usize = 0;
    while i < names.len()
        invariant
            i <= names@.len(),
            q@ == lower(query@),
            forall|j: int| 0 <= j < i ==> lower(#[trigger] crate::text::sviews(names@)[j]) != lower(query@),
        decreases names@.len() - i,
    {
        let n = crate::text::lower_chars(to_chars(names[i].as_str()).as_slice());
        if crate::text::eq_chars(n.as_slice(), q.as_slice()) {
            assert(crate::text::sviews(names@)[i as int] == names@[i as int]@);
            return Confidence::ExactName;
        }
        i = i + 1;
    }
    let t = crate::text::lower_chars(to_chars(title).as_slice());
    if crate::text::contains(t.as_slice(), q.as_slice()) {
        Confidence::NameMatch
    } else {
        Confidence::Weak
    }
}

} // verus!
