//! Hangar (PaperMC's plugin repository): what its API's projects and versions become.

use vstd::prelude::*;
use crate::lockfile::Channel;
use crate::sources::model::{dep_views, newest_first, sort_newest_first, Dependency, DependencyKind, DependencyV, ProjectRef, ProjectRefV, ResolvedVersion, ResolvedVersionV, SourceKind, VersionFile, VersionFileV};
use crate::sources::resolve::rv_views;
use crate::text::{clone_opt_string, clone_string, clone_strings, concat2, concat3, contains, has_sub, lower, lower_chars, lowercase, opt_view, sviews, to_chars};

verus! {

#[derive(Debug, Clone)]
pub struct HgProject {
    pub name: String,
    pub owner: String,
    pub slug: String,
    pub description: Option<String>,
    pub downloads: Option<u64>,
    pub avatar_url: Option<String>,
    /// The platforms the project lists, when it lists any.
    pub supported_platforms: Option<Vec<String>>,
}

#[derive(Debug, Clone)]
pub struct HgFileInfo {
    pub name: String,
    pub size_bytes: Option<u64>,
    pub sha256_hash: Option<String>,
}

#[derive(Debug, Clone)]
pub struct HgDownload {
    pub download_url: Option<String>,
    pub external_url: Option<String>,
    pub file_info: Option<HgFileInfo>,
}

#[derive(Debug, Clone)]
pub struct HgDep {
    pub name: String,
    pub required: bool,
    /// The slug of the dependency's Hangar project, when it is on Hangar.
    pub namespace_slug: Option<String>,
}

#[derive(Debug, Clone)]
pub struct HgVersion {
    pub name: String,
    /// Unix time (seconds, UTC).
    pub created_at: i64,
    pub channel: String,
    pub description: Option<String>,
    /// Per platform (`PAPER`, …).
    pub downloads: Vec<(String, HgDownload)>,
    pub platform_dependencies: Vec<(String, Vec<String>)>,
    pub plugin_dependencies: Vec<(String, Vec<HgDep>)>,
}

/// A release channel from the name Hangar gives it: `…release…` or `stable` is a
/// release, `…beta…`, `…snapshot…` or `…dev…` a beta, anything else an alpha.
pub open spec fn channel_of(name: Seq<char>) -> Channel {
    let n = lower(name);
    if has_sub(n, "release"@) || n == "stable"@ {
        Channel::Release
    } else if has_sub(n, "beta"@) || has_sub(n, "snapshot"@) || has_sub(n, "dev"@) {
        Channel::Beta
    } else {
        Channel::Alpha
    }
}

pub fn channel_from_name(name: &str) -> (r: Channel)
    ensures
        r == channel_of(name@),
{
    let n = lower_chars(to_chars(name).as_slice());
    proof {
        reveal_strlit("release");
        reveal_strlit("stable");
        reveal_strlit("beta");
        reveal_strlit("snapshot");
        reveal_strlit("dev");
    }
    if contains(n.as_slice(), to_chars("release").as_slice()) || crate::text::eq_chars(n.as_slice(), to_chars("stable").as_slice()) {
        Channel::Release
    } else if contains(n.as_slice(), to_chars("beta").as_slice()) || contains(n.as_slice(), to_chars("snapshot").as_slice())
        || contains(n.as_slice(), to_chars("dev").as_slice()) {
        Channel::Beta
    } else {
        Channel::Alpha
    }
}

/// A Hangar project as a project reference.
pub fn project_ref(p: HgProject) -> (r: ProjectRef)
    ensures
        r@ == (ProjectRefV {
            source: SourceKind::Hangar,
            id: p.slug@,
            slug: p.slug@,
            name: p.name@,
            author: Some(p.owner@),
            page_url: "https://hangar.papermc.io/"@ + p.owner@ + "/"@ + p.slug@,
            description: match p.description { Some(d) => d@, None => Seq::empty() },
            downloads: p.downloads,
            icon_url: opt_view(p.avatar_url),
        }),
{
    proof {
        reveal_strlit("https://hangar.papermc.io/");
        reveal_strlit("/");
    }
    let head = concat3("https://hangar.papermc.io/", p.owner.as_str(), "/");
    let page_url = concat2(head.as_str(), p.slug.as_str());
    let r = ProjectRef {
        source: SourceKind::Hangar,
        id: clone_string(&p.slug),
        slug: p.slug,
        name: p.name,
        author: Some(p.owner),
        page_url,
        description: match p.description { Some(d) => d, None => String::new() },
        downloads: p.downloads,
        icon_url: p.avatar_url,
    };
    assert(r@ =~= (ProjectRefV {
        source: SourceKind::Hangar,
        id: p.slug@,
        slug: p.slug@,
        name: p.name@,
        author: Some(p.owner@),
        page_url: "https://hangar.papermc.io/"@ + p.owner@ + "/"@ + p.slug@,
        description: match p.description { Some(d) => d@, None => Seq::empty() },
        downloads: p.downloads,
        icon_url: opt_view(p.avatar_url),
    }));
    r
}

/// Search keeps projects that list the server's platform, or list none.
pub fn supports(p: &HgProject, platform: &str) -> (r: bool)
    ensures
        r == match p.supported_platforms {
            Some(ps) => sviews(ps@).contains(platform@),
            None => true,
        },
{
    match &p.supported_platforms {
        Some(ps) => crate::text::strings_contain(ps, platform),
        None => true,
    }
}

/// The first entry under a key.
pub open spec fn key_index<T>(s: Seq<(String, T)>, k: Seq<char>) -> Option<int>
    decreases s.len(),
{
    if s.len() == 0 {
        None
    } else {
        match key_index(s.drop_last(), k) {
            Some(i) => Some(i),
            None => if s.last().0@ == k { Some(s.len() - 1) } else { None },
        }
    }
}

pub fn key_index_exec<T>(v: &Vec<(String, T)>, k: &str) -> (r: Option<usize>)
    ensures
        match r {
            Some(i) => key_index(v@, k@) == Some(i as int) && i < v@.len(),
            None => key_index(v@, k@) is None,
        },
{
    let mut i: usize = 0;
    assert(v@.take(0) =~= Seq::<(String, T)>::empty());
    while i < v.len()
        invariant
            i <= v@.len(),
            key_index(v@.take(i as int), k@) is None,
        decreases v@.len() - i,
    {
        assert(v@.take(i + 1).drop_last() =~= v@.take(i as int));
        if crate::lockfile::str_eq(v[i].0.as_str(), k) {
            assert(key_index(v@.take(i + 1), k@) == Some(i as int));
            proof {
                lemma_key_index_prefix(v@, k@, i + 1, i as int);
            }
            return Some(i);
        }
        i = i + 1;
        assert(key_index(v@.take(i as int), k@) is None);
    }
    assert(v@.take(v@.len() as int) =~= v@);
    None
}

proof fn lemma_key_index_prefix<T>(s: Seq<(String, T)>, k: Seq<char>, n: int, i: int)
    requires
        0 <= n <= s.len(),
        key_index(s.take(n), k) == Some(i),
    ensures
        key_index(s, k) == Some(i),
        0 <= i < n,
    decreases s.len() - n,
{
    lemma_key_index_bound(s.take(n), k);
    if n < s.len() {
        assert(s.take(n + 1).drop_last() =~= s.take(n));
        assert(key_index(s.take(n + 1), k) == Some(i));
        lemma_key_index_prefix(s, k, n + 1, i);
    } else {
        assert(s.take(n) =~= s);
    }
}

proof fn lemma_key_index_bound<T>(s: Seq<(String, T)>, k: Seq<char>)
    ensures
        key_index(s, k) matches Some(i) ==> 0 <= i < s.len(),
    decreases s.len(),
{
    if s.len() > 0 {
        lemma_key_index_bound(s.drop_last(), k);
    }
}

pub open spec fn hg_dep(d: HgDep) -> DependencyV {
    DependencyV {
        project_id: opt_view(d.namespace_slug),
        version_id: None,
        name: Some(d.name@),
        kind: if d.required { DependencyKind::Required } else { DependencyKind::Optional },
    }
}

/// A version for the platform, when it has a download there (a file on Hangar or an
/// external link): its name as id and number, its channel, the game versions and
/// dependencies listed for the platform, the platform (lower-cased) as loader, one primary
/// file with Hangar's sha256 (named `<project>.jar` when Hangar gives no file name).
pub open spec fn version_spec(project_id: Seq<char>, platform: Seq<char>, v: HgVersion) -> Option<ResolvedVersionV> {
    match key_index(v.downloads@, platform) {
        None => None,
        Some(di) => {
            let dl = v.downloads@[di].1;
            let url = match dl.download_url {
                Some(u) => Some(u@),
                None => opt_view(dl.external_url),
            };
            match url {
                None => None,
                Some(u) => Some(ResolvedVersionV {
                    source: SourceKind::Hangar,
                    project_id,
                    version_id: v.name@,
                    version_number: v.name@,
                    channel: channel_of(v.channel@),
                    game_versions: match key_index(v.platform_dependencies@, platform) {
                        Some(i) => sviews(v.platform_dependencies@[i].1@),
                        None => Seq::empty(),
                    },
                    loaders: seq![lower(platform)],
                    published: v.created_at,
                    files: seq![VersionFileV {
                        name: match dl.file_info { Some(f) => f.name@, None => project_id + ".jar"@ },
                        url: u,
                        size: match dl.file_info { Some(f) => f.size_bytes, None => None },
                        sha512: None,
                        sha256: match dl.file_info { Some(f) => opt_view(f.sha256_hash), None => None },
                        sha1: None,
                        primary: true,
                    }],
                    dependencies: match key_index(v.plugin_dependencies@, platform) {
                        Some(i) => v.plugin_dependencies@[i].1@.map_values(|d: HgDep| hg_dep(d)),
                        None => Seq::empty(),
                    },
                    changelog: opt_view(v.description),
                }),
            }
        },
    }
}

fn deps_exec(ds: &Vec<HgDep>) -> (r: Vec<Dependency>)
    ensures
        dep_views(r@) == ds@.map_values(|d: HgDep| hg_dep(d)),
{
    let mut out: Vec<Dependency> = Vec::new();
    let mut i: usize = 0;
    while i < ds.len()
        invariant
            i <= ds@.len(),
            dep_views(out@) == ds@.take(i as int).map_values(|d: HgDep| hg_dep(d)),
        decreases ds@.len() - i,
    {
        let d = &ds[i];
        let x = Dependency {
            project_id: clone_opt_string(&d.namespace_slug),
            version_id: None,
            name: Some(clone_string(&d.name)),
            kind: if d.required { DependencyKind::Required } else { DependencyKind::Optional },
        };
        let ghost before = dep_views(out@);
        assert(x@ == hg_dep(*d));
        out.push(x);
        assert(dep_views(out@) =~= before.push(hg_dep(ds@[i as int])));
        i = i + 1;
        assert(dep_views(out@) =~= ds@.take(i as int).map_values(|d: HgDep| hg_dep(d)));
    }
    assert(ds@.take(ds@.len() as int) =~= ds@);
    out
}

pub fn to_version(project_id: &str, platform: &str, v: &HgVersion) -> (r: Option<ResolvedVersion>)
    ensures
        match version_spec(project_id@, platform@, *v) {
            Some(x) => r matches Some(y) && y@ == x,
            None => r is None,
        },
{
    proof {
        reveal_strlit(".jar");
    }
    let di = match key_index_exec(&v.downloads, platform) {
        Some(i) => i,
        None => return None,
    };
    let dl = &v.downloads[di].1;
    let url = match &dl.download_url {
        Some(u) => clone_string(u),
        None => match &dl.external_url {
            Some(u) => clone_string(u),
            None => return None,
        },
    };
    let game_versions = match key_index_exec(&v.platform_dependencies, platform) {
        Some(i) => clone_strings(&v.platform_dependencies[i].1),
        None => Vec::new(),
    };
    let dependencies = match key_index_exec(&v.plugin_dependencies, platform) {
        Some(i) => deps_exec(&v.plugin_dependencies[i].1),
        None => Vec::new(),
    };
    let file = VersionFile {
        name: match &dl.file_info { Some(f) => clone_string(&f.name), None => concat2(project_id, ".jar") },
        url,
        size: match &dl.file_info { Some(f) => f.size_bytes, None => None },
        sha512: None,
        sha256: match &dl.file_info { Some(f) => clone_opt_string(&f.sha256_hash), None => None },
        sha1: None,
        primary: true,
    };
    let mut files: Vec<VersionFile> = Vec::new();
    files.push(file);
    let mut loaders: Vec<String> = Vec::new();
    loaders.push(lowercase(platform));
    let r = ResolvedVersion {
        source: SourceKind::Hangar,
        project_id: String::from_str(project_id),
        version_id: clone_string(&v.name),
        version_number: clone_string(&v.name),
        channel: channel_from_name(v.channel.as_str()),
        game_versions,
        loaders,
        published: v.created_at,
        files,
        dependencies,
        changelog: clone_opt_string(&v.description),
    };
    let ghost x = version_spec(project_id@, platform@, *v)->0;
    assert(r@.game_versions =~= x.game_versions);
    assert(r@.loaders =~= x.loaders);
    assert(r@.files =~~= x.files);
    assert(r@.dependencies =~~= x.dependencies);
    assert(r@ =~~= x);
    Some(r)
}

/// The versions offered for a platform, in order.
pub open spec fn versions_spec(project_id: Seq<char>, platform: Seq<char>, vs: Seq<HgVersion>) -> Seq<ResolvedVersionV>
    decreases vs.len(),
{
    if vs.len() == 0 {
        Seq::empty()
    } else {
        let r = versions_spec(project_id, platform, vs.drop_last());
        match version_spec(project_id, platform, vs.last()) {
            Some(v) => r.push(v),
            None => r,
        }
    }
}

/// A project's versions for the server's platform (`PAPER` when it has none), newest
/// first.
pub fn versions(project_id: &str, platform: &str, raw: &Vec<HgVersion>) -> (r: Vec<ResolvedVersion>)
    ensures
        newest_first(rv_views(r@), versions_spec(project_id@, platform@, raw@)),
{
    let mut out: Vec<ResolvedVersion> = Vec::new();
    let mut i: usize = 0;
    assert(raw@.take(0) =~= Seq::<HgVersion>::empty());
    while i < raw.len()
        invariant
            i <= raw@.len(),
            rv_views(out@) == versions_spec(project_id@, platform@, raw@.take(i as int)),
        decreases raw@.len() - i,
    {
        assert(raw@.take(i + 1).drop_last() =~= raw@.take(i as int));
        assert(raw@.take(i + 1).last() == raw@[i as int]);
        let ghost before = rv_views(out@);
        match to_version(project_id, platform, &raw[i]) {
            Some(v) => {
                let ghost vv = v@;
                out.push(v);
                assert(rv_views(out@) =~= before.push(vv));
            },
            None => {},
        }
        i = i + 1;
    }
    assert(raw@.take(raw@.len() as int) =~= raw@);
    sort_newest_first(out)
}

} // verus!
