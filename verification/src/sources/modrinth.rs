//! Modrinth: what its API's projects, versions and collections become.

use vstd::prelude::*;
use crate::lockfile::Channel;
use crate::sources::hangar::{key_index, key_index_exec};
use crate::sources::model::{
    dep_views, file_views, name_confidence, newest_first, sort_newest_first, Confidence, Dependency, DependencyKind, DependencyV,
    ProjectRef, ProjectRefV, ResolvedVersion, ResolvedVersionV, SourceKind, VersionFile, VersionFileV,
};
use crate::sources::resolve::rv_views;
use crate::text::{clone_opt_string, clone_string, clone_strings, concat2, join_with, opt_view, push_str, string_from_chars, sviews, to_chars, views};

verus! {

/// A Modrinth collection: a named list of projects.
#[derive(Debug, Clone)]
pub struct Collection {
    pub id: String,
    pub name: String,
    pub description: Option<String>,
    pub project_ids: Vec<String>,
}

/// A search hit or a project, as the API gives them.
#[derive(Debug, Clone)]
pub struct MrProject {
    pub id: String,
    pub slug: String,
    pub title: String,
    pub description: String,
    pub author: Option<String>,
    pub downloads: Option<u64>,
    pub icon_url: Option<String>,
}

#[derive(Debug, Clone)]
pub struct MrFile {
    pub filename: String,
    pub url: String,
    pub size: Option<u64>,
    /// Algorithm name to hex digest.
    pub hashes: Vec<(String, String)>,
    pub primary: bool,
}

#[derive(Debug, Clone)]
pub struct MrDependency {
    pub project_id: Option<String>,
    pub version_id: Option<String>,
    pub dependency_type: String,
}

#[derive(Debug, Clone)]
pub struct MrVersion {
    pub id: String,
    pub project_id: String,
    pub version_number: String,
    pub version_type: String,
    pub game_versions: Vec<String>,
    pub loaders: Vec<String>,
    /// Unix time (seconds, UTC).
    pub date_published: i64,
    pub files: Vec<MrFile>,
    pub dependencies: Vec<MrDependency>,
    pub changelog: Option<String>,
}

/// A project as a project reference; its page is `modrinth.com/plugin/<slug>`.
pub fn project_ref(p: MrProject) -> (r: ProjectRef)
    ensures
        r@ == (ProjectRefV {
            source: SourceKind::Modrinth,
            id: p.id@,
            slug: p.slug@,
            name: p.title@,
            author: opt_view(p.author),
            page_url: "https://modrinth.com/plugin/"@ + p.slug@,
            description: p.description@,
            downloads: p.downloads,
            icon_url: opt_view(p.icon_url),
        }),
{
    proof {
        reveal_strlit("https://modrinth.com/plugin/");
    }
    let page_url = concat2("https://modrinth.com/plugin/", p.slug.as_str());
    ProjectRef {
        source: SourceKind::Modrinth,
        id: p.id,
        slug: p.slug,
        name: p.title,
        author: p.author,
        page_url,
        description: p.description,
        downloads: p.downloads,
        icon_url: p.icon_url,
    }
}

/// A search hit's confidence: its title or slug equal to the query (ignoring ASCII case)
/// is an exact name, a title containing it a name match.
pub fn hit_confidence(p: &MrProject, query: &str) -> (r: Confidence)
    ensures
        r == name_confidence(seq![p.title@, p.slug@], p.title@, query@),
{
    let mut names: Vec<String> = Vec::new();
    names.push(clone_string(&p.title));
    names.push(clone_string(&p.slug));
    assert(sviews(names@) =~= seq![p.title@, p.slug@]);
    crate::sources::model::confidence_for(&names, p.title.as_str(), query)
}

pub open spec fn channel_of_type(t: Seq<char>) -> Channel {
    if t == "release"@ {
        Channel::Release
    } else if t == "beta"@ {
        Channel::Beta
    } else {
        Channel::Alpha
    }
}

pub open spec fn dep_kind_of(t: Seq<char>) -> DependencyKind {
    if t == "required"@ {
        DependencyKind::Required
    } else if t == "optional"@ {
        DependencyKind::Optional
    } else if t == "incompatible"@ {
        DependencyKind::Incompatible
    } else {
        DependencyKind::Embedded
    }
}

pub open spec fn hash_of(f: MrFile, alg: Seq<char>) -> Option<Seq<char>> {
    match key_index(f.hashes@, alg) {
        Some(i) => Some(f.hashes@[i].1@),
        None => None,
    }
}

pub open spec fn mr_file(f: MrFile) -> VersionFileV {
    VersionFileV { name: f.filename@, url: f.url@, size: f.size, sha512: hash_of(f, "sha512"@), sha256: None, sha1: hash_of(f, "sha1"@), primary: f.primary }
}

pub open spec fn mr_dep(d: MrDependency) -> DependencyV {
    DependencyV { project_id: opt_view(d.project_id), version_id: opt_view(d.version_id), name: None, kind: dep_kind_of(d.dependency_type@) }
}

pub open spec fn version_spec(v: MrVersion) -> ResolvedVersionV {
    ResolvedVersionV {
        source: SourceKind::Modrinth,
        project_id: v.project_id@,
        version_id: v.id@,
        version_number: v.version_number@,
        channel: channel_of_type(v.version_type@),
        game_versions: sviews(v.game_versions@),
        loaders: sviews(v.loaders@),
        published: v.date_published,
        files: v.files@.map_values(|f: MrFile| mr_file(f)),
        dependencies: v.dependencies@.map_values(|d: MrDependency| mr_dep(d)),
        changelog: opt_view(v.changelog),
    }
}

fn hash_exec(f: &MrFile, alg: &str) -> (r: Option<String>)
    ensures
        opt_view(r) == hash_of(*f, alg@),
{
    match key_index_exec(&f.hashes, alg) {
        Some(i) => Some(clone_string(&f.hashes[i].1)),
        None => None,
    }
}

/// A version as the library's version.
pub fn to_version(v: &MrVersion) -> (r: ResolvedVersion)
    ensures
        r@ == version_spec(*v),
{
    proof {
        reveal_strlit("release");
        reveal_strlit("beta");
        reveal_strlit("required");
        reveal_strlit("optional");
        reveal_strlit("incompatible");
        reveal_strlit("sha512");
        reveal_strlit("sha1");
    }
    let mut files: Vec<VersionFile> = Vec::new();
    let mut i: usize = 0;
    while i < v.files.len()
        invariant
            i <= v.files@.len(),
            file_views(files@) == v.files@.take(i as int).map_values(|f: MrFile| mr_file(f)),
        decreases v.files@.len() - i,
    {
        let f = &v.files[i];
        let x = VersionFile {
            name: clone_string(&f.filename),
            url: clone_string(&f.url),
            size: f.size,
            sha512: hash_exec(f, "sha512"),
            sha256: None,
            sha1: hash_exec(f, "sha1"),
            primary: f.primary,
        };
        let ghost before = file_views(files@);
        assert(x@ == mr_file(*f));
        files.push(x);
        assert(file_views(files@) =~= before.push(mr_file(v.files@[i as int])));
        i = i + 1;
        assert(file_views(files@) =~= v.files@.take(i as int).map_values(|f: MrFile| mr_file(f)));
    }
    assert(v.files@.take(v.files@.len() as int) =~= v.files@);
    let mut deps: Vec<Dependency> = Vec::new();
    let mut k: usize = 0;
    while k < v.dependencies.len()
        invariant
            k <= v.dependencies@.len(),
            dep_views(deps@) == v.dependencies@.take(k as int).map_values(|d: MrDependency| mr_dep(d)),
        decreases v.dependencies@.len() - k,
    {
        let d = &v.dependencies[k];
        let t = d.dependency_type.as_str();
        let kind = if crate::lockfile::str_eq(t, "required") {
            DependencyKind::Required
        } else if crate::lockfile::str_eq(t, "optional") {
            DependencyKind::Optional
        } else if crate::lockfile::str_eq(t, "incompatible") {
            DependencyKind::Incompatible
        } else {
            DependencyKind::Embedded
        };
        let x = Dependency { project_id: clone_opt_string(&d.project_id), version_id: clone_opt_string(&d.version_id), name: None, kind };
        let ghost before = dep_views(deps@);
        assert(x@ == mr_dep(*d));
        deps.push(x);
        assert(dep_views(deps@) =~= before.push(mr_dep(v.dependencies@[k as int])));
        k = k + 1;
        assert(dep_views(deps@) =~= v.dependencies@.take(k as int).map_values(|d: MrDependency| mr_dep(d)));
    }
    assert(v.dependencies@.take(v.dependencies@.len() as int) =~= v.dependencies@);
    let t = v.version_type.as_str();
    let channel = if crate::lockfile::str_eq(t, "release") {
        Channel::Release
    } else if crate::lockfile::str_eq(t, "beta") {
        Channel::Beta
    } else {
        Channel::Alpha
    };
    let r = ResolvedVersion {
        source: SourceKind::Modrinth,
        project_id: clone_string(&v.project_id),
        version_id: clone_string(&v.id),
        version_number: clone_string(&v.version_number),
        channel,
        game_versions: clone_strings(&v.game_versions),
        loaders: clone_strings(&v.loaders),
        published: v.date_published,
        files,
        dependencies: deps,
        changelog: clone_opt_string(&v.changelog),
    };
    assert(r@ =~~= version_spec(*v));
    r
}

/// A project's versions, newest first.
pub fn versions(raw: &Vec<MrVersion>) -> (r: Vec<ResolvedVersion>)
    ensures
        newest_first(rv_views(r@), raw@.map_values(|v: MrVersion| version_spec(v))),
{
    let mut out: Vec<ResolvedVersion> = Vec::new();
    let mut i: usize = 0;
    while i < raw.len()
        invariant
            i <= raw@.len(),
            rv_views(out@) == raw@.take(i as int).map_values(|v: MrVersion| version_spec(v)),
        decreases raw@.len() - i,
    {
        let v = to_version(&raw[i]);
        let ghost before = rv_views(out@);
        let ghost vv = v@;
        out.push(v);
        assert(rv_views(out@) =~= before.push(vv));
        i = i + 1;
        assert(rv_views(out@) =~= raw@.take(i as int).map_values(|v: MrVersion| version_spec(v)));
    }
    assert(raw@.take(raw@.len() as int) =~= raw@);
    sort_newest_first(out)
}

/// The search facets for the server's loaders: `[["categories:<l>",…],["project_type:plugin"]]`.
pub open spec fn loaders_facet_spec(loaders: Seq<Seq<char>>) -> Seq<char> {
    "[["@ + join_with(loaders.map_values(|l: Seq<char>| "\"categories:"@ + l + "\""@), ","@) + "],[\"project_type:plugin\"]]"@
}

pub fn loaders_facet(loaders: &Vec<String>) -> (r: String)
    ensures
        r@ == loaders_facet_spec(sviews(loaders@)),
{
    proof {
        reveal_strlit("[[");
        reveal_strlit("\"categories:");
        reveal_strlit("\"");
        reveal_strlit(",");
        reveal_strlit("],[\"project_type:plugin\"]]");
    }
    let ghost lv = sviews(loaders@);
    let mut parts: Vec<Vec<char>> = Vec::new();
    let mut i: usize = 0;
    while i < loaders.len()
        invariant
            i <= loaders@.len(),
            lv == sviews(loaders@),
            views(parts@) == lv.take(i as int).map_values(|l: Seq<char>| "\"categories:"@ + l + "\""@),
        decreases loaders@.len() - i,
    {
        let mut p: Vec<char> = Vec::new();
        push_str(&mut p, "\"categories:");
        push_str(&mut p, loaders[i].as_str());
        push_str(&mut p, "\"");
        let ghost before = views(parts@);
        assert(p@ == "\"categories:"@ + lv[i as int] + "\""@);
        parts.push(p);
        assert(views(parts@) =~= before.push("\"categories:"@ + lv[i as int] + "\""@));
        i = i + 1;
        assert(views(parts@) =~= lv.take(i as int).map_values(|l: Seq<char>| "\"categories:"@ + l + "\""@));
    }
    assert(lv.take(lv.len() as int) =~= lv);
    let sep = to_chars(",");
    let inner = crate::text::join_chars(&parts, sep.as_slice());
    let mut out: Vec<char> = Vec::new();
    push_str(&mut out, "[[");
    crate::text::push_all(&mut out, inner.as_slice());
    push_str(&mut out, "],[\"project_type:plugin\"]]");
    string_from_chars(out.as_slice())
}

} // verus!
