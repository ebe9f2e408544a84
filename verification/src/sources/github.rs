//! GitHub releases: versions are tags, files are release assets, filtered by a glob.

use vstd::prelude::*;
use crate::sources::model::{file_views, newest_first, sort_newest_first, ProjectRef, ProjectRefV, ResolvedVersion, ResolvedVersionV, SourceKind, VersionFile, VersionFileV};
use crate::lockfile::Channel;
use crate::sources::resolve::rv_views;
use crate::text::opt_view;
use crate::text::{ends_with, is_suffix, to_chars};

verus! {

/// Whether `path` matches the glob pattern `glob`, as `glob_match` decides it.
pub uninterp spec fn glob_matches(glob: Seq<char>, path: Seq<char>) -> bool;

/// `glob_match::glob_match`.
#[verifier::external_body]
fn glob_match(glob: &str, path: &str) -> (r: bool)
    ensures
        r == glob_matches(glob@, path@),
{
    glob_match::glob_match(glob, path)
}

/// A jar asset the glob selects.
pub open spec fn jar_asset(f: VersionFileV, glob: Seq<char>) -> bool {
    is_suffix(".jar"@, f.name) && glob_matches(glob, f.name)
}

/// The files that are jar assets selected by the glob, in order.
pub open spec fn keep_assets(fs: Seq<VersionFileV>, glob: Seq<char>) -> Seq<VersionFileV>
    decreases fs.len(),
{
    if fs.len() == 0 {
        Seq::empty()
    } else {
        let r = keep_assets(fs.drop_last(), glob);
        if jar_asset(fs.last(), glob) { r.push(fs.last()) } else { r }
    }
}

/// The selected assets, the first of them marked primary.
pub open spec fn filtered_files(fs: Seq<VersionFileV>, glob: Seq<char>) -> Seq<VersionFileV> {
    let k = keep_assets(fs, glob);
    if k.len() > 0 { k.update(0, VersionFileV { primary: true, ..k[0] }) } else { k }
}

pub open spec fn has_jar_asset(fs: Seq<VersionFileV>, glob: Seq<char>) -> bool {
    exists|i: int| 0 <= i < fs.len() && #[trigger] jar_asset(fs[i], glob)
}

pub fn is_jar_asset(f: &VersionFile, glob: &str) -> (r: bool)
    ensures
        r == jar_asset(f@, glob@),
{
    let n = to_chars(f.name.as_str());
    let suffix = to_chars(".jar");
    ends_with(n.as_slice(), suffix.as_slice()) && glob_match(glob, f.name.as_str())
}

pub fn any_jar_asset(fs: &Vec<VersionFile>, glob: &str) -> (r: bool)
    ensures
        r == has_jar_asset(file_views(fs@), glob@),
{
    let ghost fv = file_views(fs@);
    let mut i: usize = 0;
    while i < fs.len()
        invariant
            i <= fs@.len(),
            fv == file_views(fs@),
            forall|j: int| 0 <= j < i ==> !#[trigger] jar_asset(fv[j], glob@),
        decreases fs@.len() - i,
    {
        if is_jar_asset(&fs[i], glob) {
            assert(jar_asset(fv[i as int], glob@));
            return true;
        }
        i = i + 1;
    }
    false
}

/// Only jar assets matching `glob` (default `*.jar`) are offered as files; the first
/// one becomes the primary file.
pub fn filter_assets(v: &mut ResolvedVersion, glob: &str)
    ensures
        final(v)@ == (ResolvedVersionV { files: filtered_files(old(v)@.files, glob@), ..old(v)@ }),
{
    let ghost fv = old(v)@.files;
    let mut kept: Vec<VersionFile> = Vec::new();
    let mut old_files: Vec<VersionFile> = Vec::new();
    std::mem::swap(&mut old_files, &mut v.files);
    assert(file_views(old_files@) == fv);
    let mut i: usize = 0;
    assert(fv.take(0) =~= Seq::<VersionFileV>::empty());
    while i < old_files.len()
        invariant
            i <= old_files@.len(),
            fv == file_views(old_files@),
            file_views(kept@) == keep_assets(fv.take(i as int), glob@),
        decreases old_files@.len() - i,
    {
        assert(fv.take(i + 1).drop_last() =~= fv.take(i as int));
        assert(fv.take(i + 1).last() == old_files@[i as int]@);
        if is_jar_asset(&old_files[i], glob) {
            kept.push(old_files[i].copy());
        }
        i = i + 1;
        assert(file_views(kept@) =~= keep_assets(fv.take(i as int), glob@));
    }
    assert(fv.take(old_files@.len() as int) =~= fv);
    if kept.len() > 0 {
        let mut first = kept[0].copy();
        first.primary = true;
        kept.set(0, first);
    }
    assert(file_views(kept@) =~= filtered_files(fv, glob@));
    v.files = kept;
}


#[derive(Debug, Clone)]
pub struct GhAsset {
    pub name: String,
    pub browser_download_url: String,
    pub size: Option<u64>,
}

#[derive(Debug, Clone)]
pub struct GhRelease {
    pub tag_name: String,
    pub name: Option<String>,
    pub draft: bool,
    pub prerelease: bool,
    /// Unix time (seconds, UTC); unpublished releases have none.
    pub published_at: Option<i64>,
    pub body: Option<String>,
    pub assets: Vec<GhAsset>,
}

#[derive(Debug, Clone)]
pub struct GhRepo {
    pub name: String,
    pub full_name: String,
    pub html_url: String,
    pub description: Option<String>,
    pub owner_login: String,
}

pub open spec fn asset_file(a: GhAsset) -> VersionFileV {
    VersionFileV { name: a.name@, url: a.browser_download_url@, size: a.size, sha512: None, sha256: None, sha1: None, primary: false }
}

/// A published release as a version: the tag as id, the release name (or the tag) as
/// number, beta for a pre-release, its jar assets as files (the first primary).
pub open spec fn release_spec(project_id: Seq<char>, r: GhRelease) -> ResolvedVersionV {
    ResolvedVersionV {
        source: SourceKind::GitHub,
        project_id,
        version_id: r.tag_name@,
        version_number: match r.name {
            Some(n) => if n@.len() > 0 { n@ } else { r.tag_name@ },
            None => r.tag_name@,
        },
        channel: if r.prerelease { Channel::Beta } else { Channel::Release },
        game_versions: Seq::empty(),
        loaders: Seq::empty(),
        published: match r.published_at { Some(t) => t, None => 0 },
        files: filtered_files(r.assets@.map_values(|a: GhAsset| asset_file(a)), "*.jar"@),
        dependencies: Seq::empty(),
        changelog: opt_view(r.body),
    }
}

pub open spec fn releases_spec(project_id: Seq<char>, rs: Seq<GhRelease>) -> Seq<ResolvedVersionV>
    decreases rs.len(),
{
    if rs.len() == 0 {
        Seq::empty()
    } else {
        let r = releases_spec(project_id, rs.drop_last());
        if rs.last().draft { r } else { r.push(release_spec(project_id, rs.last())) }
    }
}

fn release_version(project_id: &str, r: &GhRelease) -> (v: ResolvedVersion)
    ensures
        v@ == release_spec(project_id@, *r),
{
    let mut files: Vec<VersionFile> = Vec::new();
    let mut i: usize = 0;
    while i < r.assets.len()
        invariant
            i <= r.assets@.len(),
            file_views(files@) == r.assets@.take(i as int).map_values(|a: GhAsset| asset_file(a)),
        decreases r.assets@.len() - i,
    {
        let a = &r.assets[i];
        let f = VersionFile { name: a.name.clone(), url: a.browser_download_url.clone(), size: a.size, sha512: None, sha256: None, sha1: None, primary: false };
        let ghost before = file_views(files@);
        assert(f@ == asset_file(*a));
        files.push(f);
        assert(file_views(files@) =~= before.push(asset_file(r.assets@[i as int])));
        i = i + 1;
        assert(file_views(files@) =~= r.assets@.take(i as int).map_values(|a: GhAsset| asset_file(a)));
    }
    assert(r.assets@.take(r.assets@.len() as int) =~= r.assets@);
    let number = match &r.name {
        Some(n) => if n.unicode_len() > 0 { n.clone() } else { r.tag_name.clone() },
        None => r.tag_name.clone(),
    };
    let mut v = ResolvedVersion {
        source: SourceKind::GitHub,
        project_id: String::from_str(project_id),
        version_id: r.tag_name.clone(),
        version_number: number,
        channel: if r.prerelease { Channel::Beta } else { Channel::Release },
        game_versions: Vec::new(),
        loaders: Vec::new(),
        published: match r.published_at { Some(t) => t, None => 0 },
        files,
        dependencies: Vec::new(),
        changelog: crate::text::clone_opt_string(&r.body),
    };
    proof {
        reveal_strlit("*.jar");
    }
    filter_assets(&mut v, "*.jar");
    assert(v@.game_versions =~= Seq::<Seq<char>>::empty());
    assert(v@.loaders =~= Seq::<Seq<char>>::empty());
    assert(v@.dependencies =~= Seq::<crate::sources::model::DependencyV>::empty());
    assert(v@ =~~= release_spec(project_id@, *r));
    v
}

/// A repository's releases, drafts left out, newest first.
pub fn versions(project_id: &str, releases: &Vec<GhRelease>) -> (r: Vec<ResolvedVersion>)
    ensures
        newest_first(rv_views(r@), releases_spec(project_id@, releases@)),
{
    let mut out: Vec<ResolvedVersion> = Vec::new();
    let mut i: usize = 0;
    assert(releases@.take(0) =~= Seq::<GhRelease>::empty());
    while i < releases.len()
        invariant
            i <= releases@.len(),
            rv_views(out@) == releases_spec(project_id@, releases@.take(i as int)),
        decreases releases@.len() - i,
    {
        assert(releases@.take(i + 1).drop_last() =~= releases@.take(i as int));
        assert(releases@.take(i + 1).last() == releases@[i as int]);
        if !releases[i].draft {
            let v = release_version(project_id, &releases[i]);
            let ghost before = rv_views(out@);
            let ghost vv = v@;
            out.push(v);
            assert(rv_views(out@) =~= before.push(vv));
        }
        i = i + 1;
    }
    assert(releases@.take(releases@.len() as int) =~= releases@);
    sort_newest_first(out)
}

/// A repository as a project reference.
pub fn project_ref(raw: GhRepo) -> (r: ProjectRef)
    ensures
        r@ == (ProjectRefV {
            source: SourceKind::GitHub,
            id: raw.full_name@,
            slug: raw.name@,
            name: raw.full_name@,
            author: Some(raw.owner_login@),
            page_url: raw.html_url@,
            description: match raw.description { Some(d) => d@, None => Seq::empty() },
            downloads: None,
            icon_url: None,
        }),
{
    let r = ProjectRef {
        source: SourceKind::GitHub,
        id: raw.full_name.clone(),
        slug: raw.name,
        name: raw.full_name,
        author: Some(raw.owner_login),
        page_url: raw.html_url,
        description: match raw.description { Some(d) => d, None => String::new() },
        downloads: None,
        icon_url: None,
    };
    r
}

/// The search box takes `owner/repo`: exactly one `/` and no space.
pub fn looks_like_repo(query: &str) -> (r: bool)
    ensures
        r == (crate::text::count_char(query@, '/') == 1 && !query@.contains(' ')),
{
    let q = to_chars(query);
    let slashes = crate::text::count_char_exec(q.as_slice(), '/');
    let space = crate::text::contains_char(q.as_slice(), ' ');
    slashes == 1 && !space
}

} // verus!
