//! GeyserMC's downloads for Geyser and Floodgate. Builds are frequent and not on a semver
//! train, so a jar is identified by its sha256 among the recent builds.

use vstd::prelude::*;
use crate::lockfile::Channel;
use crate::sources::hangar::{key_index, key_index_exec};
use crate::sources::model::{
    newest_first, sort_newest_first, ProjectRef, ProjectRefV, ResolvedVersion, ResolvedVersionV, SourceKind, VersionFile, VersionFileV,
};
use crate::sources::resolve::rv_views;
use crate::text::{clone_string, decimal, has_sub, join_with, lower, push_decimal, push_str, string_from_chars, sviews, to_chars, views};

verus! {

pub const BASE: &'static str = "https://download.geysermc.org/v2";

#[derive(Debug, Clone)]
pub struct GDownload {
    pub name: String,
    pub sha256: String,
}

#[derive(Debug, Clone)]
pub struct GBuild {
    pub build: u32,
    /// Unix time (seconds, UTC).
    pub time: i64,
    pub channel: Option<String>,
    /// The summaries of the build's changes.
    pub changes: Vec<String>,
    /// Per platform (`spigot`, `velocity`, …).
    pub downloads: Vec<(String, GDownload)>,
}

/// The two projects.
pub open spec fn projects() -> Seq<Seq<char>> {
    seq!["geyser"@, "floodgate"@]
}

/// Geyser or Floodgate as a project reference.
pub open spec fn project_ref_spec(project: Seq<char>) -> ProjectRefV {
    ProjectRefV {
        source: SourceKind::GeyserMc,
        id: project,
        slug: project,
        name: if project == "geyser"@ { "Geyser"@ } else { "Floodgate"@ },
        author: Some("GeyserMC"@),
        page_url: "https://geysermc.org/download"@,
        description: if project == "geyser"@ {
            "Lets Bedrock Edition players join Java servers"@
        } else {
            "Lets Bedrock players join without a Java account"@
        },
        downloads: None,
        icon_url: None,
    }
}

pub fn project_ref(project: &str) -> (r: ProjectRef)
    ensures
        r@ == project_ref_spec(project@),
{
    proof {
        reveal_strlit("geyser");
        reveal_strlit("Geyser");
        reveal_strlit("Floodgate");
        reveal_strlit("GeyserMC");
        reveal_strlit("https://geysermc.org/download");
        reveal_strlit("Lets Bedrock Edition players join Java servers");
        reveal_strlit("Lets Bedrock players join without a Java account");
    }
    let geyser = crate::lockfile::str_eq(project, "geyser");
    ProjectRef {
        source: SourceKind::GeyserMc,
        id: String::from_str(project),
        slug: String::from_str(project),
        name: String::from_str(if geyser { "Geyser" } else { "Floodgate" }),
        author: Some(String::from_str("GeyserMC")),
        page_url: String::from_str("https://geysermc.org/download"),
        description: String::from_str(if geyser { "Lets Bedrock Edition players join Java servers" } else { "Lets Bedrock players join without a Java account" }),
        downloads: None,
        icon_url: None,
    }
}

/// The download a server uses: `velocity` when its loaders list it, else `spigot`.
pub fn download_for(loaders: &Vec<String>) -> (r: &'static str)
    ensures
        r@ == (if sviews(loaders@).contains("velocity"@) { "velocity"@ } else { "spigot"@ }),
{
    proof {
        reveal_strlit("velocity");
        reveal_strlit("spigot");
    }
    if crate::text::strings_contain(loaders, "velocity") { "velocity" } else { "spigot" }
}

/// The projects a search finds: those whose id contains the lower-cased query or is
/// contained in it.
pub open spec fn search_spec(q: Seq<char>) -> Seq<Seq<char>> {
    let q = lower(q);
    let g = if has_sub("geyser"@, q) || has_sub(q, "geyser"@) { seq!["geyser"@] } else { Seq::empty() };
    let f = if has_sub("floodgate"@, q) || has_sub(q, "floodgate"@) { seq!["floodgate"@] } else { Seq::empty() };
    g + f
}

pub fn search(query: &str) -> (r: Vec<String>)
    ensures
        sviews(r@) == search_spec(query@),
{
    proof {
        reveal_strlit("geyser");
        reveal_strlit("floodgate");
    }
    let q = crate::text::lower_chars(to_chars(query).as_slice());
    let mut out: Vec<String> = Vec::new();
    let g = to_chars("geyser");
    if crate::text::contains(g.as_slice(), q.as_slice()) || crate::text::contains(q.as_slice(), g.as_slice()) {
        out.push(String::from_str("geyser"));
    }
    let ghost mid = sviews(out@);
    let f = to_chars("floodgate");
    if crate::text::contains(f.as_slice(), q.as_slice()) || crate::text::contains(q.as_slice(), f.as_slice()) {
        out.push(String::from_str("floodgate"));
        assert(sviews(out@) =~= mid.push("floodgate"@));
    }
    assert(sviews(out@) =~= search_spec(query@));
    out
}

/// A build as a version, when it has the download: the build number as id, `<version>
/// build <n>` as number, beta for experimental builds, the download as loader, its file
/// with GeyserMC's sha256, the change summaries as changelog lines.
pub open spec fn version_spec(project: Seq<char>, version: Seq<char>, b: GBuild, download: Seq<char>) -> Option<ResolvedVersionV> {
    match key_index(b.downloads@, download) {
        None => None,
        Some(i) => {
            let d = b.downloads@[i].1;
            Some(ResolvedVersionV {
                source: SourceKind::GeyserMc,
                project_id: project,
                version_id: decimal(b.build as nat),
                version_number: version + " build "@ + decimal(b.build as nat),
                channel: if crate::text::opt_view(b.channel) == Some("experimental"@) { Channel::Beta } else { Channel::Release },
                game_versions: Seq::empty(),
                loaders: seq![download],
                published: b.time,
                files: seq![VersionFileV {
                    name: d.name@,
                    url: BASE@ + "/projects/"@ + project + "/versions/"@ + version + "/builds/"@ + decimal(b.build as nat) + "/downloads/"@ + download,
                    size: None,
                    sha512: None,
                    sha256: Some(d.sha256@),
                    sha1: None,
                    primary: true,
                }],
                dependencies: Seq::empty(),
                changelog: Some(join_with(sviews(b.changes@).map_values(|c: Seq<char>| "- "@ + c), "\n"@)),
            })
        },
    }
}

pub fn to_version(project: &str, version: &str, b: &GBuild, download: &str) -> (r: Option<ResolvedVersion>)
    ensures
        match version_spec(project@, version@, *b, download@) {
            Some(x) => r matches Some(y) && y@ == x,
            None => r is None,
        },
{
    proof {
        reveal_strlit(" build ");
        reveal_strlit("experimental");
        reveal_strlit("/projects/");
        reveal_strlit("/versions/");
        reveal_strlit("/builds/");
        reveal_strlit("/downloads/");
        reveal_strlit("- ");
        reveal_strlit("\n");
    }
    let i = match key_index_exec(&b.downloads, download) {
        Some(i) => i,
        None => return None,
    };
    let d = &b.downloads[i].1;
    let mut id: Vec<char> = Vec::new();
    push_decimal(&mut id, b.build);
    let mut number: Vec<char> = Vec::new();
    push_str(&mut number, version);
    push_str(&mut number, " build ");
    push_decimal(&mut number, b.build);
    let mut url: Vec<char> = Vec::new();
    push_str(&mut url, BASE);
    push_str(&mut url, "/projects/");
    push_str(&mut url, project);
    push_str(&mut url, "/versions/");
    push_str(&mut url, version);
    push_str(&mut url, "/builds/");
    push_decimal(&mut url, b.build);
    push_str(&mut url, "/downloads/");
    push_str(&mut url, download);
    let experimental = match &b.channel {
        Some(c) => crate::lockfile::str_eq(c.as_str(), "experimental"),
        None => false,
    };
    let ghost cv = sviews(b.changes@);
    let mut parts: Vec<Vec<char>> = Vec::new();
    let mut k: usize = 0;
    while k < b.changes.len()
        invariant
            k <= b.changes@.len(),
            cv == sviews(b.changes@),
            views(parts@) == cv.take(k as int).map_values(|c: Seq<char>| "- "@ + c),
        decreases b.changes@.len() - k,
    {
        let mut p: Vec<char> = Vec::new();
        push_str(&mut p, "- ");
        push_str(&mut p, b.changes[k].as_str());
        let ghost before = views(parts@);
        parts.push(p);
        assert(views(parts@) =~= before.push("- "@ + cv[k as int]));
        k = k + 1;
        assert(views(parts@) =~= cv.take(k as int).map_values(|c: Seq<char>| "- "@ + c));
    }
    assert(cv.take(cv.len() as int) =~= cv);
    let sep = to_chars("\n");
    let log = crate::text::join_chars(&parts, sep.as_slice());
    let mut files: Vec<VersionFile> = Vec::new();
    files.push(VersionFile {
        name: clone_string(&d.name),
        url: string_from_chars(url.as_slice()),
        size: None,
        sha512: None,
        sha256: Some(clone_string(&d.sha256)),
        sha1: None,
        primary: true,
    });
    let mut loaders: Vec<String> = Vec::new();
    loaders.push(String::from_str(download));
    let r = ResolvedVersion {
        source: SourceKind::GeyserMc,
        project_id: String::from_str(project),
        version_id: string_from_chars(id.as_slice()),
        version_number: string_from_chars(number.as_slice()),
        channel: if experimental { Channel::Beta } else { Channel::Release },
        game_versions: Vec::new(),
        loaders,
        published: b.time,
        files,
        dependencies: Vec::new(),
        changelog: Some(string_from_chars(log.as_slice())),
    };
    let ghost x = version_spec(project@, version@, *b, download@)->0;
    assert(r@.game_versions =~= x.game_versions);
    assert(r@.loaders =~= x.loaders);
    assert(r@.files =~~= x.files);
    assert(r@.dependencies =~~= x.dependencies);
    assert(r@ =~~= x);
    Some(r)
}

pub open spec fn builds_spec(project: Seq<char>, version: Seq<char>, bs: Seq<GBuild>, download: Seq<char>) -> Seq<ResolvedVersionV>
    decreases bs.len(),
{
    if bs.len() == 0 {
        Seq::empty()
    } else {
        let r = builds_spec(project, version, bs.drop_last(), download);
        match version_spec(project, version, bs.last(), download) {
            Some(v) => r.push(v),
            None => r,
        }
    }
}

/// The latest Minecraft version's builds that have the download, newest first.
pub fn versions(project: &str, version: &str, builds: &Vec<GBuild>, download: &str) -> (r: Vec<ResolvedVersion>)
    ensures
        newest_first(rv_views(r@), builds_spec(project@, version@, builds@, download@)),
{
    let mut out: Vec<ResolvedVersion> = Vec::new();
    let mut i: usize = 0;
    assert(builds@.take(0) =~= Seq::<GBuild>::empty());
    while i < builds.len()
        invariant
            i <= builds@.len(),
            rv_views(out@) == builds_spec(project@, version@, builds@.take(i as int), download@),
        decreases builds@.len() - i,
    {
        assert(builds@.take(i + 1).drop_last() =~= builds@.take(i as int));
        assert(builds@.take(i + 1).last() == builds@[i as int]);
        let ghost before = rv_views(out@);
        match to_version(project, version, &builds[i], download) {
            Some(v) => {
                let ghost vv = v@;
                out.push(v);
                assert(rv_views(out@) =~= before.push(vv));
            },
            None => {},
        }
        i = i + 1;
    }
    assert(builds@.take(builds@.len() as int) =~= builds@);
    sort_newest_first(out)
}

} // verus!
