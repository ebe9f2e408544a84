//! `plugins/.mcplug/lock.toml`: what is known about each plugin. Lives with the server so
//! it survives reinstalling and moving the server to another host. Reading and writing
//! the file is the caller's; this module holds its model.

use vstd::prelude::*;
use crate::plugins::JarHashes;
use crate::server::PlatformKind;
use crate::plugins::hash::JarHashesV;
use crate::text::{clone_opt_string, clone_strings, eq_chars, opt_view, sviews, to_chars};
use crate::util::path::{join, path_join};
use crate::util::McVersion;

verus! {

pub const DIR: &'static str = ".mcplug";

pub const FILE: &'static str = "lock.toml";

#[derive(Debug, Clone)]
pub struct LockFile {
    pub version: u32,
    pub server: LockServer,
    pub plugins: Vec<PluginEntry>,
}

#[derive(Debug, Clone)]
pub struct LockServer {
    pub platform: Option<PlatformKind>,
    pub mc_version: Option<McVersion>,
    /// Unix time (seconds, UTC) of the last scan.
    pub last_scan: Option<i64>,
    pub jar: Option<LockServerJar>,
}

#[derive(Debug, Clone)]
pub struct LockServerJar {
    pub provider: String,
    pub file: String,
    pub build: Option<u32>,
    pub sha256: String,
}

#[derive(Debug, Clone)]
pub struct PluginEntry {
    /// Descriptor name: the identity key. Filenames change; this doesn't.
    pub name: String,
    pub file: String,
    pub descriptor_version: Option<String>,
    pub hashes: JarHashes,
    pub channel: Channel,
    pub pinned: bool,
    pub ignored_versions: Vec<String>,
    pub compat: CompatMode,
    /// Unix time (seconds, UTC) the jar was installed.
    pub installed_at: Option<i64>,
    pub source: SourceRef,
}

/// Minimum release channel the user accepts for this plugin.
#[derive(Debug, Clone, Copy, PartialEq, Eq, Structural, PartialOrd, Ord, Default)]
pub enum Channel {
    #[default]
    Release,
    Beta,
    Alpha,
}

/// Release < Beta < Alpha: how far from a stable release a channel is.
pub open spec fn channel_rank(c: Channel) -> nat {
    match c {
        Channel::Release => 0,
        Channel::Beta => 1,
        Channel::Alpha => 2,
    }
}

impl Channel {
    pub fn rank(self) -> (r: u8)
        ensures
            r == channel_rank(self),
    {
        match self {
            Channel::Release => 0,
            Channel::Beta => 1,
            Channel::Alpha => 2,
        }
    }

    /// A version published on channel `v` is acceptable for a plugin set to `self`.
    pub fn accepts(self, v: Channel) -> (r: bool)
        ensures
            r == (channel_rank(v) <= channel_rank(self)),
    {
        v.rank() <= self.rank()
    }
}

/// How strictly a source's declared game versions are matched against the server.
#[derive(Debug, Clone, Copy, PartialEq, Eq, Structural, Default)]
pub enum CompatMode {
    /// Use the server-wide default (strict).
    #[default]
    Inherit,
    /// The version must list the exact server version.
    Strict,
    /// Same line is enough (`26.2.x` for a `26.2` server).
    Lenient,
    /// Ignore declared versions entirely.
    Any,
}

#[derive(Debug, Clone, PartialEq, Eq)]
pub enum SourceRef {
    Modrinth { project_id: String, version_id: String, version_number: String },
    Hangar { slug: String, version_name: String, platform: String },
    GitHub { owner: String, repo: String, asset_glob: String, tag: String, asset_name: String },
    GeyserMc { project: String, download: String, build: Option<u32> },
    /// Scan couldn't decide. The UI keeps offering candidates.
    Unidentified,
    /// User said "leave it alone". Stays quiet until the jar's hash changes.
    Unmanaged,
}

pub open spec fn managed(s: SourceRef) -> bool {
    !(s is Unidentified || s is Unmanaged)
}

pub open spec fn source_kind_name(s: SourceRef) -> Seq<char> {
    match s {
        SourceRef::Modrinth { .. } => "modrinth"@,
        SourceRef::Hangar { .. } => "hangar"@,
        SourceRef::GitHub { .. } => "github"@,
        SourceRef::GeyserMc { .. } => "geysermc"@,
        SourceRef::Unidentified => "?"@,
        SourceRef::Unmanaged => "unmanaged"@,
    }
}

impl SourceRef {
    pub fn is_managed(&self) -> (r: bool)
        ensures
            r == managed(*self),
    {
        match self {
            SourceRef::Unidentified | SourceRef::Unmanaged => false,
            _ => true,
        }
    }

    pub fn kind_str(&self) -> (r: &'static str)
        ensures
            r@ == source_kind_name(*self),
    {
        match self {
            SourceRef::Modrinth { .. } => "modrinth",
            SourceRef::Hangar { .. } => "hangar",
            SourceRef::GitHub { .. } => "github",
            SourceRef::GeyserMc { .. } => "geysermc",
            SourceRef::Unidentified => "?",
            SourceRef::Unmanaged => "unmanaged",
        }
    }
}


#[verifier::ext_equal]
pub enum SourceRefV {
    Modrinth { project_id: Seq<char>, version_id: Seq<char>, version_number: Seq<char> },
    Hangar { slug: Seq<char>, version_name: Seq<char>, platform: Seq<char> },
    GitHub { owner: Seq<char>, repo: Seq<char>, asset_glob: Seq<char>, tag: Seq<char>, asset_name: Seq<char> },
    GeyserMc { project: Seq<char>, download: Seq<char>, build: Option<u32> },
    Unidentified,
    Unmanaged,
}

impl View for SourceRef {
    type V = SourceRefV;

    open spec fn view(&self) -> SourceRefV {
        match self {
            SourceRef::Modrinth { project_id, version_id, version_number } => SourceRefV::Modrinth {
                project_id: project_id@,
                version_id: version_id@,
                version_number: version_number@,
            },
            SourceRef::Hangar { slug, version_name, platform } => SourceRefV::Hangar {
                slug: slug@,
                version_name: version_name@,
                platform: platform@,
            },
            SourceRef::GitHub { owner, repo, asset_glob, tag, asset_name } => SourceRefV::GitHub {
                owner: owner@,
                repo: repo@,
                asset_glob: asset_glob@,
                tag: tag@,
                asset_name: asset_name@,
            },
            SourceRef::GeyserMc { project, download, build } => SourceRefV::GeyserMc {
                project: project@,
                download: download@,
                build: *build,
            },
            SourceRef::Unidentified => SourceRefV::Unidentified,
            SourceRef::Unmanaged => SourceRefV::Unmanaged,
        }
    }
}

#[verifier::ext_equal]
pub struct PluginEntryV {
    pub name: Seq<char>,
    pub file: Seq<char>,
    pub descriptor_version: Option<Seq<char>>,
    pub hashes: JarHashesV,
    pub channel: Channel,
    pub pinned: bool,
    pub ignored_versions: Seq<Seq<char>>,
    pub compat: CompatMode,
    pub installed_at: Option<i64>,
    pub source: SourceRefV,
}

impl View for PluginEntry {
    type V = PluginEntryV;

    open spec fn view(&self) -> PluginEntryV {
        PluginEntryV {
            name: self.name@,
            file: self.file@,
            descriptor_version: opt_view(self.descriptor_version),
            hashes: self.hashes@,
            channel: self.channel,
            pinned: self.pinned,
            ignored_versions: sviews(self.ignored_versions@),
            compat: self.compat,
            installed_at: self.installed_at,
            source: self.source@,
        }
    }
}

/// The views of a list of entries.
pub open spec fn entry_views(v: Seq<PluginEntry>) -> Seq<PluginEntryV> {
    v.map_values(|e: PluginEntry| e@)
}

impl SourceRef {
    pub fn copy(&self) -> (r: SourceRef)
        ensures
            r@ == self@,
    {
        match self {
            SourceRef::Modrinth { project_id, version_id, version_number } => SourceRef::Modrinth {
                project_id: project_id.clone(),
                version_id: version_id.clone(),
                version_number: version_number.clone(),
            },
            SourceRef::Hangar { slug, version_name, platform } => SourceRef::Hangar {
                slug: slug.clone(),
                version_name: version_name.clone(),
                platform: platform.clone(),
            },
            SourceRef::GitHub { owner, repo, asset_glob, tag, asset_name } => SourceRef::GitHub {
                owner: owner.clone(),
                repo: repo.clone(),
                asset_glob: asset_glob.clone(),
                tag: tag.clone(),
                asset_name: asset_name.clone(),
            },
            SourceRef::GeyserMc { project, download, build } => SourceRef::GeyserMc {
                project: project.clone(),
                download: download.clone(),
                build: *build,
            },
            SourceRef::Unidentified => SourceRef::Unidentified,
            SourceRef::Unmanaged => SourceRef::Unmanaged,
        }
    }
}

impl PluginEntry {
    pub fn copy(&self) -> (r: PluginEntry)
        ensures
            r@ == self@,
    {
        PluginEntry {
            name: self.name.clone(),
            file: self.file.clone(),
            descriptor_version: clone_opt_string(&self.descriptor_version),
            hashes: self.hashes.copy(),
            channel: self.channel,
            pinned: self.pinned,
            ignored_versions: clone_strings(&self.ignored_versions),
            compat: self.compat,
            installed_at: self.installed_at,
            source: self.source.copy(),
        }
    }
}

/// Index of the first entry whose name is `name`.
pub open spec fn first_named(ps: Seq<PluginEntry>, name: Seq<char>) -> Option<int>
    decreases ps.len(),
{
    if ps.len() == 0 {
        None
    } else {
        match first_named(ps.drop_last(), name) {
            Some(i) => Some(i),
            None => if ps.last().name@ == name { Some(ps.len() - 1) } else { None },
        }
    }
}

/// Index of the first entry whose sha512 is `h`.
pub open spec fn first_with_sha512(ps: Seq<PluginEntry>, h: Seq<char>) -> Option<int>
    decreases ps.len(),
{
    if ps.len() == 0 {
        None
    } else {
        match first_with_sha512(ps.drop_last(), h) {
            Some(i) => Some(i),
            None => if ps.last().hashes.sha512@ == h { Some(ps.len() - 1) } else { None },
        }
    }
}

pub proof fn lemma_first_named(ps: Seq<PluginEntry>, name: Seq<char>)
    ensures
        match first_named(ps, name) {
            Some(i) => 0 <= i < ps.len() && ps[i].name@ == name && forall|j: int| 0 <= j < i ==> ps[j].name@ != name,
            None => forall|j: int| 0 <= j < ps.len() ==> ps[j].name@ != name,
        },
    decreases ps.len(),
{
    if ps.len() > 0 {
        lemma_first_named(ps.drop_last(), name);
        assert forall|j: int| 0 <= j < ps.len() - 1 implies ps.drop_last()[j] == ps[j] by {}
    }
}

proof fn lemma_first_with_sha512(ps: Seq<PluginEntry>, h: Seq<char>)
    ensures
        match first_with_sha512(ps, h) {
            Some(i) => 0 <= i < ps.len() && ps[i].hashes.sha512@ == h && forall|j: int| 0 <= j < i ==> ps[j].hashes.sha512@ != h,
            None => forall|j: int| 0 <= j < ps.len() ==> ps[j].hashes.sha512@ != h,
        },
    decreases ps.len(),
{
    if ps.len() > 0 {
        lemma_first_with_sha512(ps.drop_last(), h);
        assert forall|j: int| 0 <= j < ps.len() - 1 implies ps.drop_last()[j] == ps[j] by {}
    }
}

pub fn str_eq(a: &str, b: &str) -> (r: bool)
    ensures
        r == (a@ == b@),
{
    let x = to_chars(a);
    let y = to_chars(b);
    eq_chars(x.as_slice(), y.as_slice())
}

/// Position of the entry called `name`.
pub fn index_of(ps: &Vec<PluginEntry>, name: &str) -> (r: Option<usize>)
    ensures
        match r {
            Some(i) => i < ps@.len() && first_named(ps@, name@) == Some(i as int),
            None => first_named(ps@, name@) is None,
        },
{
    proof {
        lemma_first_named(ps@, name@);
    }
    let mut i: usize = 0;
    while i < ps.len()
        invariant
            i <= ps@.len(),
            forall|j: int| 0 <= j < i ==> ps@[j].name@ != name@,
        decreases ps@.len() - i,
    {
        if str_eq(ps[i].name.as_str(), name) {
            proof {
                lemma_first_named(ps@, name@);
                if let Some(k) = first_named(ps@, name@) {
                    assert(k == i);
                }
            }
            return Some(i);
        }
        i = i + 1;
    }
    None
}

impl LockFile {
    pub fn path_for(plugins_dir: &str) -> (r: String)
        ensures
            r@ == path_join(path_join(plugins_dir@, DIR@), FILE@),
    {
        let d = join(plugins_dir, DIR);
        join(d.as_str(), FILE)
    }

    pub fn new() -> (r: Self)
        ensures
            r.version == 1,
            r.plugins@.len() == 0,
            r.server.platform is None,
            r.server.mc_version is None,
            r.server.last_scan is None,
            r.server.jar is None,
    {
        LockFile {
            version: 1,
            server: LockServer { platform: None, mc_version: None, last_scan: None, jar: None },
            plugins: Vec::new(),
        }
    }

    /// The entry called `name`.
    pub fn get(&self, name: &str) -> (r: Option<&PluginEntry>)
        ensures
            match first_named(self.plugins@, name@) {
                Some(i) => r == Some(&self.plugins@[i]),
                None => r is None,
            },
    {
        match index_of(&self.plugins, name) {
            Some(i) => Some(&self.plugins[i]),
            None => None,
        }
    }

    /// The entry whose jar has this sha512.
    pub fn by_sha512(&self, sha512: &str) -> (r: Option<&PluginEntry>)
        ensures
            match first_with_sha512(self.plugins@, sha512@) {
                Some(i) => r == Some(&self.plugins@[i]),
                None => r is None,
            },
    {
        proof {
            lemma_first_with_sha512(self.plugins@, sha512@);
        }
        let mut i: usize = 0;
        while i < self.plugins.len()
            invariant
                i <= self.plugins@.len(),
                forall|j: int| 0 <= j < i ==> self.plugins@[j].hashes.sha512@ != sha512@,
            decreases self.plugins@.len() - i,
        {
            if str_eq(self.plugins[i].hashes.sha512.as_str(), sha512) {
                proof {
                    lemma_first_with_sha512(self.plugins@, sha512@);
                    if let Some(k) = first_with_sha512(self.plugins@, sha512@) {
                        assert(k == i);
                    }
                }
                return Some(&self.plugins[i]);
            }
            i = i + 1;
        }
        None
    }
}

} // verus!
