//! Identify the server software and Minecraft version from the server jar.

use vstd::prelude::*;
use crate::archive::{entry_names, entry_text, zip_entry_names, zip_entry_text};
use crate::digest::{hex_lower, sha256_hex, sha256_of};
use crate::json::{version_json, version_json_fields};
use crate::text::{
    contains, count_char, count_char_exec, ends_with, eq_chars, first_prefixed, first_prefixed_exec, has_sub, is_prefix,
    is_suffix, join_chars, join_with, lines, lines_of, lower, lower_chars, parse_u32, parse_u32_spec, push_all, push_str,
    skip_chars, split_chars, split_on, starts_with, string_from_chars, sviews, take_chars, to_chars, trim, trim_chars,
    views, lemma_split_on_nonempty,
};
use crate::util::version::{parse_spec, McVersion, VersionV};

verus! {

#[derive(Debug, Clone, Copy, PartialEq, Eq, Hash, Structural)]
pub enum PlatformKind {
    Paper,
    Purpur,
    Folia,
    Pufferfish,
    Spigot,
    Vanilla,
    Fabric,
    Velocity,
    Unknown,
}

pub open spec fn platform_name(k: PlatformKind) -> Seq<char> {
    match k {
        PlatformKind::Paper => "paper"@,
        PlatformKind::Purpur => "purpur"@,
        PlatformKind::Folia => "folia"@,
        PlatformKind::Pufferfish => "pufferfish"@,
        PlatformKind::Spigot => "spigot"@,
        PlatformKind::Vanilla => "vanilla"@,
        PlatformKind::Fabric => "fabric"@,
        PlatformKind::Velocity => "velocity"@,
        PlatformKind::Unknown => "unknown"@,
    }
}

pub open spec fn bukkit_kind(k: PlatformKind) -> bool {
    k is Paper || k is Purpur || k is Folia || k is Pufferfish || k is Spigot
}

impl PlatformKind {
    /// Bukkit-API servers share the `plugins/` + `plugin.yml` model.
    pub fn is_bukkit(self) -> (r: bool)
        ensures
            r == bukkit_kind(self),
    {
        match self {
            PlatformKind::Paper | PlatformKind::Purpur | PlatformKind::Folia | PlatformKind::Pufferfish
            | PlatformKind::Spigot => true,
            _ => false,
        }
    }

    pub fn as_str(self) -> (r: &'static str)
        ensures
            r@ == platform_name(self),
    {
        match self {
            PlatformKind::Paper => "paper",
            PlatformKind::Purpur => "purpur",
            PlatformKind::Folia => "folia",
            PlatformKind::Pufferfish => "pufferfish",
            PlatformKind::Spigot => "spigot",
            PlatformKind::Vanilla => "vanilla",
            PlatformKind::Fabric => "fabric",
            PlatformKind::Velocity => "velocity",
            PlatformKind::Unknown => "unknown",
        }
    }
}

/// What we could read out of the server jar.
#[derive(Debug, Clone)]
pub struct ServerJarInfo {
    pub file_name: String,
    pub platform: PlatformKind,
    pub mc_version: Option<McVersion>,
    /// From `version.json`: the Java the bundled Minecraft build wants.
    pub java_min: Option<u32>,
    pub sha256: String,
    pub size: u64,
    /// Build number when derivable from the filename (`paper-26.2-123.jar` is 123).
    pub build_hint: Option<u32>,
}

/// The names that start with `p`, in order.
pub open spec fn keep_prefixed(names: Seq<Seq<char>>, p: Seq<char>) -> Seq<Seq<char>>
    decreases names.len(),
{
    if names.len() == 0 {
        Seq::empty()
    } else {
        let r = keep_prefixed(names.drop_last(), p);
        if is_prefix(p, names.last()) { r.push(names.last()) } else { r }
    }
}

/// Where the brand is looked for: the versions list, the bundled jar names and the file
/// name, lower-cased.
pub open spec fn haystack(versions_list: Seq<char>, names: Seq<Seq<char>>, file_name: Seq<char>) -> Seq<char> {
    lower(versions_list + seq!['\n'] + join_with(keep_prefixed(names, "META-INF/versions/"@), seq!['\n'])
        + seq!['\n'] + file_name)
}

pub open spec fn detect_spec(main_class: Seq<char>, versions_list: Seq<char>, names: Seq<Seq<char>>, file_name: Seq<char>) -> PlatformKind {
    let hay = haystack(versions_list, names, file_name);
    if is_prefix("io.papermc.paperclip"@, main_class) {
        if has_sub(hay, "purpur"@) {
            PlatformKind::Purpur
        } else if has_sub(hay, "folia"@) {
            PlatformKind::Folia
        } else if has_sub(hay, "pufferfish"@) {
            PlatformKind::Pufferfish
        } else {
            PlatformKind::Paper
        }
    } else if is_prefix("com.velocitypowered"@, main_class) {
        PlatformKind::Velocity
    } else if is_prefix("net.fabricmc"@, main_class) || names.contains("fabric-server-launch.properties"@) {
        PlatformKind::Fabric
    } else if is_prefix("org.bukkit.craftbukkit"@, main_class) || is_prefix("org.spigotmc"@, main_class) {
        PlatformKind::Spigot
    } else if is_prefix("net.minecraft"@, main_class) {
        PlatformKind::Vanilla
    } else {
        PlatformKind::Unknown
    }
}

fn starts_with_str(s: &[char], p: &str) -> (r: bool)
    ensures
        r == is_prefix(p@, s@),
{
    let pc = to_chars(p);
    starts_with(s, pc.as_slice())
}

fn contains_str(s: &[char], p: &str) -> (r: bool)
    ensures
        r == has_sub(s@, p@),
{
    let pc = to_chars(p);
    contains(s, pc.as_slice())
}

fn any_equals(names: &[String], t: &str) -> (r: bool)
    ensures
        r == sviews(names@).contains(t@),
{
    let tc = to_chars(t);
    let ghost nv = sviews(names@);
    let mut i: usize = 0;
    while i < names.len()
        invariant
            i <= names@.len(),
            nv == sviews(names@),
            tc@ == t@,
            forall|j: int| 0 <= j < i ==> nv[j] != t@,
        decreases names@.len() - i,
    {
        let nc = to_chars(names[i].as_str());
        if eq_chars(nc.as_slice(), tc.as_slice()) {
            assert(nv[i as int] == t@);
            return true;
        }
        i = i + 1;
    }
    false
}

/// The brand (Paper, Purpur, Folia…), from the jar's main class and, for a Paperclip jar,
/// the names of the server jars it bundles.
pub fn detect_platform(main_class: &str, versions_list: &str, names: &[String], file_name: &str) -> (r: PlatformKind)
    ensures
        r == detect_spec(main_class@, versions_list@, sviews(names@), file_name@),
{
    let ghost nv = sviews(names@);
    let prefix = to_chars("META-INF/versions/");
    let mut kept: Vec<Vec<char>> = Vec::new();
    let mut i: usize = 0;
    assert(nv.take(0) =~= Seq::<Seq<char>>::empty());
    while i < names.len()
        invariant
            i <= names@.len(),
            nv == sviews(names@),
            prefix@ == "META-INF/versions/"@,
            views(kept@) == keep_prefixed(nv.take(i as int), prefix@),
        decreases names@.len() - i,
    {
        let nc = to_chars(names[i].as_str());
        assert(nv.take(i + 1).drop_last() =~= nv.take(i as int));
        assert(nv.take(i + 1).last() == nc@);
        if starts_with(nc.as_slice(), prefix.as_slice()) {
            kept.push(nc);
        }
        i = i + 1;
        assert(views(kept@) =~= keep_prefixed(nv.take(i as int), prefix@));
    }
    assert(nv.take(names@.len() as int) =~= nv);
    let nl = vec!['\n'];
    let mut hay: Vec<char> = to_chars(versions_list);
    hay.push('\n');
    let joined = join_chars(&kept, nl.as_slice());
    push_all(&mut hay, joined.as_slice());
    hay.push('\n');
    push_str(&mut hay, file_name);
    assert(nl@ =~= seq!['\n']);
    assert(hay@ =~= versions_list@ + seq!['\n'] + join_with(keep_prefixed(nv, "META-INF/versions/"@), seq!['\n']) + seq!['\n'] + file_name@);
    let hay = lower_chars(hay.as_slice());
    let mc = to_chars(main_class);
    if starts_with_str(mc.as_slice(), "io.papermc.paperclip") {
        if contains_str(hay.as_slice(), "purpur") {
            return PlatformKind::Purpur;
        }
        if contains_str(hay.as_slice(), "folia") {
            return PlatformKind::Folia;
        }
        if contains_str(hay.as_slice(), "pufferfish") {
            return PlatformKind::Pufferfish;
        }
        return PlatformKind::Paper;
    }
    if starts_with_str(mc.as_slice(), "com.velocitypowered") {
        return PlatformKind::Velocity;
    }
    if starts_with_str(mc.as_slice(), "net.fabricmc") || any_equals(names, "fabric-server-launch.properties") {
        return PlatformKind::Fabric;
    }
    if starts_with_str(mc.as_slice(), "org.bukkit.craftbukkit") || starts_with_str(mc.as_slice(), "org.spigotmc") {
        return PlatformKind::Spigot;
    }
    if starts_with_str(mc.as_slice(), "net.minecraft") {
        return PlatformKind::Vanilla;
    }
    PlatformKind::Unknown
}

/// `paper-26.2-123.jar` is build 123: the number after the last `-` of the name without
/// `.jar`, when the name has a version segment before it (two `-` or more).
pub open spec fn build_spec(name: Seq<char>) -> Option<u32> {
    if is_suffix(".jar"@, name) {
        let stem = name.take(name.len() - 4);
        match parse_u32_spec(split_on(stem, seq!['-']).last()) {
            Some(n) => if count_char(stem, '-') >= 2 { Some(n) } else { None },
            None => None,
        }
    } else {
        None
    }
}

pub fn build_from_filename(name: &str) -> (r: Option<u32>)
    ensures
        r == build_spec(name@),
{
    let cs = to_chars(name);
    let suffix = to_chars(".jar");
    proof {
        reveal_strlit(".jar");
    }
    if !ends_with(cs.as_slice(), suffix.as_slice()) {
        return None;
    }
    let stem = take_chars(cs.as_slice(), cs.len() - 4);
    let dash = vec!['-'];
    assert(dash@ =~= seq!['-']);
    let parts = split_chars(stem.as_slice(), dash.as_slice());
    proof {
        lemma_split_on_nonempty(stem@, dash@);
    }
    let last = parts.len() - 1;
    assert(views(parts@)[last as int] == parts@[last as int]@);
    let n = match parse_u32(parts[last].as_slice()) {
        Some(n) => n,
        None => return None,
    };
    if count_char_exec(stem.as_slice(), '-') >= 2 {
        Some(n)
    } else {
        None
    }
}

/// `Main-Class:` of a jar manifest, trimmed; empty when absent.
pub open spec fn main_class_of(manifest: Seq<char>) -> Seq<char> {
    match first_prefixed(lines_of(manifest), "Main-Class:"@) {
        Some(l) => trim(l.skip(11)),
        None => Seq::empty(),
    }
}

fn main_class(manifest: &str) -> (r: Vec<char>)
    ensures
        r@ == main_class_of(manifest@),
{
    let cs = to_chars(manifest);
    let ls = lines(cs.as_slice());
    let key = to_chars("Main-Class:");
    proof {
        reveal_strlit("Main-Class:");
    }
    match first_prefixed_exec(&ls, key.as_slice()) {
        Some(k) => {
            let rest = skip_chars(ls[k].as_slice(), 11);
            trim_chars(rest.as_slice())
        },
        None => Vec::new(),
    }
}

pub open spec fn text_or_empty(t: Option<Seq<char>>) -> Seq<char> {
    match t {
        Some(s) => s,
        None => Seq::empty(),
    }
}

/// Minecraft version and minimum Java from `version.json`.
pub open spec fn version_info(data: Seq<u8>) -> (Option<VersionV>, Option<u32>) {
    match zip_entry_text(data, "version.json"@) {
        Some(text) => match version_json_fields(text) {
            Some((id, java)) => (
                match id {
                    Some(i) => parse_spec(i),
                    None => None,
                },
                java,
            ),
            None => (None, None),
        },
        None => (None, None),
    }
}

/// Everything about a server jar read from its bytes: hash, size, platform, Minecraft
/// version, minimum Java, build hint. Fails when the bytes are not a zip archive.
pub fn inspect_server_jar(file_name: &str, bytes: &[u8]) -> (r: Result<ServerJarInfo, String>)
    ensures
        match r {
            Ok(info) => {
                let names = zip_entry_names(bytes@)->0;
                let manifest = text_or_empty(zip_entry_text(bytes@, "META-INF/MANIFEST.MF"@));
                let versions_list = text_or_empty(zip_entry_text(bytes@, "META-INF/versions.list"@));
                &&& zip_entry_names(bytes@) is Some
                &&& info.file_name@ == file_name@
                &&& info.sha256@ == hex_lower(sha256_of(bytes@))
                &&& info.size == bytes@.len()
                &&& info.platform == detect_spec(main_class_of(manifest), versions_list, names, file_name@)
                &&& (match info.mc_version { Some(v) => Some(v@), None => None::<VersionV> }) == version_info(bytes@).0
                &&& info.java_min == version_info(bytes@).1
                &&& info.build_hint == build_spec(file_name@)
            },
            Err(_) => zip_entry_names(bytes@) is None,
        },
{
    let sha256 = sha256_hex(bytes);
    let size = bytes.len() as u64;
    let names = entry_names(bytes)?;
    let vj = match entry_text(bytes, "version.json") {
        Some(t) => version_json(t.as_str()),
        None => None,
    };
    let manifest = match entry_text(bytes, "META-INF/MANIFEST.MF") {
        Some(t) => t,
        None => String::new(),
    };
    let versions_list = match entry_text(bytes, "META-INF/versions.list") {
        Some(t) => t,
        None => String::new(),
    };
    let mc = main_class(manifest.as_str());
    let mc_s = string_from_chars(mc.as_slice());
    let platform = detect_platform(mc_s.as_str(), versions_list.as_str(), names.as_slice(), file_name);
    let (mc_version, java_min) = match vj {
        Some((id, java)) => {
            let v = match id {
                Some(i) => McVersion::parse(i.as_str()),
                None => None,
            };
            (v, java)
        },
        None => (None, None),
    };
    Ok(ServerJarInfo {
        build_hint: build_from_filename(file_name),
        file_name: String::from_str(file_name),
        platform,
        mc_version,
        java_min,
        sha256,
        size,
    })
}

} // verus!
