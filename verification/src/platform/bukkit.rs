//! Paper, Purpur, Folia, Pufferfish and Spigot: `plugins/*.jar`, each with a `plugin.yml`
//! (or a `paper-plugin.yml` for Paper-native plugins).

use vstd::prelude::*;
use crate::archive::{entry_text, zip_entry_text};
use crate::platform::{DescriptorCompat, DescriptorV, PluginDescriptor};
use crate::server::PlatformKind;
use crate::text::{clone_string, opt_view, sviews};
use crate::util::version::{older, parse_spec, McVersion};
use crate::yaml::{entry_views, yaml_mapping, yaml_top_level, YamlScalar, YamlScalarV, YamlValue, YamlValueV};

verus! {

#[derive(Debug, Clone, Copy)]
pub struct Bukkit {
    pub kind: PlatformKind,
}

pub open spec fn loaders_spec(k: PlatformKind) -> Seq<Seq<char>> {
    match k {
        PlatformKind::Folia => seq!["folia"@, "paper"@, "purpur"@, "spigot"@, "bukkit"@],
        PlatformKind::Purpur => seq!["purpur"@, "paper"@, "spigot"@, "bukkit"@],
        PlatformKind::Spigot => seq!["spigot"@, "bukkit"@],
        _ => seq!["paper"@, "purpur"@, "spigot"@, "bukkit"@],
    }
}

fn strings(xs: &[&str]) -> (r: Vec<String>)
    ensures
        sviews(r@) == xs@.map_values(|x: &str| x@),
{
    let mut out: Vec<String> = Vec::new();
    let mut i: usize = 0;
    while i < xs.len()
        invariant
            i <= xs@.len(),
            sviews(out@) == xs@.take(i as int).map_values(|x: &str| x@),
        decreases xs@.len() - i,
    {
        let ghost before = sviews(out@);
        let t = String::from_str(xs[i]);
        assert(t@ == xs@[i as int]@);
        out.push(t);
        assert(sviews(out@) =~= before.push(xs@[i as int]@));
        assert(xs@.take(i + 1) =~= xs@.take(i as int).push(xs@[i as int]));
        i = i + 1;
        assert(sviews(out@) =~= xs@.take(i as int).map_values(|x: &str| x@));
    }
    assert(xs@.take(xs@.len() as int) =~= xs@);
    out
}

/// The text a scalar stands for: strings and numbers as written, booleans as `true` or
/// `false`; nothing for anything else.
pub open spec fn scalar_text(v: YamlScalarV) -> Option<Seq<char>> {
    match v {
        YamlScalarV::Str(s) => Some(s),
        YamlScalarV::Num(s) => Some(s),
        YamlScalarV::Bool(b) => Some(if b { "true"@ } else { "false"@ }),
        YamlScalarV::Other => None,
    }
}

pub open spec fn scalar_of(v: Option<YamlValueV>) -> Option<Seq<char>> {
    match v {
        Some(YamlValueV::Scalar(s)) => scalar_text(s),
        _ => None,
    }
}

/// The scalars of a sequence, in order.
pub open spec fn scalars(items: Seq<YamlScalarV>) -> Seq<Seq<char>>
    decreases items.len(),
{
    if items.len() == 0 {
        Seq::empty()
    } else {
        let r = scalars(items.drop_last());
        match scalar_text(items.last()) {
            Some(t) => r.push(t),
            None => r,
        }
    }
}

/// A list read leniently: a sequence's scalars, or a lone scalar as a one-item list.
pub open spec fn list_of(v: Option<YamlValueV>) -> Seq<Seq<char>> {
    match v {
        Some(YamlValueV::List(items)) => scalars(items),
        Some(YamlValueV::Scalar(s)) => match scalar_text(s) {
            Some(t) => seq![t],
            None => Seq::empty(),
        },
        None => Seq::empty(),
    }
}

/// The value under `key`.
pub open spec fn lookup(doc: Seq<(Seq<char>, YamlValueV)>, key: Seq<char>) -> Option<YamlValueV>
    decreases doc.len(),
{
    if doc.len() == 0 {
        None
    } else if doc[0].0 == key {
        Some(doc[0].1)
    } else {
        lookup(doc.drop_first(), key)
    }
}

/// A descriptor read leniently from its keys: `name` is required; `authors` falls back to
/// `author`.
pub open spec fn descriptor_spec(doc: Seq<(Seq<char>, YamlValueV)>) -> Option<DescriptorV> {
    match scalar_of(lookup(doc, "name"@)) {
        Some(name) => Some(DescriptorV {
            name,
            version: scalar_of(lookup(doc, "version"@)),
            api_version: scalar_of(lookup(doc, "api-version"@)),
            authors: if list_of(lookup(doc, "authors"@)).len() > 0 {
                list_of(lookup(doc, "authors"@))
            } else {
                match scalar_of(lookup(doc, "author"@)) {
                    Some(a) => seq![a],
                    None => Seq::empty(),
                }
            },
            website: scalar_of(lookup(doc, "website"@)),
            depend: list_of(lookup(doc, "depend"@)),
            softdepend: list_of(lookup(doc, "softdepend"@)),
        }),
        None => None,
    }
}

fn scalar_exec(v: &YamlScalar) -> (r: Option<String>)
    ensures
        opt_view(r) == scalar_text(v@),
{
    proof {
        reveal_strlit("true");
        reveal_strlit("false");
    }
    match v {
        YamlScalar::Str(s) => Some(clone_string(s)),
        YamlScalar::Num(s) => Some(clone_string(s)),
        YamlScalar::Bool(b) => Some(String::from_str(if *b { "true" } else { "false" })),
        YamlScalar::Other => None,
    }
}

fn lookup_exec<'a>(doc: &'a Vec<(String, YamlValue)>, key: &str) -> (r: Option<&'a YamlValue>)
    ensures
        match lookup(entry_views(doc@), key@) {
            Some(v) => r matches Some(x) && x@ == v,
            None => r is None,
        },
{
    let ghost dv = entry_views(doc@);
    let mut i: usize = 0;
    assert(dv.skip(0) =~= dv);
    while i < doc.len()
        invariant
            i <= doc@.len(),
            dv == entry_views(doc@),
            lookup(dv, key@) == lookup(dv.skip(i as int), key@),
        decreases doc@.len() - i,
    {
        assert(dv.skip(i as int)[0] == (doc@[i as int].0@, doc@[i as int].1@));
        if crate::lockfile::str_eq(doc[i].0.as_str(), key) {
            return Some(&doc[i].1);
        }
        assert(dv.skip(i as int).drop_first() =~= dv.skip(i + 1));
        i = i + 1;
    }
    assert(dv.skip(i as int) =~= Seq::<(Seq<char>, YamlValueV)>::empty());
    None
}

fn scalar_key(doc: &Vec<(String, YamlValue)>, key: &str) -> (r: Option<String>)
    ensures
        opt_view(r) == scalar_of(lookup(entry_views(doc@), key@)),
{
    match lookup_exec(doc, key) {
        Some(YamlValue::Scalar(s)) => scalar_exec(s),
        _ => None,
    }
}

fn list_key(doc: &Vec<(String, YamlValue)>, key: &str) -> (r: Vec<String>)
    ensures
        sviews(r@) == list_of(lookup(entry_views(doc@), key@)),
{
    let mut out: Vec<String> = Vec::new();
    match lookup_exec(doc, key) {
        Some(YamlValue::List(items)) => {
            let ghost iv = items@.map_values(|x: YamlScalar| x@);
            let mut i: usize = 0;
            assert(iv.take(0) =~= Seq::<YamlScalarV>::empty());
            while i < items.len()
                invariant
                    i <= items@.len(),
                    iv == items@.map_values(|x: YamlScalar| x@),
                    sviews(out@) == scalars(iv.take(i as int)),
                decreases items@.len() - i,
            {
                assert(iv.take(i + 1).drop_last() =~= iv.take(i as int));
                assert(iv.take(i + 1).last() == items@[i as int]@);
                let ghost before = sviews(out@);
                match scalar_exec(&items[i]) {
                    Some(t) => {
                        out.push(t);
                        assert(sviews(out@) =~= before.push(out@[out@.len() - 1]@));
                    },
                    None => {},
                }
                i = i + 1;
            }
            assert(iv.take(items@.len() as int) =~= iv);
        },
        Some(YamlValue::Scalar(s)) => {
            match scalar_exec(s) {
                Some(t) => {
                    out.push(t);
                    assert(sviews(out@) =~= seq![out@[0]@]);
                },
                None => {
                    assert(sviews(out@) =~= Seq::<Seq<char>>::empty());
                },
            }
        },
        None => {
            assert(sviews(out@) =~= Seq::<Seq<char>>::empty());
        },
    }
    out
}

/// A plugin descriptor from a parsed `plugin.yml`: hand-written files are sloppy (numbers
/// as versions, a single string where a list is expected), so each key is read leniently.
pub fn descriptor_from_yaml(doc: &Vec<(String, YamlValue)>) -> (r: Option<PluginDescriptor>)
    ensures
        match descriptor_spec(entry_views(doc@)) {
            Some(d) => r matches Some(x) && x@ == d,
            None => r is None,
        },
{
    proof {
        reveal_strlit("name");
        reveal_strlit("version");
        reveal_strlit("api-version");
        reveal_strlit("authors");
        reveal_strlit("author");
        reveal_strlit("website");
        reveal_strlit("depend");
        reveal_strlit("softdepend");
    }
    let name = match scalar_key(doc, "name") {
        Some(n) => n,
        None => return None,
    };
    let mut authors = list_key(doc, "authors");
    if authors.len() == 0 {
        if let Some(a) = scalar_key(doc, "author") {
            authors.push(a);
            assert(sviews(authors@) =~= seq![authors@[0]@]);
        }
    }
    let d = PluginDescriptor {
        name,
        version: scalar_key(doc, "version"),
        api_version: scalar_key(doc, "api-version"),
        authors,
        website: scalar_key(doc, "website"),
        depend: list_key(doc, "depend"),
        softdepend: list_key(doc, "softdepend"),
    };
    assert(d@ =~= descriptor_spec(entry_views(doc@))->0);
    Some(d)
}

/// The descriptor document a jar provides: Spigot reads `plugin.yml`; the Paper family
/// prefers `paper-plugin.yml` and falls back to `plugin.yml`.
pub open spec fn chosen_doc(kind: PlatformKind, paper: Option<Seq<(Seq<char>, YamlValueV)>>, bukkit: Option<Seq<(Seq<char>, YamlValueV)>>) -> Option<Seq<(Seq<char>, YamlValueV)>> {
    if kind == PlatformKind::Spigot && bukkit is Some {
        bukkit
    } else if paper is Some {
        paper
    } else {
        bukkit
    }
}

/// A jar entry parsed as YAML.
pub open spec fn entry_doc(jar: Seq<u8>, name: Seq<char>) -> Option<Seq<(Seq<char>, YamlValueV)>> {
    match zip_entry_text(jar, name) {
        Some(t) => yaml_top_level(t),
        None => None,
    }
}

/// The descriptor a jar provides for a platform.
pub open spec fn jar_descriptor(kind: PlatformKind, jar: Seq<u8>) -> Option<DescriptorV> {
    match chosen_doc(kind, entry_doc(jar, "paper-plugin.yml"@), entry_doc(jar, "plugin.yml"@)) {
        Some(doc) => descriptor_spec(doc),
        None => None,
    }
}

/// A plugin descriptor from the text of a `plugin.yml`; `None` when the text is not a YAML
/// mapping or names no plugin.
pub fn descriptor_from_text(text: &str) -> (r: Option<PluginDescriptor>)
    ensures
        match yaml_top_level(text@) {
            Some(doc) => match descriptor_spec(doc) {
                Some(d) => r matches Some(x) && x@ == d,
                None => r is None,
            },
            None => r is None,
        },
{
    match yaml_mapping(text) {
        Some(doc) => descriptor_from_yaml(&doc),
        None => None,
    }
}

fn entry_yaml(jar: &[u8], name: &str) -> (r: Option<Vec<(String, YamlValue)>>)
    ensures
        match r {
            Some(d) => entry_doc(jar@, name@) == Some(entry_views(d@)),
            None => entry_doc(jar@, name@) is None,
        },
{
    match entry_text(jar, name) {
        Some(t) => yaml_mapping(t.as_str()),
        None => None,
    }
}

impl Bukkit {
    pub fn plugin_dir_name(&self) -> (r: &'static str)
        ensures
            r@ == "plugins"@,
    {
        "plugins"
    }

    /// Modrinth loader names, most specific first.
    pub fn modrinth_loaders(&self) -> (r: Vec<String>)
        ensures
            sviews(r@) == loaders_spec(self.kind),
    {
        let xs: Vec<&str> = match self.kind {
            PlatformKind::Folia => vec!["folia", "paper", "purpur", "spigot", "bukkit"],
            PlatformKind::Purpur => vec!["purpur", "paper", "spigot", "bukkit"],
            PlatformKind::Spigot => vec!["spigot", "bukkit"],
            _ => vec!["paper", "purpur", "spigot", "bukkit"],
        };
        proof {
            reveal_strlit("folia");
            reveal_strlit("paper");
            reveal_strlit("purpur");
            reveal_strlit("spigot");
            reveal_strlit("bukkit");
        }
        let r = strings(xs.as_slice());
        assert(sviews(r@) =~= loaders_spec(self.kind));
        r
    }

    pub fn hangar_platform(&self) -> (r: Option<&'static str>)
        ensures
            r matches Some(p) && p@ == "PAPER"@,
    {
        Some("PAPER")
    }

    /// Subdirectories of the plugin directory that are never scanned.
    pub fn ignored_subdirs(&self) -> (r: Vec<String>)
        ensures
            sviews(r@) == seq![".paper-remapped"@, ".mcplug"@, "update"@, "disabled"@],
    {
        let xs: Vec<&str> = vec![".paper-remapped", ".mcplug", "update", "disabled"];
        let r = strings(xs.as_slice());
        assert(sviews(r@) =~= seq![".paper-remapped"@, ".mcplug"@, "update"@, "disabled"@]);
        r
    }

    /// Whether the descriptor's `api-version` claims a server no newer than `mc`.
    pub fn descriptor_compat(&self, d: &PluginDescriptor, mc: &McVersion) -> (r: DescriptorCompat)
        ensures
            r == match d@.api_version {
                Some(a) => match parse_spec(a) {
                    Some(api) => if older(mc@, api) { DescriptorCompat::TooNew } else { DescriptorCompat::Supported },
                    None => DescriptorCompat::Unknown,
                },
                None => DescriptorCompat::Unknown,
            },
    {
        match &d.api_version {
            Some(a) => match McVersion::parse(a.as_str()) {
                Some(api) => if mc.older_than(&api) { DescriptorCompat::TooNew } else { DescriptorCompat::Supported },
                None => DescriptorCompat::Unknown,
            },
            None => DescriptorCompat::Unknown,
        }
    }

    /// The plugin descriptor inside a jar, if it has one for this platform.
    pub fn read_descriptor(&self, jar: &[u8]) -> (r: Option<PluginDescriptor>)
        ensures
            match jar_descriptor(self.kind, jar@) {
                Some(d) => r matches Some(x) && x@ == d,
                None => r is None,
            },
    {
        let paper = entry_yaml(jar, "paper-plugin.yml");
        let bukkit = entry_yaml(jar, "plugin.yml");
        let doc = match (self.kind, paper, bukkit) {
            (PlatformKind::Spigot, _, Some(b)) => b,
            (_, Some(p), _) => p,
            (_, None, Some(b)) => b,
            _ => return None,
        };
        descriptor_from_yaml(&doc)
    }
}

} // verus!
