//! Per-platform knowledge: where plugins live, how to read their descriptors, which
//! loaders/platform names to use when talking to plugin sources.

pub mod bukkit;

use vstd::prelude::*;
use crate::server::PlatformKind;
use crate::server::detect::bukkit_kind;

verus! {

/// What a plugin says about itself (`plugin.yml`, `paper-plugin.yml`, …).
#[derive(Debug, Clone, PartialEq, Eq)]
pub struct PluginDescriptor {
    pub name: String,
    pub version: Option<String>,
    /// Bukkit `api-version`: the minimum server version the plugin targets.
    pub api_version: Option<String>,
    pub authors: Vec<String>,
    pub website: Option<String>,
    pub depend: Vec<String>,
    pub softdepend: Vec<String>,
}

#[verifier::ext_equal]
pub struct DescriptorV {
    pub name: Seq<char>,
    pub version: Option<Seq<char>>,
    pub api_version: Option<Seq<char>>,
    pub authors: Seq<Seq<char>>,
    pub website: Option<Seq<char>>,
    pub depend: Seq<Seq<char>>,
    pub softdepend: Seq<Seq<char>>,
}

impl View for PluginDescriptor {
    type V = DescriptorV;

    open spec fn view(&self) -> DescriptorV {
        DescriptorV {
            name: self.name@,
            version: crate::text::opt_view(self.version),
            api_version: crate::text::opt_view(self.api_version),
            authors: crate::text::sviews(self.authors@),
            website: crate::text::opt_view(self.website),
            depend: crate::text::sviews(self.depend@),
            softdepend: crate::text::sviews(self.softdepend@),
        }
    }
}

#[derive(Debug, Clone, Copy, PartialEq, Eq, Structural)]
pub enum DescriptorCompat {
    /// Declared minimum is at or below the server version.
    Supported,
    /// Declared minimum is newer than the server.
    TooNew,
    Unknown,
}

/// The platform handler for a Bukkit-family server.
pub fn for_kind(kind: PlatformKind) -> (r: Option<bukkit::Bukkit>)
    ensures
        match r {
            Some(b) => bukkit_kind(kind) && b.kind == kind,
            None => !bukkit_kind(kind),
        },
{
    if kind.is_bukkit() {
        Some(bukkit::Bukkit { kind })
    } else {
        None
    }
}

} // verus!
