//! Plugin sources: Modrinth, Hangar, GitHub releases, GeyserMC downloads. The network
//! clients live with the caller; this module holds what the library decides about
//! what they return.

pub mod geysermc;
pub mod github;
pub mod hangar;
pub mod http;
pub mod identify;
pub mod model;
pub mod modrinth;
pub mod resolve;
pub mod weburl;

pub use model::{Candidate, Compat, CompatCtx, Confidence, Dependency, DependencyKind, ProjectLocator, ProjectRef, ResolvedVersion, SourceKind, VersionFile};
