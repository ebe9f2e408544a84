//! mcplug: plugin and server-jar manager for Minecraft servers, verified core.

pub mod archive;
pub mod backup;
pub mod cli;
pub mod config;
pub mod control;
pub mod daemon;
pub mod digest;
pub mod json;
pub mod lockfile;
pub mod ops;
pub mod platform;
pub mod plugins;
pub mod server;
pub mod serverjar;
pub mod sources;
pub mod text;
pub mod transaction;
pub mod util;
pub mod yaml;
