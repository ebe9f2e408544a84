pub mod hash;
pub mod scan;

pub use hash::JarHashes;
pub use scan::{ScanResult, ScannedJar};
