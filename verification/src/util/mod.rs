pub mod path;
pub mod slug;
pub mod sort;
pub mod version;

pub use version::McVersion;
