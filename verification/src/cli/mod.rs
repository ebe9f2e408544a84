//! What the command line asks for, and the decisions it makes before handing work on.

pub mod jar;
pub mod scan;
pub mod update;
