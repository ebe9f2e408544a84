//! Whether mcplug can write into a server's plugin directory.

use vstd::prelude::*;

verus! {

/// What probing the plugin directory found.
#[derive(Debug, Clone)]
pub enum Access {
    ReadWrite,
    ReadOnly { reason: String },
    Missing,
}

impl Access {
    pub fn writable(&self) -> (r: bool)
        ensures
            r == (*self is ReadWrite),
    {
        match self {
            Access::ReadWrite => true,
            _ => false,
        }
    }
}

} // verus!
