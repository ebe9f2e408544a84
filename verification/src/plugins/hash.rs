use vstd::prelude::*;
use crate::digest::{hex_lower, sha1_hex, sha1_of, sha256_hex, sha256_of, sha512_hex, sha512_of};

verus! {

/// All three digests sources care about.
#[derive(Debug, Clone, PartialEq, Eq)]
pub struct JarHashes {
    pub sha1: String,
    pub sha256: String,
    pub sha512: String,
    pub size: u64,
}

#[verifier::ext_equal]
pub struct JarHashesV {
    pub sha1: Seq<char>,
    pub sha256: Seq<char>,
    pub sha512: Seq<char>,
    pub size: u64,
}

impl View for JarHashes {
    type V = JarHashesV;

    open spec fn view(&self) -> JarHashesV {
        JarHashesV { sha1: self.sha1@, sha256: self.sha256@, sha512: self.sha512@, size: self.size }
    }
}

/// The digests of some bytes, in lowercase hex, and their number.
pub open spec fn hashes_of(b: Seq<u8>) -> JarHashesV {
    JarHashesV {
        sha1: hex_lower(sha1_of(b)),
        sha256: hex_lower(sha256_of(b)),
        sha512: hex_lower(sha512_of(b)),
        size: b.len() as u64,
    }
}

impl JarHashes {
    pub fn copy(&self) -> (r: JarHashes)
        ensures
            r@ == self@,
    {
        JarHashes { sha1: self.sha1.clone(), sha256: self.sha256.clone(), sha512: self.sha512.clone(), size: self.size }
    }

    pub fn of_bytes(bytes: &[u8]) -> (r: Self)
        ensures
            r.sha1@ == hex_lower(sha1_of(bytes@)),
            r.sha256@ == hex_lower(sha256_of(bytes@)),
            r.sha512@ == hex_lower(sha512_of(bytes@)),
            r.size == bytes@.len(),
            r@ == hashes_of(bytes@),
    {
        JarHashes { sha1: sha1_hex(bytes), sha256: sha256_hex(bytes), sha512: sha512_hex(bytes), size: bytes.len() as u64 }
    }
}

} // verus!
