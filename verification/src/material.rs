//! Material resources. Materials themselves are out of the parser's
//! scope: `mtllib` lines are recognized and ignored.

use vstd::prelude::*;

verus! {

/// The raw bytes of a texture image; reading them from a file is a
/// collaborator's affair at the boundary.
#[derive(Debug)]
pub struct ObjTexture {
    pub data: Vec<u8>,
}

impl ObjTexture {
    /// Wraps loaded texture bytes.
    pub fn new(data: Vec<u8>) -> (t: ObjTexture)
        ensures
            t.data@ == data@,
    {
        ObjTexture { data }
    }
}

} // verus!
