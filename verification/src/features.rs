//! Feature flags that select which OBJ directives a parse records.

use vstd::prelude::*;

verus! {

/// No optional feature: only `v` and `f` lines contribute to the result.
pub const NONE: u32 = 0x0000;

/// Record `vn` lines and emit a normal buffer when at least one normal is referenced.
pub const LOAD_VERTEX_NORMALS: u32 = 0x0001;

/// Record `vt` lines and emit a texcoord buffer when at least one texcoord is referenced.
pub const LOAD_VERTEX_TEXCOORDS: u32 = 0x0002;

/// Honor `o` directives: partition the triangle indices per named object.
pub const LOAD_OBJECTS: u32 = 0x0100;

/// Recognized only together with `LOAD_OBJECTS`; `g` lines currently have no effect.
pub const LOAD_GROUPS: u32 = 0x0200;

/// Recognized; `mtllib` lines currently have no effect.
pub const LOAD_MATERIALS: u32 = 0x0400;

/// Union of all recognized features.
pub const LOAD_ALL: u32 = LOAD_VERTEX_NORMALS | LOAD_VERTEX_TEXCOORDS | LOAD_OBJECTS
    | LOAD_GROUPS | LOAD_MATERIALS;

/// A set of parse features, stored as a bitset over the `LOAD_*` constants.
#[derive(Clone, Copy, PartialEq, Eq, Structural, Debug)]
pub struct ObjParseFeatures {
    pub bits: u32,
}

impl ObjParseFeatures {
    /// True when `vt` lines are recorded.
    pub open spec fn spec_loads_texcoords(self) -> bool {
        self.bits & LOAD_VERTEX_TEXCOORDS != 0
    }

    /// True when `vn` lines are recorded.
    pub open spec fn spec_loads_normals(self) -> bool {
        self.bits & LOAD_VERTEX_NORMALS != 0
    }

    /// True when `o` lines partition the output indices.
    pub open spec fn spec_loads_objects(self) -> bool {
        self.bits & LOAD_OBJECTS != 0
    }

    /// True when `g` lines are recognized (requires object loading too).
    pub open spec fn spec_loads_groups(self) -> bool {
        self.spec_loads_objects() && self.bits & LOAD_GROUPS != 0
    }

    /// True when `mtllib` lines are recognized.
    pub open spec fn spec_loads_materials(self) -> bool {
        self.bits & LOAD_MATERIALS != 0
    }

    pub fn new(bits: u32) -> (r: ObjParseFeatures)
        ensures
            r.bits == bits,
    {
        ObjParseFeatures { bits }
    }

    pub fn loads_texcoords(self) -> (r: bool)
        ensures
            r == self.spec_loads_texcoords(),
    {
        self.bits & LOAD_VERTEX_TEXCOORDS != 0
    }

    pub fn loads_normals(self) -> (r: bool)
        ensures
            r == self.spec_loads_normals(),
    {
        self.bits & LOAD_VERTEX_NORMALS != 0
    }

    pub fn loads_objects(self) -> (r: bool)
        ensures
            r == self.spec_loads_objects(),
    {
        self.bits & LOAD_OBJECTS != 0
    }

    pub fn loads_groups(self) -> (r: bool)
        ensures
            r == self.spec_loads_groups(),
    {
        self.loads_objects() && self.bits & LOAD_GROUPS != 0
    }

    pub fn loads_materials(self) -> (r: bool)
        ensures
            r == self.spec_loads_materials(),
    {
        self.bits & LOAD_MATERIALS != 0
    }
}

} // verus!
