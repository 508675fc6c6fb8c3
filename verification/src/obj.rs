//! The parse engine: directive dispatch, attribute pools, face
//! resolution, vertex canonicalization, fan triangulation and result
//! assembly, all against one mathematical model of the parse.
//!
//! Float components are validated against the decimal-float grammar and
//! carried as their original byte tokens; turning a token into a binary
//! float value is left to the caller at the boundary.

use vstd::prelude::*;

use crate::canon::VertexCanonicalizer;
use crate::error::{ErrView, NumericKind, ObjParseError};
use crate::face::{
    read_face, resolve_index, spec_read_face, spec_resolve_index, ObjVertexAbsolute,
    ObjVertexRelative,
};
use crate::features::ObjParseFeatures;
use crate::numeric::{check_float_token, is_float_token};
use crate::split::{byte_is_space, byte_views, bytes_eq, copy_bytes, is_space, spec_lines, spec_tokens, split_lines, split_tokens};
use vstd::slice::slice_subrange;

verus! {

/// Pools and canonical output slots are addressed by 32-bit indices;
/// a parse that would outgrow this range is refused.
pub const INDEX_LIMIT: usize = 0xFFFF_FFFF;

/// A pair of components.
#[derive(Clone, Copy, PartialEq, Eq, Debug)]
pub struct Vector2<T> {
    pub x: T,
    pub y: T,
}

/// A triple of components.
#[derive(Clone, Copy, PartialEq, Eq, Debug)]
pub struct Vector3<T> {
    pub x: T,
    pub y: T,
    pub z: T,
}

impl<T> Vector2<T> {
    pub fn new(x: T, y: T) -> (v: Vector2<T>)
        ensures
            v.x == x,
            v.y == y,
    {
        Vector2 { x, y }
    }
}

impl<T> Vector3<T> {
    pub fn new(x: T, y: T, z: T) -> (v: Vector3<T>)
        ensures
            v.x == x,
            v.y == y,
            v.z == z,
    {
        Vector3 { x, y, z }
    }
}

/// One named partition of the output triangles.
#[derive(Debug)]
pub struct ObjObject {
    /// The object's name; the initial default object has an empty name.
    pub name: Vec<u8>,
    /// Flat triangle indices, three per triangle, into the output
    /// vertex slots.
    pub indices: Vec<u32>,
}

/// What one parse call returns: canonical output buffers and the
/// triangle indices, grouped per object.
#[derive(Debug)]
pub struct ObjParseResult {
    /// The objects in order of first appearance; an empty default
    /// object is dropped.
    pub objects: Vec<ObjObject>,
    /// Position components as float tokens, three per output vertex.
    pub vertex_buffer: Vec<Vec<u8>>,
    /// Texcoord components as float tokens, two per output vertex;
    /// absent unless texcoord loading was enabled and one was referenced.
    pub texcoord_buffer: Option<Vec<Vec<u8>>>,
    /// Normal components as float tokens, three per output vertex;
    /// absent unless normal loading was enabled and one was referenced.
    pub normal_buffer: Option<Vec<Vec<u8>>>,
}

/// The mathematical shape of one object partition.
#[verifier::ext_equal]
pub struct ObjObjectModel {
    pub name: Seq<u8>,
    pub indices: Seq<u32>,
}

/// The mathematical shape of a parse result.
#[verifier::ext_equal]
pub struct ObjResultModel {
    pub objects: Seq<ObjObjectModel>,
    pub vertex_buffer: Seq<Seq<u8>>,
    pub texcoord_buffer: Option<Seq<Seq<u8>>>,
    pub normal_buffer: Option<Seq<Seq<u8>>>,
}

/// The state of a parse after some prefix of the lines: the three
/// attribute pools in file order, the canonicalization map, the
/// canonical output buffers, and the object partitions.
#[verifier::ext_equal]
pub struct ObjModel {
    pub positions: Seq<(Seq<u8>, Seq<u8>, Seq<u8>)>,
    pub texcoords: Seq<(Seq<u8>, Seq<u8>)>,
    pub normals: Seq<(Seq<u8>, Seq<u8>, Seq<u8>)>,
    pub vmap: Map<ObjVertexAbsolute, u32>,
    pub out_positions: Seq<Seq<u8>>,
    pub out_texcoords: Seq<Seq<u8>>,
    pub out_normals: Seq<Seq<u8>>,
    pub objects: Seq<ObjObjectModel>,
    pub current: int,
}

impl View for ObjObject {
    type V = ObjObjectModel;

    open spec fn view(&self) -> ObjObjectModel {
        ObjObjectModel { name: self.name@, indices: self.indices@ }
    }
}

/// The byte sequences denoted by a sequence of owned byte vectors.
pub open spec fn vec_byte_views(s: Seq<Vec<u8>>) -> Seq<Seq<u8>> {
    Seq::new(s.len(), |i: int| s[i]@)
}

/// The models of a sequence of object partitions.
pub open spec fn objects_views(s: Seq<ObjObject>) -> Seq<ObjObjectModel> {
    Seq::new(s.len(), |i: int| s[i]@)
}

impl View for ObjParseResult {
    type V = ObjResultModel;

    open spec fn view(&self) -> ObjResultModel {
        ObjResultModel {
            objects: objects_views(self.objects@),
            vertex_buffer: vec_byte_views(self.vertex_buffer@),
            texcoord_buffer: match self.texcoord_buffer {
                Some(v) => Some(vec_byte_views(v@)),
                None => None,
            },
            normal_buffer: match self.normal_buffer {
                Some(v) => Some(vec_byte_views(v@)),
                None => None,
            },
        }
    }
}

/// The state before any line: empty pools, an empty map, and one
/// unnamed default object.
pub open spec fn init_model() -> ObjModel {
    ObjModel {
        positions: Seq::empty(),
        texcoords: Seq::empty(),
        normals: Seq::empty(),
        vmap: Map::empty(),
        out_positions: Seq::empty(),
        out_texcoords: Seq::empty(),
        out_normals: Seq::empty(),
        objects: seq![ObjObjectModel { name: Seq::empty(), indices: Seq::empty() }],
        current: 0,
    }
}

/// Reads three float tokens from a directive's arguments; further
/// arguments are ignored. A malformed token is reported where it is
/// met; a short argument list is reported after the valid tokens.
pub open spec fn spec_float3(args: Seq<Seq<u8>>) -> Result<(Seq<u8>, Seq<u8>, Seq<u8>), ErrView> {
    if args.len() >= 1 && !is_float_token(args[0]) {
        Err(ErrView::NumberFormat { token: args[0], kind: NumericKind::Float })
    } else if args.len() >= 2 && !is_float_token(args[1]) {
        Err(ErrView::NumberFormat { token: args[1], kind: NumericKind::Float })
    } else if args.len() >= 3 && !is_float_token(args[2]) {
        Err(ErrView::NumberFormat { token: args[2], kind: NumericKind::Float })
    } else if args.len() < 3 {
        Err(ErrView::InsufficientVertexCoordinates { required: 3, found: args.len() as int })
    } else {
        Ok((args[0], args[1], args[2]))
    }
}

/// Reads two float tokens from a directive's arguments, as
/// [`spec_float3`] does three.
pub open spec fn spec_float2(args: Seq<Seq<u8>>) -> Result<(Seq<u8>, Seq<u8>), ErrView> {
    if args.len() >= 1 && !is_float_token(args[0]) {
        Err(ErrView::NumberFormat { token: args[0], kind: NumericKind::Float })
    } else if args.len() >= 2 && !is_float_token(args[1]) {
        Err(ErrView::NumberFormat { token: args[1], kind: NumericKind::Float })
    } else if args.len() < 2 {
        Err(ErrView::InsufficientVertexCoordinates { required: 2, found: args.len() as int })
    } else {
        Ok((args[0], args[1]))
    }
}

/// A `v` line: three position components appended to the position pool.
pub open spec fn spec_v_step(m: ObjModel, args: Seq<Seq<u8>>) -> Result<ObjModel, ErrView> {
    match spec_float3(args) {
        Err(e) => Err(e),
        Ok(t) => if m.positions.len() >= INDEX_LIMIT as int {
            Err(ErrView::TooManyVertices)
        } else {
            Ok(ObjModel { positions: m.positions.push(t), ..m })
        },
    }
}

/// A `vt` line with texcoord loading enabled: two components appended
/// to the texcoord pool.
pub open spec fn spec_vt_step(m: ObjModel, args: Seq<Seq<u8>>) -> Result<ObjModel, ErrView> {
    match spec_float2(args) {
        Err(e) => Err(e),
        Ok(t) => if m.texcoords.len() >= INDEX_LIMIT as int {
            Err(ErrView::TooManyVertices)
        } else {
            Ok(ObjModel { texcoords: m.texcoords.push(t), ..m })
        },
    }
}

/// A `vn` line with normal loading enabled: three components appended
/// to the normal pool.
pub open spec fn spec_vn_step(m: ObjModel, args: Seq<Seq<u8>>) -> Result<ObjModel, ErrView> {
    match spec_float3(args) {
        Err(e) => Err(e),
        Ok(t) => if m.normals.len() >= INDEX_LIMIT as int {
            Err(ErrView::TooManyVertices)
        } else {
            Ok(ObjModel { normals: m.normals.push(t), ..m })
        },
    }
}

/// Resolves one corner: the position always, the texcoord and normal
/// components only when their features are enabled — a component of a
/// kind that is not loaded is ignored entirely.
pub open spec fn spec_resolve_corner(
    m: ObjModel,
    c: ObjVertexRelative,
    f: ObjParseFeatures,
) -> Result<ObjVertexAbsolute, ErrView> {
    match spec_resolve_index(c.position_index as int, m.positions.len() as int) {
        Err(e) => Err(e),
        Ok(p) => {
            let t = if f.spec_loads_texcoords() && c.texcoord_index is Some {
                match spec_resolve_index(c.texcoord_index->0 as int, m.texcoords.len() as int) {
                    Err(e) => Err(e),
                    Ok(t) => Ok(Some(t as u32)),
                }
            } else {
                Ok(None)
            };
            match t {
                Err(e) => Err(e),
                Ok(t) => {
                    let nm = if f.spec_loads_normals() && c.normal_index is Some {
                        match spec_resolve_index(
                            c.normal_index->0 as int,
                            m.normals.len() as int,
                        ) {
                            Err(e) => Err(e),
                            Ok(v) => Ok(Some(v as u32)),
                        }
                    } else {
                        Ok(None)
                    };
                    match nm {
                        Err(e) => Err(e),
                        Ok(nm) => Ok(
                            ObjVertexAbsolute {
                                position_index: p as u32,
                                texcoord_index: t,
                                normal_index: nm,
                            },
                        ),
                    }
                },
            }
        },
    }
}

/// Resolves the corners of one face from index `i` on.
pub open spec fn spec_resolve_corners(
    m: ObjModel,
    rel: Seq<ObjVertexRelative>,
    i: int,
    f: ObjParseFeatures,
) -> Result<Seq<ObjVertexAbsolute>, ErrView>
    decreases rel.len() - i,
{
    if i < 0 || i >= rel.len() {
        Ok(Seq::<ObjVertexAbsolute>::empty())
    } else {
        match spec_resolve_corner(m, rel[i], f) {
            Err(e) => Err(e),
            Ok(a) => match spec_resolve_corners(m, rel, i + 1, f) {
                Err(e) => Err(e),
                Ok(rest) => Ok(seq![a] + rest),
            },
        }
    }
}

/// Canonicalizes one resolved corner: a key already seen keeps its
/// output index and leaves the buffers untouched; a fresh key appends
/// its components to the output buffers and takes the next index.
pub open spec fn spec_canon_corner(m: ObjModel, k: ObjVertexAbsolute) -> Result<
    (ObjModel, u32),
    ErrView,
> {
    if m.vmap.contains_key(k) {
        Ok((m, m.vmap[k]))
    } else {
        let next = m.out_positions.len() as int / 3;
        if next >= INDEX_LIMIT as int {
            Err(ErrView::TooManyVertices)
        } else {
            let p = m.positions[k.position_index as int];
            let m2 = ObjModel {
                vmap: m.vmap.insert(k, next as u32),
                out_positions: m.out_positions + seq![p.0, p.1, p.2],
                out_texcoords: match k.texcoord_index {
                    Some(t) => {
                        let tc = m.texcoords[t as int];
                        m.out_texcoords + seq![tc.0, tc.1]
                    },
                    None => m.out_texcoords,
                },
                out_normals: match k.normal_index {
                    Some(nv) => {
                        let nn = m.normals[nv as int];
                        m.out_normals + seq![nn.0, nn.1, nn.2]
                    },
                    None => m.out_normals,
                },
                ..m
            };
            Ok((m2, next as u32))
        }
    }
}

/// Canonicalizes the resolved corners of one face from index `i` on,
/// yielding the updated state and the corners' output indices.
pub open spec fn spec_canon_corners(m: ObjModel, abs: Seq<ObjVertexAbsolute>, i: int) -> Result<
    (ObjModel, Seq<u32>),
    ErrView,
>
    decreases abs.len() - i,
{
    if i < 0 || i >= abs.len() {
        Ok((m, Seq::<u32>::empty()))
    } else {
        match spec_canon_corner(m, abs[i]) {
            Err(e) => Err(e),
            Ok((m2, idx)) => match spec_canon_corners(m2, abs, i + 1) {
                Err(e) => Err(e),
                Ok((m3, rest)) => Ok((m3, seq![idx] + rest)),
            },
        }
    }
}

/// Fan triangulation of `n >= 3` corners: `n - 2` triangles, the
/// `t`-th being `(corner 0, corner t+2, corner t+1)` — the last two
/// corners stand swapped, a deliberate winding-order flip.
pub open spec fn spec_fan_triangles(c: Seq<u32>) -> Seq<u32> {
    if c.len() < 2 {
        Seq::<u32>::empty()
    } else {
        Seq::new(
            (3 * (c.len() - 2)) as nat,
            |j: int|
                if j % 3 == 0 {
                    c[0]
                } else if j % 3 == 1 {
                    c[j / 3 + 2]
                } else {
                    c[j / 3 + 1]
                },
        )
    }
}

/// An `f` line: read the corners, require at least three, resolve
/// them, canonicalize them, and append the fan triangles to the
/// current object.
pub open spec fn spec_face_step(
    m: ObjModel,
    corners: Seq<Seq<u8>>,
    f: ObjParseFeatures,
) -> Result<ObjModel, ErrView> {
    match spec_read_face(corners) {
        Err(e) => Err(e),
        Ok((rel, shape)) => if rel.len() < 3 {
            Err(ErrView::InsufficientFaceCorners { found: rel.len() as int })
        } else {
            match spec_resolve_corners(m, rel, 0, f) {
                Err(e) => Err(e),
                Ok(abs) => match spec_canon_corners(m, abs, 0) {
                    Err(e) => Err(e),
                    Ok((m3, idxs)) => {
                        let obj = m3.objects[m3.current];
                        Ok(
                            ObjModel {
                                objects: m3.objects.update(
                                    m3.current,
                                    ObjObjectModel {
                                        name: obj.name,
                                        indices: obj.indices + spec_fan_triangles(idxs),
                                    },
                                ),
                                ..m3
                            },
                        )
                    },
                },
            }
        },
    }
}

/// The first index at or after `i` that does not hold whitespace,
/// clamped to the end of the line.
pub open spec fn first_non_space(s: Seq<u8>, i: int) -> int
    decreases s.len() - i,
{
    if 0 <= i < s.len() && is_space(s[i]) {
        first_non_space(s, i + 1)
    } else {
        i
    }
}

/// The name on an `o` line: everything after the directive token and
/// the whitespace that follows it, to the end of the line.
pub open spec fn spec_object_name(line: Seq<u8>) -> Seq<u8> {
    let a = first_non_space(line, 0);
    if a >= line.len() {
        Seq::<u8>::empty()
    } else {
        let b = first_non_space(line, a + 1);
        line.subrange(b, line.len() as int)
    }
}

/// The first object with the given name, if any.
pub open spec fn spec_find_object(objs: Seq<ObjObjectModel>, name: Seq<u8>, i: int) -> Option<int>
    decreases objs.len() - i,
{
    if i < 0 || i >= objs.len() {
        None
    } else if objs[i].name == name {
        Some(i)
    } else {
        spec_find_object(objs, name, i + 1)
    }
}

/// An `o` line with object loading enabled: switch to the object of
/// that name, creating it if it is new. This starts or resumes the
/// partition; it never fails.
pub open spec fn spec_o_step(m: ObjModel, line: Seq<u8>) -> ObjModel {
    let name = spec_object_name(line);
    match spec_find_object(m.objects, name, 0) {
        Some(j) => ObjModel { current: j, ..m },
        None => ObjModel {
            objects: m.objects.push(ObjObjectModel { name, indices: Seq::empty() }),
            current: m.objects.len() as int,
            ..m
        },
    }
}

/// One line of the input: tokens are split on whitespace, the first
/// token picks the directive. `vt` and `vn` lines are skipped entirely
/// when their feature is off; `g` and `mtllib` are recognized but have
/// no effect; unknown directives are ignored.
pub open spec fn spec_line_step(m: ObjModel, line: Seq<u8>, f: ObjParseFeatures) -> Result<
    ObjModel,
    ErrView,
> {
    let toks = spec_tokens(line);
    if toks.len() == 0 {
        Ok(m)
    } else {
        let cmd = toks[0];
        if cmd == seq![118u8] {
            spec_v_step(m, toks.drop_first())
        } else if cmd == seq![118u8, 116u8] {
            if f.spec_loads_texcoords() {
                spec_vt_step(m, toks.drop_first())
            } else {
                Ok(m)
            }
        } else if cmd == seq![118u8, 110u8] {
            if f.spec_loads_normals() {
                spec_vn_step(m, toks.drop_first())
            } else {
                Ok(m)
            }
        } else if cmd == seq![102u8] {
            spec_face_step(m, toks.drop_first(), f)
        } else if cmd == seq![111u8] && f.spec_loads_objects() {
            Ok(spec_o_step(m, line))
        } else {
            Ok(m)
        }
    }
}

/// The lines of the input folded over [`spec_line_step`]; the first
/// error aborts the parse.
pub open spec fn spec_run(m: ObjModel, lines: Seq<Seq<u8>>, f: ObjParseFeatures) -> Result<
    ObjModel,
    ErrView,
>
    decreases lines.len(),
{
    if lines.len() == 0 {
        Ok(m)
    } else {
        match spec_line_step(m, lines[0], f) {
            Err(e) => Err(e),
            Ok(m2) => spec_run(m2, lines.drop_first(), f),
        }
    }
}

/// Assembles the final state into a result: the default object is
/// dropped when it holds no triangle; an optional buffer is present
/// exactly when its feature was enabled and at least one of its
/// attributes was referenced.
pub open spec fn spec_finish(m: ObjModel, f: ObjParseFeatures) -> ObjResultModel {
    ObjResultModel {
        objects: if m.objects[0].indices.len() == 0 {
            m.objects.drop_first()
        } else {
            m.objects
        },
        vertex_buffer: m.out_positions,
        texcoord_buffer: if f.spec_loads_texcoords() && m.out_texcoords.len() > 0 {
            Some(m.out_texcoords)
        } else {
            None
        },
        normal_buffer: if f.spec_loads_normals() && m.out_normals.len() > 0 {
            Some(m.out_normals)
        } else {
            None
        },
    }
}

/// What parsing a whole buffer yields.
pub open spec fn spec_parse_obj(input: Seq<u8>, f: ObjParseFeatures) -> Result<
    ObjResultModel,
    ErrView,
> {
    match spec_run(init_model(), spec_lines(input), f) {
        Err(e) => Err(e),
        Ok(m) => Ok(spec_finish(m, f)),
    }
}

/// Reads the three float tokens of a `v` or `vn` line's arguments.
pub fn read_vertex(args: &[&[u8]]) -> (r: Result<(Vec<u8>, Vec<u8>, Vec<u8>), ObjParseError>)
    ensures
        match spec_float3(byte_views(args@)) {
            Ok(t) => r is Ok && r->Ok_0.0@ == t.0 && r->Ok_0.1@ == t.1 && r->Ok_0.2@ == t.2,
            Err(e) => r is Err && r->Err_0@ == e,
        },
{
    let n = args.len();
    if n >= 1 && !check_float_token(args[0]) {
        return Err(
            ObjParseError::NumberFormat { token: copy_bytes(args[0]), kind: NumericKind::Float },
        );
    }
    if n >= 2 && !check_float_token(args[1]) {
        return Err(
            ObjParseError::NumberFormat { token: copy_bytes(args[1]), kind: NumericKind::Float },
        );
    }
    if n >= 3 && !check_float_token(args[2]) {
        return Err(
            ObjParseError::NumberFormat { token: copy_bytes(args[2]), kind: NumericKind::Float },
        );
    }
    if n < 3 {
        return Err(ObjParseError::InsufficientVertexCoordinates { required: 3, found: n });
    }
    Ok((copy_bytes(args[0]), copy_bytes(args[1]), copy_bytes(args[2])))
}

/// Reads the two float tokens of a `vt` line's arguments.
pub fn read_vertex_texcoord(args: &[&[u8]]) -> (r: Result<(Vec<u8>, Vec<u8>), ObjParseError>)
    ensures
        match spec_float2(byte_views(args@)) {
            Ok(t) => r is Ok && r->Ok_0.0@ == t.0 && r->Ok_0.1@ == t.1,
            Err(e) => r is Err && r->Err_0@ == e,
        },
{
    let n = args.len();
    if n >= 1 && !check_float_token(args[0]) {
        return Err(
            ObjParseError::NumberFormat { token: copy_bytes(args[0]), kind: NumericKind::Float },
        );
    }
    if n >= 2 && !check_float_token(args[1]) {
        return Err(
            ObjParseError::NumberFormat { token: copy_bytes(args[1]), kind: NumericKind::Float },
        );
    }
    if n < 2 {
        return Err(ObjParseError::InsufficientVertexCoordinates { required: 2, found: n });
    }
    Ok((copy_bytes(args[0]), copy_bytes(args[1])))
}

/// Appends the fan triangulation of `corners` to `out`: `n - 2`
/// triangles, each `(corner 0, corner i, corner i - 1)`.
pub fn triangulate_fan(corners: &[u32], out: &mut Vec<u32>)
    requires
        corners@.len() >= 3,
    ensures
        final(out)@ == old(out)@ + spec_fan_triangles(corners@),
{
    let n = corners.len();
    let ghost base = out@;
    let ghost fan = spec_fan_triangles(corners@);
    let c0 = corners[0];
    let mut i: usize = 2;
    while i < n
        invariant
            2 <= i <= n,
            n == corners@.len(),
            n >= 3,
            c0 == corners@[0],
            fan == spec_fan_triangles(corners@),
            fan.len() == 3 * (n - 2),
            out@.len() == base.len() + 3 * (i - 2),
            forall|j: int| 0 <= j < base.len() ==> out@[j] == base[j],
            forall|j: int| 0 <= j < 3 * (i - 2) ==> out@[base.len() + j] == fan[j],
        decreases n - i,
    {
        out.push(c0);
        out.push(corners[i]);
        out.push(corners[i - 1]);
        proof {
            let j0 = 3 * (i - 2);
            assert(fan[j0] == corners@[0]);
            assert((j0 + 1) / 3 == i - 2 && (j0 + 1) % 3 == 1);
            assert(fan[j0 + 1] == corners@[i as int]);
            assert((j0 + 2) / 3 == i - 2 && (j0 + 2) % 3 == 2);
            assert(fan[j0 + 2] == corners@[i - 1]);
        }
        i = i + 1;
    }
    proof {
        assert(out@ =~= base + fan);
    }
}

/// The working state of one parse call: the attribute pools, the
/// canonicalization table, the canonical output buffers, and the
/// object partitions (names and index streams side by side).
struct ParserState {
    positions: Vec<(Vec<u8>, Vec<u8>, Vec<u8>)>,
    texcoords: Vec<(Vec<u8>, Vec<u8>)>,
    normals: Vec<(Vec<u8>, Vec<u8>, Vec<u8>)>,
    canon: VertexCanonicalizer,
    out_positions: Vec<Vec<u8>>,
    out_texcoords: Vec<Vec<u8>>,
    out_normals: Vec<Vec<u8>>,
    object_names: Vec<Vec<u8>>,
    object_indices: Vec<Vec<u32>>,
    current: usize,
}

impl View for ParserState {
    type V = ObjModel;

    closed spec fn view(&self) -> ObjModel {
        ObjModel {
            positions: Seq::new(
                self.positions@.len(),
                |i: int| (self.positions@[i].0@, self.positions@[i].1@, self.positions@[i].2@),
            ),
            texcoords: Seq::new(
                self.texcoords@.len(),
                |i: int| (self.texcoords@[i].0@, self.texcoords@[i].1@),
            ),
            normals: Seq::new(
                self.normals@.len(),
                |i: int| (self.normals@[i].0@, self.normals@[i].1@, self.normals@[i].2@),
            ),
            vmap: self.canon@,
            out_positions: vec_byte_views(self.out_positions@),
            out_texcoords: vec_byte_views(self.out_texcoords@),
            out_normals: vec_byte_views(self.out_normals@),
            objects: Seq::new(
                self.object_names@.len(),
                |i: int| ObjObjectModel {
                    name: self.object_names@[i]@,
                    indices: self.object_indices@[i]@,
                },
            ),
            current: self.current as int,
        }
    }
}

/// What the parse loop maintains of its state.
spec fn state_wf(s: &ParserState) -> bool {
    &&& s.canon.wf()
    &&& s.object_names@.len() == s.object_indices@.len()
    &&& s.object_names@.len() >= 1
    &&& (s.current as int) < s.object_names@.len()
    &&& s.positions@.len() <= INDEX_LIMIT as int
    &&& s.texcoords@.len() <= INDEX_LIMIT as int
    &&& s.normals@.len() <= INDEX_LIMIT as int
}

/// A resolved corner whose indices point into the pools of `m`.
spec fn abs_in_bounds(a: ObjVertexAbsolute, m: ObjModel) -> bool {
    &&& (a.position_index as int) < m.positions.len()
    &&& (a.texcoord_index matches Some(t) ==> (t as int) < m.texcoords.len())
    &&& (a.normal_index matches Some(v) ==> (v as int) < m.normals.len())
}

/// Handles one `f` line: reads, resolves and canonicalizes its corners
/// and appends the fan triangles to the current object.
fn handle_face(state: &mut ParserState, corners: &[&[u8]], f: ObjParseFeatures) -> (r: Result<
    (),
    ObjParseError,
>)
    requires
        state_wf(old(state)),
    ensures
        match spec_face_step(old(state)@, byte_views(corners@), f) {
            Ok(m2) => r is Ok && final(state)@ == m2 && state_wf(final(state)),
            Err(e) => r is Err && r->Err_0@ == e,
        },
{
    let ghost m0 = state@;
    let ghost views = byte_views(corners@);
    let mut rel: Vec<ObjVertexRelative> = Vec::new();
    let shape: u8;
    match read_face(corners, &mut rel) {
        Err(e) => {
            return Err(e);
        },
        Ok(sh) => {
            shape = sh;
        },
    }
    if rel.len() < 3 {
        return Err(ObjParseError::InsufficientFaceCorners { found: rel.len() });
    }
    let ghost relv = rel@;
    let mut abs: Vec<ObjVertexAbsolute> = Vec::new();
    let nrel = rel.len();
    let mut i: usize = 0;
    while i < nrel
        invariant
            0 <= i <= nrel,
            nrel == relv.len(),
            rel@ == relv,
            *state == *old(state),
            state@ == m0,
            m0 == old(state)@,
            state_wf(state),
            views == byte_views(corners@),
            spec_read_face(views) == Ok::<(Seq<ObjVertexRelative>, u8), ErrView>((relv, shape)),
            relv.len() >= 3,
            abs@.len() == i,
            forall|j: int| 0 <= j < i ==> abs_in_bounds(#[trigger] abs@[j], m0),
            spec_resolve_corners(m0, relv, 0, f) == (match spec_resolve_corners(
                m0,
                relv,
                i as int,
                f,
            ) {
                Err(e) => Err::<Seq<ObjVertexAbsolute>, ErrView>(e),
                Ok(rest) => Ok(abs@ + rest),
            }),
        decreases nrel - i,
    {
        let c = rel[i];
        let p: usize;
        match resolve_index(c.position_index, state.positions.len()) {
            Err(e) => {
                return Err(e);
            },
            Ok(v) => {
                p = v;
            },
        }
        let mut tex: Option<u32> = None;
        if f.loads_texcoords() {
            if let Some(ti) = c.texcoord_index {
                match resolve_index(ti, state.texcoords.len()) {
                    Err(e) => {
                        return Err(e);
                    },
                    Ok(v) => {
                        tex = Some(v as u32);
                    },
                }
            }
        }
        let mut norm: Option<u32> = None;
        if f.loads_normals() {
            if let Some(ni) = c.normal_index {
                match resolve_index(ni, state.normals.len()) {
                    Err(e) => {
                        return Err(e);
                    },
                    Ok(v) => {
                        norm = Some(v as u32);
                    },
                }
            }
        }
        let a = ObjVertexAbsolute {
            position_index: p as u32,
            texcoord_index: tex,
            normal_index: norm,
        };
        let ghost prev = abs@;
        abs.push(a);
        proof {
            assert(spec_resolve_corner(m0, relv[i as int], f) == Ok::<
                ObjVertexAbsolute,
                ErrView,
            >(a));
            if let Ok(rest) = spec_resolve_corners(m0, relv, i + 1, f) {
                assert(prev + (seq![a] + rest) =~= abs@ + rest);
            }
        }
        i = i + 1;
    }
    let ghost absv = abs@;
    let ghost resolved = spec_resolve_corners(m0, relv, 0, f)->Ok_0;
    proof {
        assert(absv + Seq::<ObjVertexAbsolute>::empty() =~= absv);
        assert(resolved == absv);
    }
    // canonicalize the corners in declaration order
    let mut idxs: Vec<u32> = Vec::new();
    let ghost mut mc = m0;
    let nabs = abs.len();
    let mut k: usize = 0;
    while k < nabs
        invariant
            0 <= k <= nabs,
            nabs == absv.len(),
            abs@ == absv,
            state_wf(state),
            state@ == mc,
            m0 == old(state)@,
            views == byte_views(corners@),
            spec_read_face(views) == Ok::<(Seq<ObjVertexRelative>, u8), ErrView>((relv, shape)),
            relv.len() >= 3,
            spec_resolve_corners(m0, relv, 0, f) == Ok::<Seq<ObjVertexAbsolute>, ErrView>(absv),
            mc.positions == m0.positions,
            mc.texcoords == m0.texcoords,
            mc.normals == m0.normals,
            mc.objects == m0.objects,
            mc.current == m0.current,
            forall|j: int| 0 <= j < nabs ==> abs_in_bounds(#[trigger] absv[j], m0),
            idxs@.len() == k,
            spec_canon_corners(m0, absv, 0) == (match spec_canon_corners(mc, absv, k as int) {
                Err(e) => Err::<(ObjModel, Seq<u32>), ErrView>(e),
                Ok((mf, rest)) => Ok((mf, idxs@ + rest)),
            }),
        decreases nabs - k,
    {
        let key = abs[k];
        let ghost mc_pre = mc;
        let got = state.canon.get(&key);
        match got {
            Some(idx) => {
                let ghost prev = idxs@;
                idxs.push(idx);
                proof {
                    assert(spec_canon_corner(mc_pre, key) == Ok::<(ObjModel, u32), ErrView>(
                        (mc_pre, idx),
                    ));
                    if let Ok((mf, rest)) = spec_canon_corners(mc, absv, k + 1) {
                        assert(prev + (seq![idx] + rest) =~= idxs@ + rest);
                    }
                }
            },
            None => {
                let next = state.out_positions.len() / 3;
                if next >= INDEX_LIMIT {
                    return Err(ObjParseError::TooManyVertices);
                }
                let idx = next as u32;
                state.canon.insert(key, idx);
                let pi = key.position_index as usize;
                let px = copy_bytes(state.positions[pi].0.as_slice());
                let py = copy_bytes(state.positions[pi].1.as_slice());
                let pz = copy_bytes(state.positions[pi].2.as_slice());
                state.out_positions.push(px);
                state.out_positions.push(py);
                state.out_positions.push(pz);
                if let Some(t) = key.texcoord_index {
                    let ti = t as usize;
                    let tx = copy_bytes(state.texcoords[ti].0.as_slice());
                    let ty = copy_bytes(state.texcoords[ti].1.as_slice());
                    state.out_texcoords.push(tx);
                    state.out_texcoords.push(ty);
                }
                if let Some(nv) = key.normal_index {
                    let ni = nv as usize;
                    let nx = copy_bytes(state.normals[ni].0.as_slice());
                    let ny = copy_bytes(state.normals[ni].1.as_slice());
                    let nz = copy_bytes(state.normals[ni].2.as_slice());
                    state.out_normals.push(nx);
                    state.out_normals.push(ny);
                    state.out_normals.push(nz);
                }
                let ghost prev = idxs@;
                idxs.push(idx);
                proof {
                    mc = spec_canon_corner(mc_pre, key)->Ok_0.0;
                    assert(vec_byte_views(state.out_positions@) =~= mc_pre.out_positions + seq![
                        px@,
                        py@,
                        pz@,
                    ]);
                    assert(vec_byte_views(state.out_texcoords@) =~= mc.out_texcoords);
                    assert(vec_byte_views(state.out_normals@) =~= mc.out_normals);
                    assert(state@ =~~= mc);
                    if let Ok((mf, rest)) = spec_canon_corners(mc, absv, k + 1) {
                        assert(prev + (seq![idx] + rest) =~= idxs@ + rest);
                    }
                }
            },
        }
        k = k + 1;
    }
    let ghost canon_out = spec_canon_corners(m0, absv, 0)->Ok_0;
    proof {
        assert(idxs@ + Seq::<u32>::empty() =~= idxs@);
        assert(canon_out.0 == mc && canon_out.1 == idxs@);
    }
    let cur = state.current;
    triangulate_fan(idxs.as_slice(), &mut state.object_indices[cur]);
    proof {
        let m2 = spec_face_step(m0, views, f)->Ok_0;
        assert(state@.objects =~= mc.objects.update(
            mc.current,
            ObjObjectModel {
                name: mc.objects[mc.current].name,
                indices: mc.objects[mc.current].indices + spec_fan_triangles(idxs@),
            },
        ));
        assert(state@ =~~= m2);
    }
    Ok(())
}

/// Handles one `o` line: switches to the named object, creating it if
/// it is new.
fn handle_object(state: &mut ParserState, line: &[u8])
    requires
        state_wf(old(state)),
    ensures
        state_wf(final(state)),
        final(state)@ == spec_o_step(old(state)@, line@),
{
    let ghost m0 = state@;
    let n = line.len();
    let mut a: usize = 0;
    while a < n && byte_is_space(line[a])
        invariant
            0 <= a <= n,
            n == line@.len(),
            first_non_space(line@, 0) == first_non_space(line@, a as int),
        decreases n - a,
    {
        a = a + 1;
    }
    let name: Vec<u8>;
    if a >= n {
        name = Vec::new();
        proof {
            assert(name@ =~= spec_object_name(line@));
        }
    } else {
        let mut b: usize = a + 1;
        while b < n && byte_is_space(line[b])
            invariant
                a + 1 <= b <= n,
                n == line@.len(),
                first_non_space(line@, a + 1) == first_non_space(line@, b as int),
            decreases n - b,
        {
            b = b + 1;
        }
        name = copy_bytes(slice_subrange(line, b, n));
        proof {
            assert(name@ =~= spec_object_name(line@));
        }
    }
    let count = state.object_names.len();
    let mut j: usize = 0;
    while j < count
        invariant
            0 <= j <= count,
            count == state.object_names@.len(),
            *state == *old(state),
            state@ == m0,
            m0 == old(state)@,
            state_wf(state),
            name@ == spec_object_name(line@),
            spec_find_object(m0.objects, name@, 0) == spec_find_object(
                m0.objects,
                name@,
                j as int,
            ),
        decreases count - j,
    {
        if bytes_eq(state.object_names[j].as_slice(), name.as_slice()) {
            state.current = j;
            proof {
                assert(m0.objects[j as int].name == name@);
                assert(spec_find_object(m0.objects, name@, j as int) == Some(j as int));
                assert(state@ =~~= spec_o_step(m0, line@));
            }
            return ;
        }
        proof {
            assert(m0.objects[j as int].name != name@);
        }
        j = j + 1;
    }
    let ghost namev = name@;
    state.object_names.push(name);
    state.object_indices.push(Vec::new());
    state.current = count;
    proof {
        assert(spec_find_object(m0.objects, namev, count as int) is None);
        assert(state@.objects =~= m0.objects.push(
            ObjObjectModel { name: namev, indices: Seq::empty() },
        ));
        assert(state@ =~~= spec_o_step(m0, line@));
    }
}

/// Dispatches one line on its first token.
fn handle_line(state: &mut ParserState, line: &[u8], f: ObjParseFeatures) -> (r: Result<
    (),
    ObjParseError,
>)
    requires
        state_wf(old(state)),
    ensures
        match spec_line_step(old(state)@, line@, f) {
            Ok(m2) => r is Ok && final(state)@ == m2 && state_wf(final(state)),
            Err(e) => r is Err && r->Err_0@ == e,
        },
{
    let ghost m_pre = state@;
    let ghost tv = spec_tokens(line@);
    let toks = split_tokens(line);
    if toks.len() == 0 {
        return Ok(());
    }
    let cmd = toks[0];
    let nt = toks.len();
    let args = slice_subrange(toks.as_slice(), 1, nt);
    proof {
        assert(byte_views(args@) =~= tv.drop_first());
    }
    if cmd.len() == 1 && cmd[0] == 118u8 {
        proof {
            assert(tv[0] =~= seq![118u8]);
        }
        match read_vertex(args) {
            Err(e) => Err(e),
            Ok(t) => {
                let (x, y, z) = t;
                let ghost xv = x@;
                let ghost yv = y@;
                let ghost zv = z@;
                if state.positions.len() >= INDEX_LIMIT {
                    return Err(ObjParseError::TooManyVertices);
                }
                state.positions.push((x, y, z));
                proof {
                    assert(state@.positions =~= m_pre.positions.push((xv, yv, zv)));
                    assert(state@ =~~= spec_v_step(m_pre, tv.drop_first())->Ok_0);
                }
                Ok(())
            },
        }
    } else if cmd.len() == 2 && cmd[0] == 118u8 && cmd[1] == 116u8 {
        proof {
            assert(tv[0] =~= seq![118u8, 116u8]);
        }
        if f.loads_texcoords() {
            match read_vertex_texcoord(args) {
                Err(e) => Err(e),
                Ok(t) => {
                    let (x, y) = t;
                    let ghost xv = x@;
                    let ghost yv = y@;
                    if state.texcoords.len() >= INDEX_LIMIT {
                        return Err(ObjParseError::TooManyVertices);
                    }
                    state.texcoords.push((x, y));
                    proof {
                        assert(state@.texcoords =~= m_pre.texcoords.push((xv, yv)));
                        assert(state@ =~~= spec_vt_step(m_pre, tv.drop_first())->Ok_0);
                    }
                    Ok(())
                },
            }
        } else {
            Ok(())
        }
    } else if cmd.len() == 2 && cmd[0] == 118u8 && cmd[1] == 110u8 {
        proof {
            assert(tv[0] =~= seq![118u8, 110u8]);
        }
        if f.loads_normals() {
            match read_vertex(args) {
                Err(e) => Err(e),
                Ok(t) => {
                    let (x, y, z) = t;
                    let ghost xv = x@;
                    let ghost yv = y@;
                    let ghost zv = z@;
                    if state.normals.len() >= INDEX_LIMIT {
                        return Err(ObjParseError::TooManyVertices);
                    }
                    state.normals.push((x, y, z));
                    proof {
                        assert(state@.normals =~= m_pre.normals.push((xv, yv, zv)));
                        assert(state@ =~~= spec_vn_step(m_pre, tv.drop_first())->Ok_0);
                    }
                    Ok(())
                },
            }
        } else {
            Ok(())
        }
    } else if cmd.len() == 1 && cmd[0] == 102u8 {
        proof {
            assert(tv[0] =~= seq![102u8]);
        }
        match handle_face(state, args, f) {
            Err(e) => Err(e),
            Ok(()) => Ok(()),
        }
    } else if cmd.len() == 1 && cmd[0] == 111u8 {
        proof {
            assert(tv[0] =~= seq![111u8]);
        }
        if f.loads_objects() {
            handle_object(state, line);
            Ok(())
        } else {
            Ok(())
        }
    } else {
        proof {
            assert(tv[0] == cmd@);
            assert(tv[0] != seq![118u8]);
            assert(tv[0] != seq![118u8, 116u8]);
            assert(tv[0] != seq![118u8, 110u8]);
            assert(tv[0] != seq![102u8]);
            assert(tv[0] != seq![111u8]);
        }
        Ok(())
    }
}

/// The models of the object partitions still held as parallel vectors.
spec fn pair_views(names: Seq<Vec<u8>>, idxs: Seq<Vec<u32>>) -> Seq<ObjObjectModel> {
    Seq::new(names.len(), |i: int| ObjObjectModel { name: names[i]@, indices: idxs[i]@ })
}

/// Parses one complete OBJ buffer under the given features. The result
/// is exactly what the mathematical parse [`spec_parse_obj`] yields:
/// on success the canonical buffers and object partitions, otherwise
/// the first error met, with nothing partial.
///
/// Every triangle index stream has a length divisible by three, and
/// the optional buffers are present exactly when their feature was on
/// and an attribute of that kind was referenced.
///
/// Two deliberate policy choices: corner-shape uniformity is enforced
/// within one face line only — different face lines of one file may
/// carry different component sets; and vertices are canonicalized
/// globally, in one scope for the whole file — object partitions
/// share output vertices.
pub fn load_obj_from_bytes(file_bytes: &[u8], parse_features: ObjParseFeatures) -> (r: Result<
    ObjParseResult,
    ObjParseError,
>)
    ensures
        match spec_parse_obj(file_bytes@, parse_features) {
            Ok(res) => r is Ok && r->Ok_0@ == res,
            Err(e) => r is Err && r->Err_0@ == e,
        },
{
    let mut names0: Vec<Vec<u8>> = Vec::new();
    names0.push(Vec::new());
    let mut idxs0: Vec<Vec<u32>> = Vec::new();
    idxs0.push(Vec::new());
    let mut state = ParserState {
        positions: Vec::new(),
        texcoords: Vec::new(),
        normals: Vec::new(),
        canon: VertexCanonicalizer::new(),
        out_positions: Vec::new(),
        out_texcoords: Vec::new(),
        out_normals: Vec::new(),
        object_names: names0,
        object_indices: idxs0,
        current: 0,
    };
    proof {
        assert(state@.objects =~= init_model().objects);
        assert(state@ =~~= init_model());
    }
    let lines = split_lines(file_bytes);
    let ghost all = spec_lines(file_bytes@);
    proof {
        assert(all.skip(0) =~= all);
    }
    let nl = lines.len();
    let mut li: usize = 0;
    while li < nl
        invariant
            0 <= li <= nl,
            nl == lines@.len(),
            nl == all.len(),
            all == spec_lines(file_bytes@),
            forall|i2: int| 0 <= i2 < nl ==> lines@[i2]@ == all[i2],
            state_wf(&state),
            spec_run(init_model(), all, parse_features) == spec_run(
                state@,
                all.skip(li as int),
                parse_features,
            ),
        decreases nl - li,
    {
        let ghost m_pre = state@;
        let line = lines[li];
        match handle_line(&mut state, line, parse_features) {
            Err(e) => {
                proof {
                    assert(all.skip(li as int)[0] == all[li as int]);
                    assert(spec_run(m_pre, all.skip(li as int), parse_features) == Err::<
                        ObjModel,
                        ErrView,
                    >(e@));
                }
                return Err(e);
            },
            Ok(()) => {
                proof {
                    assert(all.skip(li as int)[0] == all[li as int]);
                    assert(all.skip(li as int).drop_first() =~= all.skip(li as int + 1));
                    assert(spec_run(m_pre, all.skip(li as int), parse_features) == spec_run(
                        state@,
                        all.skip(li as int + 1),
                        parse_features,
                    ));
                }
            },
        }
        li = li + 1;
    }
    proof {
        assert(all.skip(nl as int) =~= Seq::<Seq<u8>>::empty());
    }
    let ghost mfin = state@;
    let ghost tobjs = if mfin.objects[0].indices.len() == 0 {
        mfin.objects.drop_first()
    } else {
        mfin.objects
    };
    if state.object_indices[0].len() == 0 {
        state.object_names.remove(0);
        state.object_indices.remove(0);
    }
    proof {
        assert(pair_views(state.object_names@, state.object_indices@) =~= tobjs);
    }
    let mut objects: Vec<ObjObject> = Vec::new();
    while state.object_names.len() > 0
        invariant
            state.object_names@.len() == state.object_indices@.len(),
            objects_views(objects@) + pair_views(state.object_names@, state.object_indices@)
                == tobjs,
            vec_byte_views(state.out_positions@) == mfin.out_positions,
            vec_byte_views(state.out_texcoords@) == mfin.out_texcoords,
            vec_byte_views(state.out_normals@) == mfin.out_normals,
        decreases state.object_names@.len(),
    {
        let nm = state.object_names.remove(0);
        let ix = state.object_indices.remove(0);
        let ghost prev = objects@;
        objects.push(ObjObject { name: nm, indices: ix });
        proof {
            assert(objects_views(objects@) + pair_views(
                state.object_names@,
                state.object_indices@,
            ) =~= tobjs);
        }
    }
    proof {
        assert(objects_views(objects@) =~= tobjs);
    }
    let vertex_buffer = state.out_positions;
    let texcoord_buffer: Option<Vec<Vec<u8>>> = if parse_features.loads_texcoords()
        && state.out_texcoords.len() > 0 {
        Some(state.out_texcoords)
    } else {
        None
    };
    let normal_buffer: Option<Vec<Vec<u8>>> = if parse_features.loads_normals()
        && state.out_normals.len() > 0 {
        Some(state.out_normals)
    } else {
        None
    };
    let result = ObjParseResult { objects, vertex_buffer, texcoord_buffer, normal_buffer };
    proof {
        assert(result@ =~~= spec_finish(mfin, parse_features));
    }
    Ok(result)
}

} // verus!
