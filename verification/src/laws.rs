//! Properties that hold of every parse, proved over the parse model:
//! triangle-index alignment, the fan-triangulation rule, the
//! bijectivity of vertex canonicalization, and feature gating.

use vstd::prelude::*;

use crate::face::{ObjVertexAbsolute, ObjVertexRelative};
use crate::features::ObjParseFeatures;
use crate::obj::{
    init_model, spec_canon_corner, spec_canon_corners, spec_fan_triangles, spec_find_object,
    spec_line_step, spec_parse_obj, spec_resolve_corners, spec_run, ObjModel,
};
use crate::split::spec_lines;

verus! {

/// Every object's triangle index stream has a length divisible by three.
pub open spec fn indices_aligned(m: ObjModel) -> bool {
    forall|i: int|
        0 <= i < m.objects.len() ==> (#[trigger] m.objects[i]).indices.len() % 3 == 0
}

/// Distinct canonical keys hold distinct output indices.
pub open spec fn canon_injective(m: ObjModel) -> bool {
    forall|k1: ObjVertexAbsolute, k2: ObjVertexAbsolute|
        m.vmap.contains_key(k1) && m.vmap.contains_key(k2) && #[trigger] m.vmap[k1]
            == #[trigger] m.vmap[k2] ==> k1 == k2
}

/// Every assigned output index lies below the number of output
/// vertices written so far.
pub open spec fn canon_dense(m: ObjModel) -> bool {
    forall|k: ObjVertexAbsolute| #[trigger]
        m.vmap.contains_key(k) ==> (m.vmap[k] as int) < m.out_positions.len() as int / 3
}

/// Some key carries the output index `j`.
pub open spec fn has_canon_index(m: ObjModel, j: int) -> bool {
    exists|k: ObjVertexAbsolute| #[trigger] m.vmap.contains_key(k) && m.vmap[k] as int == j
}

/// Every output vertex slot written so far carries some key's index:
/// the assignment reaches all of `0 .. out_positions.len() / 3`.
pub open spec fn canon_surjective(m: ObjModel) -> bool {
    forall|j: int| 0 <= j < m.out_positions.len() as int / 3 ==> #[trigger] has_canon_index(m, j)
}

/// The invariant of every reachable parse state.
pub open spec fn model_inv(m: ObjModel) -> bool {
    &&& m.objects.len() >= 1
    &&& 0 <= m.current < m.objects.len()
    &&& indices_aligned(m)
    &&& canon_injective(m)
    &&& canon_dense(m)
    &&& canon_surjective(m)
}

proof fn lemma_resolve_corners_len(
    m: ObjModel,
    rel: Seq<ObjVertexRelative>,
    i: int,
    f: ObjParseFeatures,
)
    requires
        0 <= i,
    ensures
        spec_resolve_corners(m, rel, i, f) matches Ok(s) ==> s.len() == if i <= rel.len() {
            rel.len() - i
        } else {
            0
        },
    decreases rel.len() - i,
{
    if i < 0 || i >= rel.len() {
    } else {
        lemma_resolve_corners_len(m, rel, i + 1, f);
    }
}

proof fn lemma_canon_corner_inv(m: ObjModel, k: ObjVertexAbsolute)
    requires
        canon_injective(m),
        canon_dense(m),
        canon_surjective(m),
        spec_canon_corner(m, k) is Ok,
    ensures
        ({
            let m2 = spec_canon_corner(m, k)->Ok_0.0;
            &&& canon_injective(m2)
            &&& canon_dense(m2)
            &&& canon_surjective(m2)
            &&& m2.objects == m.objects
            &&& m2.current == m.current
        }),
{
    if !m.vmap.contains_key(k) {
        let next = m.out_positions.len() as int / 3;
        let m2 = spec_canon_corner(m, k)->Ok_0.0;
        assert(m2.out_positions.len() == m.out_positions.len() + 3);
        assert(m2.out_positions.len() as int / 3 == next + 1);
        assert forall|k1: ObjVertexAbsolute| #[trigger]
            m2.vmap.contains_key(k1) implies (m2.vmap[k1] as int) < m2.out_positions.len() as int
            / 3 by {
            if k1 != k {
                assert(m.vmap.contains_key(k1));
            }
        }
        assert forall|j: int|
            0 <= j < m2.out_positions.len() as int / 3 implies #[trigger] has_canon_index(
            m2,
            j,
        ) by {
            if j == next {
                assert(m2.vmap.contains_key(k) && m2.vmap[k] as int == j);
            } else {
                assert(has_canon_index(m, j));
                let k1 = choose|k1: ObjVertexAbsolute|
                    #[trigger] m.vmap.contains_key(k1) && m.vmap[k1] as int == j;
                assert(m2.vmap.contains_key(k1) && m2.vmap[k1] as int == j);
            }
        }
    }
}

proof fn lemma_canon_corners_inv(m: ObjModel, abs: Seq<ObjVertexAbsolute>, i: int)
    requires
        0 <= i,
        canon_injective(m),
        canon_dense(m),
        canon_surjective(m),
        spec_canon_corners(m, abs, i) is Ok,
    ensures
        ({
            let (m3, idxs) = spec_canon_corners(m, abs, i)->Ok_0;
            &&& canon_injective(m3)
            &&& canon_dense(m3)
            &&& canon_surjective(m3)
            &&& m3.objects == m.objects
            &&& m3.current == m.current
            &&& idxs.len() == if i <= abs.len() {
                abs.len() - i
            } else {
                0
            }
        }),
    decreases abs.len() - i,
{
    if i < 0 || i >= abs.len() {
    } else {
        let m2 = spec_canon_corner(m, abs[i])->Ok_0.0;
        lemma_canon_corner_inv(m, abs[i]);
        lemma_canon_corners_inv(m2, abs, i + 1);
    }
}

/// Surjectivity carries over to any state with the same map and the
/// same output positions.
proof fn lemma_surjective_transfer(m: ObjModel, m2: ObjModel)
    requires
        canon_surjective(m),
        m2.vmap == m.vmap,
        m2.out_positions == m.out_positions,
    ensures
        canon_surjective(m2),
{
    assert forall|j: int|
        0 <= j < m2.out_positions.len() as int / 3 implies #[trigger] has_canon_index(m2, j) by {
        assert(has_canon_index(m, j));
        let k = choose|k: ObjVertexAbsolute|
            #[trigger] m.vmap.contains_key(k) && m.vmap[k] as int == j;
        assert(m2.vmap.contains_key(k) && m2.vmap[k] as int == j);
    }
}

proof fn lemma_find_object_range(m: ObjModel, name: Seq<u8>, i: int)
    requires
        i >= 0,
    ensures
        spec_find_object(m.objects, name, i) matches Some(j) ==> i <= j < m.objects.len(),
    decreases m.objects.len() - i,
{
    if i < 0 || i >= m.objects.len() {
    } else if m.objects[i].name == name {
    } else {
        lemma_find_object_range(m, name, i + 1);
    }
}

/// One line preserves the parse-state invariant.
proof fn lemma_line_step_inv(m: ObjModel, line: Seq<u8>, f: ObjParseFeatures)
    requires
        model_inv(m),
        spec_line_step(m, line, f) is Ok,
    ensures
        model_inv(spec_line_step(m, line, f)->Ok_0),
{
    let m2 = spec_line_step(m, line, f)->Ok_0;
    let toks = crate::split::spec_tokens(line);
    if toks.len() == 0 {
    } else {
        let cmd = toks[0];
        if cmd == seq![102u8] {
            let corners = toks.drop_first();
            if let Ok((rel, shape)) = crate::face::spec_read_face(corners) {
                if rel.len() >= 3 {
                    if let Ok(abs) = spec_resolve_corners(m, rel, 0, f) {
                        lemma_resolve_corners_len(m, rel, 0, f);
                        if let Ok((m3, idxs)) = spec_canon_corners(m, abs, 0) {
                            lemma_canon_corners_inv(m, abs, 0);
                            assert(seq![118u8][0] == 118u8 && seq![102u8][0] == 102u8
                                && seq![111u8][0] == 111u8 && seq![118u8, 116u8].len() == 2
                                && seq![118u8, 110u8].len() == 2);
                            assert(cmd != seq![118u8] && cmd != seq![118u8, 116u8] && cmd != seq![
                                118u8,
                                110u8,
                            ]);
                            assert(spec_line_step(m, line, f) == crate::obj::spec_face_step(
                                m,
                                corners,
                                f,
                            ));
                            assert(m2 == ObjModel {
                                objects: m3.objects.update(
                                    m3.current,
                                    crate::obj::ObjObjectModel {
                                        name: m3.objects[m3.current].name,
                                        indices: m3.objects[m3.current].indices
                                            + spec_fan_triangles(idxs),
                                    },
                                ),
                                ..m3
                            });
                            lemma_surjective_transfer(m3, m2);
                            assert(idxs.len() >= 3);
                            assert(spec_fan_triangles(idxs).len() == 3 * (idxs.len() - 2));
                            let obj = m3.objects[m3.current];
                            assert((obj.indices + spec_fan_triangles(idxs)).len() % 3 == 0);
                            assert forall|i: int|
                                0 <= i < m2.objects.len() implies (
                            #[trigger] m2.objects[i]).indices.len() % 3 == 0 by {
                                if i != m3.current {
                                    assert(m2.objects[i] == m.objects[i]);
                                }
                            }
                        }
                    }
                }
            }
        } else if cmd == seq![111u8] && f.spec_loads_objects() {
            lemma_find_object_range(m, crate::obj::spec_object_name(line), 0);
        }
    }
    if m2.vmap == m.vmap && m2.out_positions == m.out_positions {
        lemma_surjective_transfer(m, m2);
    }
}

/// A whole run preserves the parse-state invariant.
proof fn lemma_run_inv(m: ObjModel, lines: Seq<Seq<u8>>, f: ObjParseFeatures)
    requires
        model_inv(m),
        spec_run(m, lines, f) is Ok,
    ensures
        model_inv(spec_run(m, lines, f)->Ok_0),
    decreases lines.len(),
{
    if lines.len() == 0 {
    } else {
        lemma_line_step_inv(m, lines[0], f);
        lemma_run_inv(spec_line_step(m, lines[0], f)->Ok_0, lines.drop_first(), f);
    }
}

/// For every successful parse, the length of every object's triangle
/// index stream is divisible by three.
pub proof fn lemma_indices_multiple_of_three(input: Seq<u8>, f: ObjParseFeatures)
    ensures
        spec_parse_obj(input, f) matches Ok(res) ==> forall|i: int|
            0 <= i < res.objects.len() ==> (#[trigger] res.objects[i]).indices.len() % 3 == 0,
{
    if let Ok(m) = spec_run(init_model(), spec_lines(input), f) {
        lemma_run_inv(init_model(), spec_lines(input), f);
        let res = spec_parse_obj(input, f)->Ok_0;
        assert forall|i: int|
            0 <= i < res.objects.len() implies (#[trigger] res.objects[i]).indices.len() % 3
            == 0 by {
            if m.objects[0].indices.len() == 0 {
                assert(res.objects[i] == m.objects[i + 1]);
            } else {
                assert(res.objects[i] == m.objects[i]);
            }
        }
    }
}

/// For every successful run of the parser, two canonical keys hold the
/// same output index exactly when they are the same key: corners with
/// equal resolved keys share one output vertex, corners with different
/// keys never do. The assigned indices are exactly the dense range
/// `0 .. vertex count`: the canonical vertex set is minimal.
pub proof fn lemma_canonicalization_bijective(input: Seq<u8>, f: ObjParseFeatures)
    ensures
        spec_run(init_model(), spec_lines(input), f) matches Ok(m) ==> {
            &&& forall|k1: ObjVertexAbsolute, k2: ObjVertexAbsolute|
                m.vmap.contains_key(k1) && m.vmap.contains_key(k2) ==> ((#[trigger] m.vmap[k1]
                    == #[trigger] m.vmap[k2]) <==> k1 == k2)
            &&& canon_dense(m)
            &&& canon_surjective(m)
        },
{
    if spec_run(init_model(), spec_lines(input), f) is Ok {
        lemma_run_inv(init_model(), spec_lines(input), f);
    }
}

/// The fan triangulation of `n >= 3` corners holds exactly `n - 2`
/// triangles, the `t`-th being `(corner 0, corner t + 2, corner t + 1)`.
pub proof fn lemma_fan_triangulation(c: Seq<u32>)
    requires
        c.len() >= 3,
    ensures
        spec_fan_triangles(c).len() == 3 * (c.len() - 2),
        forall|t: int|
            0 <= t < c.len() - 2 ==> #[trigger] spec_fan_triangles(c)[3 * t] == c[0]
                && spec_fan_triangles(c)[3 * t + 1] == c[t + 2] && spec_fan_triangles(c)[3 * t
                + 2] == c[t + 1],
{
    let fan = spec_fan_triangles(c);
    assert forall|t: int|
        0 <= t < c.len() - 2 implies #[trigger] fan[3 * t] == c[0] && fan[3 * t + 1] == c[t + 2]
        && fan[3 * t + 2] == c[t + 1] by {
        assert((3 * t) % 3 == 0 && (3 * t) / 3 == t) by (nonlinear_arith);
        assert((3 * t + 1) % 3 == 1 && (3 * t + 1) / 3 == t) by (nonlinear_arith);
        assert((3 * t + 2) % 3 == 2 && (3 * t + 2) / 3 == t) by (nonlinear_arith);
    }
}

/// A face of `n >= 3` corners emits exactly `n - 2` triangles into the
/// current object — its index stream grows by `3 * (n - 2)` entries,
/// and they follow the fan rule of [`lemma_fan_triangulation`] over
/// the corners' output indices in declaration order.
pub proof fn lemma_face_emits_fan_triangles(m: ObjModel, corners: Seq<Seq<u8>>, f: ObjParseFeatures)
    requires
        0 <= m.current < m.objects.len(),
    ensures
        crate::obj::spec_face_step(m, corners, f) matches Ok(m2) ==> ({
            let n = crate::face::spec_read_face(corners)->Ok_0.0.len();
            &&& n >= 3
            &&& m2.objects[m.current].indices.len() == m.objects[m.current].indices.len() + 3 * (
            n - 2)
        }),
{
    if let Ok(m2) = crate::obj::spec_face_step(m, corners, f) {
        let (rel, shape) = crate::face::spec_read_face(corners)->Ok_0;
        let abs = spec_resolve_corners(m, rel, 0, f)->Ok_0;
        lemma_resolve_corners_len(m, rel, 0, f);
        let (m3, idxs) = spec_canon_corners(m, abs, 0)->Ok_0;
        lemma_canon_corners_len(m, abs, 0);
        lemma_canon_corners_frame(m, abs, 0);
        assert(idxs.len() == rel.len());
        assert(spec_fan_triangles(idxs).len() == 3 * (idxs.len() - 2));
    }
}

/// The canonicalization fold does not touch the object partitions.
proof fn lemma_canon_corners_frame(m: ObjModel, abs: Seq<ObjVertexAbsolute>, i: int)
    ensures
        spec_canon_corners(m, abs, i) matches Ok(p) ==> p.0.objects == m.objects && p.0.current
            == m.current,
    decreases abs.len() - i,
{
    if i < 0 || i >= abs.len() {
    } else {
        if spec_canon_corner(m, abs[i]) is Ok {
            let m2 = spec_canon_corner(m, abs[i])->Ok_0.0;
            lemma_canon_corners_frame(m2, abs, i + 1);
        }
    }
}

/// The canonicalization fold hands out one index per corner.
proof fn lemma_canon_corners_len(m: ObjModel, abs: Seq<ObjVertexAbsolute>, i: int)
    requires
        0 <= i,
    ensures
        spec_canon_corners(m, abs, i) matches Ok(p) ==> p.1.len() == if i <= abs.len() {
            abs.len() - i
        } else {
            0
        },
    decreases abs.len() - i,
{
    if i < 0 || i >= abs.len() {
    } else {
        if spec_canon_corner(m, abs[i]) is Ok {
            let m2 = spec_canon_corner(m, abs[i])->Ok_0.0;
            lemma_canon_corners_len(m2, abs, i + 1);
        }
    }
}

/// A buffer whose feature is off is absent from the result, whatever
/// the input held.
pub proof fn lemma_feature_gating(input: Seq<u8>, f: ObjParseFeatures)
    ensures
        spec_parse_obj(input, f) matches Ok(res) ==> ((!f.spec_loads_texcoords()
            ==> res.texcoord_buffer is None) && (!f.spec_loads_normals()
            ==> res.normal_buffer is None)),
{
}

} // verus!
