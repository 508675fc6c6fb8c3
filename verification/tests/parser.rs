use objparser::error::{NumericKind, ObjParseError};
use objparser::features::{
    ObjParseFeatures, LOAD_ALL, LOAD_OBJECTS, LOAD_VERTEX_NORMALS, LOAD_VERTEX_TEXCOORDS, NONE,
};
use objparser::obj::load_obj_from_bytes;

fn feats(bits: u32) -> ObjParseFeatures {
    ObjParseFeatures::new(bits)
}

#[test]
fn winding_of_a_single_triangle() {
    let src = b"v 0 0 0\nv 1 0 0\nv 0 1 0\nf 1 2 3\n";
    let res = load_obj_from_bytes(src, feats(NONE)).unwrap();
    assert_eq!(res.objects.len(), 1);
    assert_eq!(res.objects[0].indices, vec![0, 2, 1]);
    assert_eq!(res.vertex_buffer.len(), 9);
    assert_eq!(res.vertex_buffer[0], b"0".to_vec());
    assert_eq!(res.vertex_buffer[3], b"1".to_vec());
    assert!(res.texcoord_buffer.is_none());
    assert!(res.normal_buffer.is_none());
}

#[test]
fn quad_fans_into_two_triangles() {
    let src = b"v 0 0 0\nv 1 0 0\nv 1 1 0\nv 0 1 0\nf 1 2 3 4\n";
    let res = load_obj_from_bytes(src, feats(NONE)).unwrap();
    assert_eq!(res.objects[0].indices, vec![0, 2, 1, 0, 3, 2]);
}

#[test]
fn hexagon_emits_n_minus_two_triangles() {
    let mut src = Vec::new();
    for _ in 0..6 {
        src.extend_from_slice(b"v 0 0 0\n");
    }
    src.extend_from_slice(b"f 1 2 3 4 5 6\n");
    let res = load_obj_from_bytes(&src, feats(NONE)).unwrap();
    let indices = &res.objects[0].indices;
    assert_eq!(indices.len(), 3 * (6 - 2));
    assert_eq!(indices.len() % 3, 0);
    for t in 0..4usize {
        assert_eq!(indices[3 * t], 0);
        assert_eq!(indices[3 * t + 1] as usize, t + 2);
        assert_eq!(indices[3 * t + 2] as usize, t + 1);
    }
}

#[test]
fn canonicalization_shares_equal_keys() {
    let src = b"v 0 0 0\nv 1 0 0\nv 0 1 0\nf 1 2 3\nf 1 2 3\n";
    let res = load_obj_from_bytes(src, feats(NONE)).unwrap();
    // both triangles reference the same three output vertices
    assert_eq!(res.vertex_buffer.len(), 9);
    assert_eq!(res.objects[0].indices, vec![0, 2, 1, 0, 2, 1]);
}

#[test]
fn canonicalization_splits_distinct_keys() {
    // same position, two different texcoords: two output vertices
    let src = b"v 0 0 0\nv 1 0 0\nv 0 1 0\nvt 0 0\nvt 1 1\nf 1/1 2/1 3/1\nf 1/2 2/1 3/1\n";
    let res = load_obj_from_bytes(src, feats(LOAD_VERTEX_TEXCOORDS)).unwrap();
    // corners: (1,1) (2,1) (3,1) (1,2) -> four distinct keys
    assert_eq!(res.vertex_buffer.len(), 12);
    assert_eq!(res.texcoord_buffer.as_ref().unwrap().len(), 8);
    assert_eq!(res.objects[0].indices, vec![0, 2, 1, 3, 2, 1]);
}

#[test]
fn relative_indices_resolve_backwards() {
    let mut src = Vec::new();
    for _ in 0..5 {
        src.extend_from_slice(b"v 0 0 0\n");
    }
    src.extend_from_slice(b"f -1 -5 2\n");
    let res = load_obj_from_bytes(&src, feats(NONE)).unwrap();
    // -1 -> pool slot 4, -5 -> pool slot 0, 2 -> pool slot 1;
    // canonical indices follow first sight: 4 -> 0, 0 -> 1, 1 -> 2
    assert_eq!(res.vertex_buffer.len(), 9);
    assert_eq!(res.objects[0].indices, vec![0, 2, 1]);
}

#[test]
fn relative_index_below_pool_start_fails() {
    let mut src = Vec::new();
    for _ in 0..5 {
        src.extend_from_slice(b"v 0 0 0\n");
    }
    src.extend_from_slice(b"f -6 1 2\n");
    let err = load_obj_from_bytes(&src, feats(NONE)).unwrap_err();
    assert!(matches!(
        err,
        ObjParseError::RelativeIndexOutOfBounds { index: -6, pool_len: 5 }
    ));
}

#[test]
fn zero_index_is_out_of_bounds() {
    let src = b"v 0 0 0\nf 0 1 1\n";
    let err = load_obj_from_bytes(src, feats(NONE)).unwrap_err();
    assert!(matches!(
        err,
        ObjParseError::AbsoluteIndexOutOfBounds { index: 1, pool_len: 1 }
    ));
}

#[test]
fn absolute_index_past_pool_end_fails() {
    let src = b"v 0 0 0\nf 1 2 3\n";
    let err = load_obj_from_bytes(src, feats(NONE)).unwrap_err();
    assert!(matches!(
        err,
        ObjParseError::AbsoluteIndexOutOfBounds { index: 1, pool_len: 1 }
    ));
}

#[test]
fn short_vertex_line_is_insufficient() {
    let err = load_obj_from_bytes(b"v 1.0 2.0\n", feats(NONE)).unwrap_err();
    assert!(matches!(
        err,
        ObjParseError::InsufficientVertexCoordinates { required: 3, found: 2 }
    ));
}

#[test]
fn short_texcoord_line_is_insufficient() {
    let err = load_obj_from_bytes(b"vt 1.0\n", feats(LOAD_VERTEX_TEXCOORDS)).unwrap_err();
    assert!(matches!(
        err,
        ObjParseError::InsufficientVertexCoordinates { required: 2, found: 1 }
    ));
}

#[test]
fn one_corner_face_is_insufficient() {
    let err = load_obj_from_bytes(b"f 1\n", feats(NONE)).unwrap_err();
    assert!(matches!(err, ObjParseError::InsufficientFaceCorners { found: 1 }));
}

#[test]
fn four_corner_components_are_too_many() {
    let err = load_obj_from_bytes(b"f 1/2/3/4 1 1\n", feats(NONE)).unwrap_err();
    assert!(matches!(err, ObjParseError::TooManyIndexComponents));
}

#[test]
fn word_as_face_index_is_a_number_format_error() {
    let err = load_obj_from_bytes(b"f abc\n", feats(NONE)).unwrap_err();
    match err {
        ObjParseError::NumberFormat { token, kind } => {
            assert_eq!(token, b"abc".to_vec());
            assert_eq!(kind, NumericKind::Int);
        },
        other => panic!("unexpected error: {:?}", other),
    }
}

#[test]
fn word_as_coordinate_is_a_number_format_error() {
    let err = load_obj_from_bytes(b"v 1.0 x 2.0\n", feats(NONE)).unwrap_err();
    match err {
        ObjParseError::NumberFormat { token, kind } => {
            assert_eq!(token, b"x".to_vec());
            assert_eq!(kind, NumericKind::Float);
        },
        other => panic!("unexpected error: {:?}", other),
    }
}

#[test]
fn missing_position_index_is_reported() {
    let err = load_obj_from_bytes(b"f /1 2 3\n", feats(NONE)).unwrap_err();
    assert!(matches!(err, ObjParseError::MissingPositionIndex));
}

#[test]
fn mixed_corner_shapes_in_one_face_fail() {
    let src = b"v 0 0 0\nvt 0 0\nvn 0 0 1\nf 1/1 1//1 1\n";
    let err = load_obj_from_bytes(src, feats(LOAD_ALL)).unwrap_err();
    assert!(matches!(err, ObjParseError::InconsistentFaceShape));
}

#[test]
fn texcoords_are_absent_when_not_requested() {
    let src = b"v 0 0 0\nvt 0.5 0.5\nf 1/1 1/1 1/1\n";
    let res = load_obj_from_bytes(src, feats(NONE)).unwrap();
    assert!(res.texcoord_buffer.is_none());
    assert!(res.normal_buffer.is_none());
}

#[test]
fn texcoords_are_present_when_requested_and_referenced() {
    let src = b"v 0 0 0\nv 1 0 0\nv 0 1 0\nvt 0.5 0.5\nf 1/1 2/1 3/1\n";
    let res = load_obj_from_bytes(src, feats(LOAD_VERTEX_TEXCOORDS)).unwrap();
    let t = res.texcoord_buffer.unwrap();
    assert_eq!(t.len(), 6);
    assert_eq!(t[0], b"0.5".to_vec());
}

#[test]
fn unreferenced_texcoords_yield_no_buffer() {
    let src = b"v 0 0 0\nv 1 0 0\nv 0 1 0\nvt 0.5 0.5\nf 1 2 3\n";
    let res = load_obj_from_bytes(src, feats(LOAD_VERTEX_TEXCOORDS)).unwrap();
    assert!(res.texcoord_buffer.is_none());
}

#[test]
fn normals_follow_their_own_feature() {
    let src = b"v 0 0 0\nv 1 0 0\nv 0 1 0\nvn 0 0 1\nf 1//1 2//1 3//1\n";
    let res = load_obj_from_bytes(src, feats(LOAD_VERTEX_NORMALS)).unwrap();
    let n = res.normal_buffer.unwrap();
    assert_eq!(n.len(), 9);
    assert!(res.texcoord_buffer.is_none());
}

#[test]
fn disabled_vt_lines_do_not_shift_numbering() {
    // vt lines are skipped entirely when texcoords are off, so a later
    // bad vt line cannot abort the parse either
    let src = b"vt oops\nv 0 0 0\nf 1 1 1\n";
    let res = load_obj_from_bytes(src, feats(NONE)).unwrap();
    assert_eq!(res.vertex_buffer.len(), 3);
}

#[test]
fn objects_partition_the_indices() {
    let src = b"v 0 0 0\nv 1 0 0\nv 0 1 0\no left\nf 1 2 3\no right\nf 1 2 3\no left\nf 3 2 1\n";
    let res = load_obj_from_bytes(src, feats(LOAD_OBJECTS)).unwrap();
    assert_eq!(res.objects.len(), 2);
    assert_eq!(res.objects[0].name, b"left".to_vec());
    assert_eq!(res.objects[0].indices.len(), 6);
    assert_eq!(res.objects[1].name, b"right".to_vec());
    assert_eq!(res.objects[1].indices.len(), 3);
}

#[test]
fn empty_default_object_is_dropped() {
    let src = b"v 0 0 0\no solo\nf 1 1 1\n";
    let res = load_obj_from_bytes(src, feats(LOAD_OBJECTS)).unwrap();
    assert_eq!(res.objects.len(), 1);
    assert_eq!(res.objects[0].name, b"solo".to_vec());
}

#[test]
fn nonempty_default_object_is_kept() {
    let src = b"v 0 0 0\nf 1 1 1\no named\nf 1 1 1\n";
    let res = load_obj_from_bytes(src, feats(LOAD_OBJECTS)).unwrap();
    assert_eq!(res.objects.len(), 2);
    assert_eq!(res.objects[0].name, b"".to_vec());
}

#[test]
fn named_object_is_kept_even_when_empty() {
    let src = b"v 0 0 0\nf 1 1 1\no hollow\n";
    let res = load_obj_from_bytes(src, feats(LOAD_OBJECTS)).unwrap();
    assert_eq!(res.objects.len(), 2);
    assert_eq!(res.objects[1].name, b"hollow".to_vec());
    assert!(res.objects[1].indices.is_empty());
}

#[test]
fn object_lines_are_ignored_without_the_feature() {
    let src = b"v 0 0 0\no thing\nf 1 1 1\n";
    let res = load_obj_from_bytes(src, feats(NONE)).unwrap();
    assert_eq!(res.objects.len(), 1);
    assert_eq!(res.objects[0].name, b"".to_vec());
}

#[test]
fn object_names_may_hold_spaces() {
    let src = b"v 0 0 0\no my object\nf 1 1 1\n";
    let res = load_obj_from_bytes(src, feats(LOAD_OBJECTS)).unwrap();
    assert_eq!(res.objects[0].name, b"my object".to_vec());
}

#[test]
fn empty_input_parses_to_nothing() {
    let res = load_obj_from_bytes(b"", feats(LOAD_ALL)).unwrap();
    assert!(res.objects.is_empty());
    assert!(res.vertex_buffer.is_empty());
    assert!(res.texcoord_buffer.is_none());
    assert!(res.normal_buffer.is_none());
}

#[test]
fn unknown_directives_and_comments_are_ignored() {
    let src = b"# a comment\nusemtl stuff\ng group1\nmtllib a.mtl\ns off\nv 0 0 0\nf 1 1 1\n";
    let res = load_obj_from_bytes(src, feats(LOAD_ALL)).unwrap();
    assert_eq!(res.vertex_buffer.len(), 3);
}

#[test]
fn crlf_and_blank_lines_are_handled() {
    let src = b"v 0 0 0\r\n\r\nv 1 0 0\r\nv 0 1 0\r\nf 1 2 3\r\n";
    let res = load_obj_from_bytes(src, feats(NONE)).unwrap();
    assert_eq!(res.vertex_buffer.len(), 9);
    assert_eq!(res.objects[0].indices.len(), 3);
}

#[test]
fn extra_tokens_after_coordinates_are_ignored() {
    let src = b"v 1 2 3 4 5\nf 1 1 1\n";
    let res = load_obj_from_bytes(src, feats(NONE)).unwrap();
    assert_eq!(res.vertex_buffer.len(), 3);
}

#[test]
fn exotic_float_tokens_are_accepted() {
    let src = b"v 1e5 .5 -2.\nv +0.25E-3 5. .0\nv -0 1 2\nf 1 2 3\n";
    let res = load_obj_from_bytes(src, feats(NONE)).unwrap();
    assert_eq!(res.vertex_buffer[0], b"1e5".to_vec());
    assert_eq!(res.vertex_buffer[1], b".5".to_vec());
}

#[test]
fn bare_exponent_is_rejected() {
    let err = load_obj_from_bytes(b"v 1e 2 3\n", feats(NONE)).unwrap_err();
    assert!(matches!(err, ObjParseError::NumberFormat { .. }));
}

#[test]
fn shapes_may_differ_across_face_lines() {
    // uniformity is a per-line rule: one file may mix shapes
    let src = b"v 0 0 0
v 1 0 0
v 0 1 0
vt 0 0
f 1 2 3
f 1/1 2/1 3/1
";
    let res = load_obj_from_bytes(src, feats(LOAD_VERTEX_TEXCOORDS)).unwrap();
    assert_eq!(res.objects[0].indices.len(), 6);
}

#[test]
fn canonicalization_is_global_across_objects() {
    // the same resolved key in two objects shares one output vertex
    let src = b"v 0 0 0
v 1 0 0
v 0 1 0
o a
f 1 2 3
o b
f 1 2 3
";
    let res = load_obj_from_bytes(src, feats(LOAD_OBJECTS)).unwrap();
    assert_eq!(res.vertex_buffer.len(), 9);
    assert_eq!(res.objects[0].indices, res.objects[1].indices);
}

#[test]
fn first_error_wins() {
    // the bad coordinate comes before the bad face line
    let err = load_obj_from_bytes(b"v x y z\nf 1\n", feats(NONE)).unwrap_err();
    assert!(matches!(err, ObjParseError::NumberFormat { .. }));
}
