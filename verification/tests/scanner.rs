use objparser::canon::{encode_key, VertexCanonicalizer};
use objparser::face::{read_corner, read_face, resolve_index, ObjVertexAbsolute, ObjVertexRelative};
use objparser::error::ObjParseError;
use objparser::numeric::{check_float_token, parse_i32};
use objparser::obj::triangulate_fan;
use objparser::parse_helper::{read_float, read_int, ReadIndexResult};
use objparser::split::{byte_is_space, bytes_eq, split_corner, split_lines, split_tokens};

#[test]
fn parse_i32_reads_plain_integers() {
    assert_eq!(parse_i32(b"123"), Some(123));
    assert_eq!(parse_i32(b"-45"), Some(-45));
    assert_eq!(parse_i32(b"0"), Some(0));
    assert_eq!(parse_i32(b"-0"), Some(0));
    assert_eq!(parse_i32(b"007"), Some(7));
}

#[test]
fn parse_i32_respects_the_i32_range() {
    assert_eq!(parse_i32(b"2147483647"), Some(i32::MAX));
    assert_eq!(parse_i32(b"-2147483648"), Some(i32::MIN));
    assert_eq!(parse_i32(b"2147483648"), None);
    assert_eq!(parse_i32(b"-2147483649"), None);
    assert_eq!(parse_i32(b"999999999999999999999999999999"), None);
}

#[test]
fn parse_i32_rejects_malformed_tokens() {
    assert_eq!(parse_i32(b""), None);
    assert_eq!(parse_i32(b"-"), None);
    assert_eq!(parse_i32(b"+5"), None);
    assert_eq!(parse_i32(b"1-2"), None);
    assert_eq!(parse_i32(b"--1"), None);
    assert_eq!(parse_i32(b"12 "), None);
    assert_eq!(parse_i32(b"1.5"), None);
}

#[test]
fn float_tokens_follow_the_decimal_grammar() {
    for good in [
        "1", "-1", "+1", "1.5", "-1.5", "+.5", ".5", "5.", "1e10", "1E-3", "1.5e+7", "-2.e2",
        "0.0",
    ] {
        assert!(check_float_token(good.as_bytes()), "rejected {:?}", good);
    }
    for bad in ["", ".", "-", "+", "e5", "1e", "1e+", "1.2.3", "--1", "1 ", "inf", "nan", "a1"] {
        assert!(!check_float_token(bad.as_bytes()), "accepted {:?}", bad);
    }
}

#[test]
fn read_int_scans_token_by_token() {
    let s = b"  12 34";
    match read_int(s, 0) {
        ReadIndexResult::Value(v, len) => {
            assert_eq!(v, 12);
            assert_eq!(len, 4);
        },
        other => panic!("unexpected {:?}", other),
    }
    match read_int(s, 4) {
        ReadIndexResult::Value(v, len) => {
            assert_eq!(v, 34);
            assert_eq!(len, 3);
        },
        other => panic!("unexpected {:?}", other),
    }
}

#[test]
fn read_int_reports_errors_and_exhaustion() {
    assert!(matches!(read_int(b"  abc", 0), ReadIndexResult::Error));
    assert!(matches!(read_int(b"   ", 0), ReadIndexResult::Finished));
    assert!(matches!(read_int(b"", 0), ReadIndexResult::Finished));
    // the scan runs on to the next whitespace, so trailing junk is
    // included in the length but not in the number
    match read_int(b"12x y", 0) {
        ReadIndexResult::Value(v, len) => {
            assert_eq!(v, 12);
            assert_eq!(len, 3);
        },
        other => panic!("unexpected {:?}", other),
    }
}

#[test]
fn read_float_hands_back_the_validated_token() {
    let r = read_float(b"  1.5e2 x", 0).unwrap();
    assert_eq!(r.0, b"1.5e2".to_vec());
    assert_eq!(r.1, 7);
    assert!(read_float(b"  abc ", 0).is_none());
    assert!(read_float(b"   ", 0).is_none());
}

#[test]
fn corners_carry_their_components() {
    let (c, shape) = read_corner(b"1/2/3").unwrap();
    assert_eq!(
        c,
        ObjVertexRelative { position_index: 1, texcoord_index: Some(2), normal_index: Some(3) }
    );
    assert_eq!(shape, 7);
    let (c, shape) = read_corner(b"4//5").unwrap();
    assert_eq!(
        c,
        ObjVertexRelative { position_index: 4, texcoord_index: None, normal_index: Some(5) }
    );
    assert_eq!(shape, 5);
    let (c, shape) = read_corner(b"-7/8").unwrap();
    assert_eq!(
        c,
        ObjVertexRelative { position_index: -7, texcoord_index: Some(8), normal_index: None }
    );
    assert_eq!(shape, 3);
    let (_, shape) = read_corner(b"9").unwrap();
    assert_eq!(shape, 1);
}

#[test]
fn read_face_collects_uniform_corners() {
    let corners: Vec<&[u8]> = vec![b"1/1", b"2/2", b"3/3"];
    let mut out: Vec<ObjVertexRelative> = Vec::new();
    let shape = read_face(&corners, &mut out).unwrap();
    assert_eq!(shape, 3);
    assert_eq!(out.len(), 3);
    assert_eq!(out[2].position_index, 3);
}

#[test]
fn read_face_rejects_mixed_shapes() {
    let corners: Vec<&[u8]> = vec![b"1/1", b"2//2"];
    let mut out: Vec<ObjVertexRelative> = Vec::new();
    let err = read_face(&corners, &mut out).unwrap_err();
    assert!(matches!(err, ObjParseError::InconsistentFaceShape));
}

#[test]
fn resolve_index_follows_the_spec_rules() {
    assert_eq!(resolve_index(-1, 5).unwrap(), 4);
    assert_eq!(resolve_index(-5, 5).unwrap(), 0);
    assert!(matches!(
        resolve_index(-6, 5).unwrap_err(),
        ObjParseError::RelativeIndexOutOfBounds { index: -6, pool_len: 5 }
    ));
    assert_eq!(resolve_index(1, 5).unwrap(), 0);
    assert_eq!(resolve_index(5, 5).unwrap(), 4);
    assert!(matches!(
        resolve_index(6, 5).unwrap_err(),
        ObjParseError::AbsoluteIndexOutOfBounds { index: 5, pool_len: 5 }
    ));
    assert!(matches!(
        resolve_index(0, 5).unwrap_err(),
        ObjParseError::AbsoluteIndexOutOfBounds { index: 5, pool_len: 5 }
    ));
}

#[test]
fn triangulate_fan_appends_swapped_triangles() {
    let corners = [5u32, 6, 7, 8];
    let mut out: Vec<u32> = vec![9];
    triangulate_fan(&corners, &mut out);
    assert_eq!(out, vec![9, 5, 7, 6, 5, 8, 7]);
}

#[test]
fn canonicalizer_assigns_and_remembers_indices() {
    let mut c = VertexCanonicalizer::new();
    let k1 = ObjVertexAbsolute { position_index: 0, texcoord_index: None, normal_index: None };
    let k2 = ObjVertexAbsolute { position_index: 0, texcoord_index: Some(0), normal_index: None };
    assert!(c.get(&k1).is_none());
    c.insert(k1, 0);
    c.insert(k2, 1);
    assert_eq!(c.get(&k1), Some(0));
    assert_eq!(c.get(&k2), Some(1));
    // an absent optional index is never the same key as a present zero
    assert_ne!(encode_key(&k1), encode_key(&k2));
}

#[test]
fn lines_split_on_both_break_bytes() {
    let lines = split_lines(b"a\r\nbb\nc");
    let got: Vec<&[u8]> = lines;
    assert_eq!(got, vec![&b"a"[..], &b""[..], &b"bb"[..], &b"c"[..]]);
}

#[test]
fn tokens_drop_empty_segments() {
    let toks = split_tokens(b"  v  1.0\t2.0 ");
    assert_eq!(toks, vec![&b"v"[..], &b"1.0"[..], &b"2.0"[..]]);
    assert!(split_tokens(b"   ").is_empty());
}

#[test]
fn corner_components_keep_empty_segments() {
    let parts = split_corner(b"1//2");
    assert_eq!(parts, vec![&b"1"[..], &b""[..], &b"2"[..]]);
    let parts = split_corner(b"7");
    assert_eq!(parts, vec![&b"7"[..]]);
}

#[test]
fn byte_helpers_behave() {
    assert!(byte_is_space(b' '));
    assert!(byte_is_space(b'\t'));
    assert!(byte_is_space(0x0c));
    assert!(!byte_is_space(b'/'));
    assert!(bytes_eq(b"abc", b"abc"));
    assert!(!bytes_eq(b"abc", b"abd"));
    assert!(!bytes_eq(b"abc", b"ab"));
}
