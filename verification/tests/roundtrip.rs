use objparser::features::{ObjParseFeatures, LOAD_ALL, NONE};
use objparser::obj::{load_obj_from_bytes, ObjParseResult};

/// Re-encodes a parse result as OBJ text: the test oracle of the
/// round-trip property. Attribute tokens are written back verbatim;
/// faces reference the canonical vertex slots, 1-based, slash-joined
/// according to which optional buffers are present.
fn encode(res: &ObjParseResult) -> Vec<u8> {
    let mut out: Vec<u8> = Vec::new();
    for chunk in res.vertex_buffer.chunks(3) {
        out.extend_from_slice(b"v");
        for tok in chunk {
            out.push(b' ');
            out.extend_from_slice(tok);
        }
        out.push(b'\n');
    }
    if let Some(t) = &res.texcoord_buffer {
        for chunk in t.chunks(2) {
            out.extend_from_slice(b"vt");
            for tok in chunk {
                out.push(b' ');
                out.extend_from_slice(tok);
            }
            out.push(b'\n');
        }
    }
    if let Some(n) = &res.normal_buffer {
        for chunk in n.chunks(3) {
            out.extend_from_slice(b"vn");
            for tok in chunk {
                out.push(b' ');
                out.extend_from_slice(tok);
            }
            out.push(b'\n');
        }
    }
    let has_t = res.texcoord_buffer.is_some();
    let has_n = res.normal_buffer.is_some();
    for obj in &res.objects {
        if !obj.name.is_empty() {
            out.extend_from_slice(b"o ");
            out.extend_from_slice(&obj.name);
            out.push(b'\n');
        }
        for tri in obj.indices.chunks(3) {
            out.extend_from_slice(b"f");
            for &i in tri {
                out.push(b' ');
                let one_based = (i + 1).to_string();
                match (has_t, has_n) {
                    (false, false) => out.extend_from_slice(one_based.as_bytes()),
                    (true, false) => {
                        out.extend_from_slice(one_based.as_bytes());
                        out.push(b'/');
                        out.extend_from_slice(one_based.as_bytes());
                    },
                    (false, true) => {
                        out.extend_from_slice(one_based.as_bytes());
                        out.extend_from_slice(b"//");
                        out.extend_from_slice(one_based.as_bytes());
                    },
                    (true, true) => {
                        out.extend_from_slice(one_based.as_bytes());
                        out.push(b'/');
                        out.extend_from_slice(one_based.as_bytes());
                        out.push(b'/');
                        out.extend_from_slice(one_based.as_bytes());
                    },
                }
            }
            out.push(b'\n');
        }
    }
    out
}

fn counts(res: &ObjParseResult) -> (usize, usize, usize, usize, usize) {
    (
        res.vertex_buffer.len(),
        res.texcoord_buffer.as_ref().map_or(0, |t| t.len()),
        res.normal_buffer.as_ref().map_or(0, |n| n.len()),
        res.objects.iter().map(|o| o.indices.len()).sum(),
        res.objects.len(),
    )
}

fn assert_roundtrip(src: &[u8], bits: u32) {
    let f = ObjParseFeatures::new(bits);
    let first = load_obj_from_bytes(src, f).unwrap();
    let encoded = encode(&first);
    let second = load_obj_from_bytes(&encoded, f).unwrap();
    assert_eq!(counts(&first), counts(&second));
}

#[test]
fn roundtrip_positions_only() {
    assert_roundtrip(b"v 0 0 0\nv 1 0 0\nv 0 1 0\nv 1 1 0\nf 1 2 3 4\nf 1 2 3\n", NONE);
}

#[test]
fn roundtrip_with_all_attributes() {
    let src = b"v 0 0 0\nv 1 0 0\nv 0 1 0\nvt 0 0\nvt 1 0\nvt 0 1\nvn 0 0 1\n\
f 1/1/1 2/2/1 3/3/1\nf 1/2/1 2/3/1 3/1/1\n";
    assert_roundtrip(src, LOAD_ALL);
}

#[test]
fn roundtrip_with_objects() {
    let src = b"v 0 0 0\nv 1 0 0\nv 0 1 0\no first\nf 1 2 3\no second\nf 3 2 1\no first\nf 2 3 1\n";
    assert_roundtrip(src, LOAD_ALL);
}

#[test]
fn roundtrip_with_relative_indices() {
    let src = b"v 0 0 0\nv 1 0 0\nv 0 1 0\nf -3 -2 -1\n";
    assert_roundtrip(src, NONE);
}
