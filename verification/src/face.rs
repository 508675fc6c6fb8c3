//! Face corners: parsing one `/`-separated corner token, checking that
//! all corners of a face line carry the same set of components, and
//! resolving 1-based or relative indices into absolute pool indices.

use vstd::prelude::*;

use crate::error::{ErrView, NumericKind, ObjParseError};
use crate::numeric::{parse_i32, spec_parse_i32};
use crate::split::{byte_views, copy_bytes, spec_corner_parts, split_corner};

verus! {

/// One face corner as written: a required signed position index and
/// optional signed texcoord / normal indices, 1-based or relative,
/// not yet resolved.
#[derive(Clone, Copy, PartialEq, Eq, Debug)]
pub struct ObjVertexRelative {
    pub position_index: i32,
    pub texcoord_index: Option<i32>,
    pub normal_index: Option<i32>,
}

/// One face corner after resolution: absolute, zero-based pool indices.
/// Two corners are the same output vertex exactly when all three fields
/// are equal.
#[derive(Clone, Copy, PartialEq, Eq, Hash, Debug)]
pub struct ObjVertexAbsolute {
    pub position_index: u32,
    pub texcoord_index: Option<u32>,
    pub normal_index: Option<u32>,
}

/// The set of components a corner carries, as a bitmask: position,
/// texcoord and normal in the three low bits.
pub open spec fn corner_shape(parts: Seq<Seq<u8>>) -> u8 {
    ((if parts.len() >= 1 && parts[0].len() > 0 {
        1int
    } else {
        0int
    }) + (if parts.len() >= 2 && parts[1].len() > 0 {
        2int
    } else {
        0int
    }) + (if parts.len() >= 3 && parts[2].len() > 0 {
        4int
    } else {
        0int
    })) as u8
}

/// What parsing one corner token yields: its indices and its shape, or
/// the first error. Components are examined left to right, so a malformed
/// number is reported before a surplus fourth component, and that before
/// a missing position index.
pub open spec fn spec_read_corner(s: Seq<u8>) -> Result<(ObjVertexRelative, u8), ErrView> {
    let parts = spec_corner_parts(s);
    if parts.len() >= 1 && parts[0].len() > 0 && spec_parse_i32(parts[0]) is None {
        Err(ErrView::NumberFormat { token: parts[0], kind: NumericKind::Int })
    } else if parts.len() >= 2 && parts[1].len() > 0 && spec_parse_i32(parts[1]) is None {
        Err(ErrView::NumberFormat { token: parts[1], kind: NumericKind::Int })
    } else if parts.len() >= 3 && parts[2].len() > 0 && spec_parse_i32(parts[2]) is None {
        Err(ErrView::NumberFormat { token: parts[2], kind: NumericKind::Int })
    } else if parts.len() > 3 {
        Err(ErrView::TooManyIndexComponents)
    } else if parts[0].len() == 0 {
        Err(ErrView::MissingPositionIndex)
    } else {
        Ok(
            (
                ObjVertexRelative {
                    position_index: spec_parse_i32(parts[0])->Some_0,
                    texcoord_index: if parts.len() >= 2 && parts[1].len() > 0 {
                        Some(spec_parse_i32(parts[1])->Some_0)
                    } else {
                        None
                    },
                    normal_index: if parts.len() >= 3 && parts[2].len() > 0 {
                        Some(spec_parse_i32(parts[2])->Some_0)
                    } else {
                        None
                    },
                },
                corner_shape(parts),
            ),
        )
    }
}

/// The corners of one face line from index `k` on, all of which must
/// carry the established shape `shape`.
pub open spec fn spec_read_face_from(corners: Seq<Seq<u8>>, k: int, shape: u8) -> Result<
    Seq<ObjVertexRelative>,
    ErrView,
>
    decreases corners.len() - k,
{
    if k < 0 || k >= corners.len() {
        Ok(Seq::<ObjVertexRelative>::empty())
    } else {
        match spec_read_corner(corners[k]) {
            Err(e) => Err(e),
            Ok((v, sh)) => if sh != shape {
                Err(ErrView::InconsistentFaceShape)
            } else {
                match spec_read_face_from(corners, k + 1, shape) {
                    Err(e) => Err(e),
                    Ok(rest) => Ok(seq![v] + rest),
                }
            },
        }
    }
}

/// What reading one face line's corner tokens yields: the corners in
/// order and the face's shape, or the first error. The first corner
/// fixes the shape; every later corner must match it.
pub open spec fn spec_read_face(corners: Seq<Seq<u8>>) -> Result<
    (Seq<ObjVertexRelative>, u8),
    ErrView,
> {
    if corners.len() == 0 {
        Ok((Seq::<ObjVertexRelative>::empty(), 0u8))
    } else {
        match spec_read_corner(corners[0]) {
            Err(e) => Err(e),
            Ok((v0, sh)) => match spec_read_face_from(corners, 1, sh) {
                Err(e) => Err(e),
                Ok(rest) => Ok((seq![v0] + rest, sh)),
            },
        }
    }
}

/// Parses one corner token (`p`, `p/t`, `p//n` or `p/t/n`).
pub fn read_corner(token: &[u8]) -> (r: Result<(ObjVertexRelative, u8), ObjParseError>)
    ensures
        match spec_read_corner(token@) {
            Ok((v, sh)) => r is Ok && r->Ok_0.0 == v && r->Ok_0.1 == sh,
            Err(e) => r is Err && r->Err_0@ == e,
        },
{
    let parts = split_corner(token);
    let n = parts.len();
    let mut v0: i32 = 0;
    let mut v1: Option<i32> = None;
    let mut v2: Option<i32> = None;
    if parts[0].len() > 0 {
        match parse_i32(parts[0]) {
            Some(v) => {
                v0 = v;
            },
            None => {
                return Err(
                    ObjParseError::NumberFormat {
                        token: copy_bytes(parts[0]),
                        kind: NumericKind::Int,
                    },
                );
            },
        }
    }
    if n >= 2 && parts[1].len() > 0 {
        match parse_i32(parts[1]) {
            Some(v) => {
                v1 = Some(v);
            },
            None => {
                return Err(
                    ObjParseError::NumberFormat {
                        token: copy_bytes(parts[1]),
                        kind: NumericKind::Int,
                    },
                );
            },
        }
    }
    if n >= 3 && parts[2].len() > 0 {
        match parse_i32(parts[2]) {
            Some(v) => {
                v2 = Some(v);
            },
            None => {
                return Err(
                    ObjParseError::NumberFormat {
                        token: copy_bytes(parts[2]),
                        kind: NumericKind::Int,
                    },
                );
            },
        }
    }
    if n > 3 {
        return Err(ObjParseError::TooManyIndexComponents);
    }
    if parts[0].len() == 0 {
        return Err(ObjParseError::MissingPositionIndex);
    }
    let mut shape: u8 = 1;
    if v1.is_some() {
        shape = shape + 2;
    }
    if v2.is_some() {
        shape = shape + 4;
    }
    Ok((ObjVertexRelative { position_index: v0, texcoord_index: v1, normal_index: v2 }, shape))
}

/// Reads all corners of one face line into `out`, replacing its previous
/// contents, and returns the face's shape.
pub fn read_face(corners: &[&[u8]], out: &mut Vec<ObjVertexRelative>) -> (r: Result<
    u8,
    ObjParseError,
>)
    ensures
        match spec_read_face(byte_views(corners@)) {
            Ok((vs, sh)) => r is Ok && r->Ok_0 == sh && final(out)@ == vs,
            Err(e) => r is Err && r->Err_0@ == e,
        },
{
    let ghost views = byte_views(corners@);
    out.clear();
    let n = corners.len();
    if n == 0 {
        return Ok(0);
    }
    let shape: u8;
    match read_corner(corners[0]) {
        Err(e) => {
            return Err(e);
        },
        Ok((v0, sh)) => {
            shape = sh;
            out.push(v0);
        },
    }
    let mut k: usize = 1;
    while k < n
        invariant
            1 <= k <= n,
            n == corners@.len(),
            views == byte_views(corners@),
            views.len() == n,
            spec_read_corner(views[0]) matches Ok((v0, sh)) && sh == shape && out@.len() >= 1,
            spec_read_face(views) == (match spec_read_face_from(views, k as int, shape) {
                Err(e) => Err::<(Seq<ObjVertexRelative>, u8), ErrView>(e),
                Ok(rest) => Ok((out@ + rest, shape)),
            }),
        decreases n - k,
    {
        proof {
            assert(views[k as int] == corners@[k as int]@);
        }
        match read_corner(corners[k]) {
            Err(e) => {
                return Err(e);
            },
            Ok((v, sh)) => {
                if sh != shape {
                    return Err(ObjParseError::InconsistentFaceShape);
                }
                let ghost prev = out@;
                out.push(v);
                proof {
                    if let Ok(rest) = spec_read_face_from(views, k + 1, shape) {
                        assert(prev + (seq![v] + rest) =~= out@ + rest);
                    }
                }
            },
        }
        k = k + 1;
    }
    Ok(shape)
}

/// Resolves one signed corner index against a pool of `pool_len` entries:
/// a positive index is 1-based; zero and negative indices count back from
/// the end of the pool.
pub open spec fn spec_resolve_index(value: int, pool_len: int) -> Result<int, ErrView> {
    if value > 0 {
        if value - 1 < pool_len {
            Ok(value - 1)
        } else {
            Err(ErrView::AbsoluteIndexOutOfBounds { index: value - 1, pool_len })
        }
    } else {
        let a = pool_len + value;
        if a < 0 {
            Err(ErrView::RelativeIndexOutOfBounds { index: value, pool_len })
        } else if a >= pool_len {
            Err(ErrView::AbsoluteIndexOutOfBounds { index: a, pool_len })
        } else {
            Ok(a)
        }
    }
}

/// Resolves one signed corner index against the current pool length.
pub fn resolve_index(value: i32, pool_len: usize) -> (r: Result<usize, ObjParseError>)
    ensures
        match spec_resolve_index(value as int, pool_len as int) {
            Ok(a) => r is Ok && r->Ok_0 == a,
            Err(e) => r is Err && r->Err_0@ == e,
        },
{
    if value > 0 {
        let a = (value - 1) as usize;
        if a < pool_len {
            Ok(a)
        } else {
            Err(ObjParseError::AbsoluteIndexOutOfBounds { index: a, pool_len })
        }
    } else {
        let back = -(value as i64);
        if (pool_len as u64) < (back as u64) {
            Err(ObjParseError::RelativeIndexOutOfBounds { index: value, pool_len })
        } else {
            let a = pool_len - (back as usize);
            if a >= pool_len {
                Err(ObjParseError::AbsoluteIndexOutOfBounds { index: a, pool_len })
            } else {
                Ok(a)
            }
        }
    }
}

} // verus!
