//! The error taxonomy of the parser.
//!
//! Every error is terminal for the whole parse call: no partial result is
//! ever returned, and the first error encountered is the one reported.
//! Each variant carries enough context (offending bytes, expected
//! cardinality, computed bounds) for a caller to build a diagnostic.

use vstd::prelude::*;

verus! {

/// The numeric kind a token failed to parse as.
#[derive(Clone, Copy, PartialEq, Eq, Structural, Debug)]
pub enum NumericKind {
    Float,
    Int,
}

/// An error produced by one parse call.
#[derive(Clone, PartialEq, Eq, Debug)]
#[allow(inconsistent_fields)]
pub enum ObjParseError {
    /// A token could not be read as a number of the given kind.
    NumberFormat { token: Vec<u8>, kind: NumericKind },
    /// A face corner's first `/`-separated component was empty.
    MissingPositionIndex,
    /// A face corner held more than three `/`-separated components.
    TooManyIndexComponents,
    /// Two corners of one face line carried different sets of components.
    InconsistentFaceShape,
    /// A non-positive corner index reached below the start of its pool.
    RelativeIndexOutOfBounds { index: i32, pool_len: usize },
    /// A resolved corner index reached at or past the end of its pool;
    /// the largest valid index is `pool_len - 1`.
    AbsoluteIndexOutOfBounds { index: usize, pool_len: usize },
    /// A `v`, `vt` or `vn` line held fewer numeric tokens than required.
    InsufficientVertexCoordinates { required: usize, found: usize },
    /// A face line held fewer than three corners.
    InsufficientFaceCorners { found: usize },
    /// An attribute pool or the canonical vertex set outgrew the 32-bit
    /// index range of the output buffers.
    TooManyVertices,
    /// Reported by a file-loading collaborator, never by the parser itself.
    IoFailure,
}

/// The mathematical shape of an [`ObjParseError`], with the offending
/// token as a byte sequence.
pub enum ErrView {
    NumberFormat { token: Seq<u8>, kind: NumericKind },
    MissingPositionIndex,
    TooManyIndexComponents,
    InconsistentFaceShape,
    RelativeIndexOutOfBounds { index: int, pool_len: int },
    AbsoluteIndexOutOfBounds { index: int, pool_len: int },
    InsufficientVertexCoordinates { required: int, found: int },
    InsufficientFaceCorners { found: int },
    TooManyVertices,
    IoFailure,
}

impl View for ObjParseError {
    type V = ErrView;

    open spec fn view(&self) -> ErrView {
        match self {
            ObjParseError::NumberFormat { token, kind } => ErrView::NumberFormat {
                token: token@,
                kind: *kind,
            },
            ObjParseError::MissingPositionIndex => ErrView::MissingPositionIndex,
            ObjParseError::TooManyIndexComponents => ErrView::TooManyIndexComponents,
            ObjParseError::InconsistentFaceShape => ErrView::InconsistentFaceShape,
            ObjParseError::RelativeIndexOutOfBounds { index, pool_len } => {
                ErrView::RelativeIndexOutOfBounds { index: *index as int, pool_len: *pool_len as int }
            },
            ObjParseError::AbsoluteIndexOutOfBounds { index, pool_len } => {
                ErrView::AbsoluteIndexOutOfBounds { index: *index as int, pool_len: *pool_len as int }
            },
            ObjParseError::InsufficientVertexCoordinates { required, found } => {
                ErrView::InsufficientVertexCoordinates {
                    required: *required as int,
                    found: *found as int,
                }
            },
            ObjParseError::InsufficientFaceCorners { found } => {
                ErrView::InsufficientFaceCorners { found: *found as int }
            },
            ObjParseError::TooManyVertices => ErrView::TooManyVertices,
            ObjParseError::IoFailure => ErrView::IoFailure,
        }
    }
}

} // verus!
