//! The ways in which decoding can fail.

use vstd::prelude::*;

verus! {

/// Why a run of bytes was rejected.
#[derive(Clone, Copy, Debug, PartialEq, Eq, Structural)]
pub enum ShpError {
    /// The file code at the start of the file header is not 9994.
    InvalidMagic,
    /// The version in the file header is not 1000.
    UnsupportedVersion,
    /// A shape-type tag is none of the fourteen codes of the format.
    UnknownShapeType,
    /// A shape-type tag names a shape that the format knows and this decoder does not read:
    /// one with elevation or measure values, or a multi-patch.
    UnimplementedShapeType,
    /// The buffer ends before a record does: fewer bytes are left than a record header takes
    /// or than the header declares. A declared length below zero, which no buffer can meet,
    /// counts as such.
    TruncatedRecord,
    /// The content of a record ends before its geometry does: it is shorter than the
    /// shape-type tag, than the fixed part of the geometry, or than the parts and points that
    /// the geometry declares. A declared count below zero, which no content can meet, counts
    /// as such.
    TruncatedGeometry,
}

/// Where in a file decoding stopped, and why.
#[derive(Clone, Copy, Debug, PartialEq, Eq, Structural)]
pub enum ReadError {
    /// The 100-byte file header was rejected. The kind tells which field was at fault.
    Header {
        /// Why it was rejected.
        kind: ShpError,
    },
    /// A record was rejected.
    Record {
        /// Why it was rejected.
        kind: ShpError,
        /// Where the record starts, in bytes from the start of the record buffer.
        offset: usize,
        /// The number that the record declares for itself, where its header could be read.
        number: Option<i32>,
    },
}

impl ReadError {
    /// Why decoding stopped, without the place.
    pub open spec fn spec_kind(self) -> ShpError {
        match self {
            ReadError::Header { kind } => kind,
            ReadError::Record { kind, .. } => kind,
        }
    }

    /// Why decoding stopped, without the place.
    #[verifier::when_used_as_spec(spec_kind)]
    pub fn kind(self) -> (k: ShpError)
        ensures
            k == self.spec_kind(),
    {
        match self {
            ReadError::Header { kind } => kind,
            ReadError::Record { kind, .. } => kind,
        }
    }
}

} // verus!
