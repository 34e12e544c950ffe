//! The fixed 100-byte header that opens a file.

use crate::error::ShpError;
use crate::shape_type::{lemma_of_code_inverts_code, ShapeType};
use crate::wire::{
    be_i32, bits_are_zero, i32_be_at, i32_le_at, is_zero, le_i32, le_u64, u64_le_at,
};
use vstd::prelude::*;

verus! {

/// The file code that opens every file of the format.
pub const FILE_CODE: i32 = 9994;

/// The one version of the format.
pub const VERSION: i32 = 1000;

/// The decoded file header.
///
/// Coordinates are held as the bit patterns of IEEE 754 binary64 numbers, exactly as the file
/// stores them.
#[derive(Clone, Copy, Debug, PartialEq, Eq, Structural)]
pub struct ShpHeader {
    /// Length of the whole file in 16-bit words, the 50 words of this header included.
    pub length: i32,
    /// The version of the format, which is 1000.
    pub version: i32,
    /// The kind of shape that the records of the file hold.
    pub shape_type: ShapeType,
    /// The box that bounds every shape of the file.
    pub xmin: u64,
    pub xmax: u64,
    pub ymin: u64,
    pub ymax: u64,
    /// The range of the elevation values of the file, where it has any.
    pub zmax: Option<u64>,
    pub zmin: Option<u64>,
    /// The range of the measure values of the file, where it has any.
    pub mmax: Option<u64>,
    pub mmin: Option<u64>,
}

/// The two ends of an elevation or measure range as the header records them: a stored pair
/// of zeros says that the file has no such values, and both ends are then absent. Any other
/// pair is present as stored. A range that really is zero at both ends cannot be told from
/// an absent one.
pub open spec fn spec_optional_range(lo: u64, hi: u64) -> (Option<u64>, Option<u64>) {
    if is_zero(lo) && is_zero(hi) {
        (None, None)
    } else {
        (Some(lo), Some(hi))
    }
}

/// Computes [`spec_optional_range`].
pub fn optional_range(lo: u64, hi: u64) -> (r: (Option<u64>, Option<u64>))
    ensures
        r == spec_optional_range(lo, hi),
{
    if bits_are_zero(lo) && bits_are_zero(hi) {
        (None, None)
    } else {
        (Some(lo), Some(hi))
    }
}

/// Whether two ends can be those of an optional range: both absent, or both present and
/// not a pair of zeros.
pub open spec fn range_wf(lo: Option<u64>, hi: Option<u64>) -> bool {
    match (lo, hi) {
        (None, None) => true,
        (Some(lo), Some(hi)) => !(is_zero(lo) && is_zero(hi)),
        _ => false,
    }
}

impl ShpHeader {
    /// The version is the one version of the format, and the elevation range and the measure
    /// range are each absent or present as a whole.
    pub open spec fn wf(self) -> bool {
        &&& self.version == VERSION
        &&& range_wf(self.zmin, self.zmax)
        &&& range_wf(self.mmin, self.mmax)
    }

    /// What the 100 bytes of a file header decode to.
    ///
    /// The file code, the version and the shape type are tested in this order, and the
    /// first that fails decides the error.
    pub open spec fn spec_parse(bytes: Seq<u8>) -> Result<ShpHeader, ShpError> {
        let tag = le_i32(bytes, 32);
        let z = spec_optional_range(le_u64(bytes, 68), le_u64(bytes, 76));
        let m = spec_optional_range(le_u64(bytes, 84), le_u64(bytes, 92));
        if be_i32(bytes, 0) != FILE_CODE {
            Err(ShpError::InvalidMagic)
        } else if le_i32(bytes, 28) != VERSION {
            Err(ShpError::UnsupportedVersion)
        } else if !ShapeType::is_code(tag as int) {
            Err(ShpError::UnknownShapeType)
        } else {
            Ok(
                ShpHeader {
                    length: be_i32(bytes, 24),
                    version: VERSION,
                    shape_type: ShapeType::of_code(tag as int),
                    xmin: le_u64(bytes, 36),
                    ymin: le_u64(bytes, 44),
                    xmax: le_u64(bytes, 52),
                    ymax: le_u64(bytes, 60),
                    zmin: z.0,
                    zmax: z.1,
                    mmin: m.0,
                    mmax: m.1,
                },
            )
        }
    }

    /// Decodes a file header.
    pub fn parse(header_buffer: [u8; 100]) -> (r: Result<ShpHeader, ShpError>)
        ensures
            r == Self::spec_parse(header_buffer@),
            r matches Ok(header) ==> header.wf(),
    {
        let bytes = header_buffer.as_slice();
        let file_code = i32_be_at(bytes, 0);
        if file_code != FILE_CODE {
            return Err(ShpError::InvalidMagic);
        }
        let length = i32_be_at(bytes, 24);
        let version = i32_le_at(bytes, 28);
        if version != VERSION {
            return Err(ShpError::UnsupportedVersion);
        }
        let shape_type = match ShapeType::from_i32(i32_le_at(bytes, 32)) {
            Some(shape_type) => shape_type,
            None => {
                return Err(ShpError::UnknownShapeType);
            },
        };
        let xmin = u64_le_at(bytes, 36);
        let ymin = u64_le_at(bytes, 44);
        let xmax = u64_le_at(bytes, 52);
        let ymax = u64_le_at(bytes, 60);
        let (zmin, zmax) = optional_range(u64_le_at(bytes, 68), u64_le_at(bytes, 76));
        let (mmin, mmax) = optional_range(u64_le_at(bytes, 84), u64_le_at(bytes, 92));
        Ok(ShpHeader { length, version, shape_type, xmin, xmax, ymin, ymax, zmax, zmin, mmax, mmin })
    }
}

impl Default for ShpHeader {
    /// The header of an empty file of null shapes: version 1000, every bound zero, no
    /// elevation or measure range.
    fn default() -> (h: ShpHeader)
        ensures
            h == (ShpHeader {
                length: 0,
                version: VERSION,
                shape_type: ShapeType::Null,
                xmin: 0,
                xmax: 0,
                ymin: 0,
                ymax: 0,
                zmax: None,
                zmin: None,
                mmax: None,
                mmin: None,
            }),
            h.wf(),
    {
        ShpHeader {
            length: 0,
            version: VERSION,
            shape_type: ShapeType::Null,
            xmin: 0,
            xmax: 0,
            ymin: 0,
            ymax: 0,
            zmax: None,
            zmin: None,
            mmax: None,
            mmin: None,
        }
    }
}

/// A header that carries the file code, the version and the code of a shape type decodes,
/// to that shape type and to the length and the four planar bounds that its bytes store.
pub proof fn lemma_header_fields(bytes: Seq<u8>, shape_type: ShapeType)
    requires
        be_i32(bytes, 0) == FILE_CODE,
        le_i32(bytes, 28) == VERSION,
        le_i32(bytes, 32) == shape_type.code(),
    ensures
        ShpHeader::spec_parse(bytes) matches Ok(header) && {
            &&& header.shape_type == shape_type
            &&& header.version == VERSION
            &&& header.length == be_i32(bytes, 24)
            &&& header.xmin == le_u64(bytes, 36)
            &&& header.ymin == le_u64(bytes, 44)
            &&& header.xmax == le_u64(bytes, 52)
            &&& header.ymax == le_u64(bytes, 60)
        },
{
    lemma_of_code_inverts_code(shape_type);
}

/// In a header that decodes, the elevation range is absent at both ends where the two
/// stored ends are both zero, and else present at both ends as stored, one zero end
/// included. The measure range goes by the same rule, on its own.
pub proof fn lemma_header_ranges(bytes: Seq<u8>)
    requires
        ShpHeader::spec_parse(bytes) is Ok,
    ensures
        ({
            let header = ShpHeader::spec_parse(bytes)->Ok_0;
            let (zmin, zmax) = (le_u64(bytes, 68), le_u64(bytes, 76));
            let (mmin, mmax) = (le_u64(bytes, 84), le_u64(bytes, 92));
            &&& is_zero(zmin) && is_zero(zmax) ==> header.zmin is None && header.zmax is None
            &&& !(is_zero(zmin) && is_zero(zmax)) ==> header.zmin == Some(zmin) && header.zmax
                == Some(zmax)
            &&& is_zero(mmin) && is_zero(mmax) ==> header.mmin is None && header.mmax is None
            &&& !(is_zero(mmin) && is_zero(mmax)) ==> header.mmin == Some(mmin) && header.mmax
                == Some(mmax)
        }),
{
}

} // verus!
