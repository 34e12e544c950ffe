//! A record of the file: its eight-byte header and the geometry that follows.

use crate::error::ShpError;
use crate::geometry::{
    MultiPartView, MultiPointShape, MultiPointView, PointShape, PolyLineShape, PolygonShape,
};
use crate::shape_type::{lemma_of_code_inverts_code, ShapeType};
use crate::wire::{be_i32, i32_be_at, i32_le_at, le_i32};
use vstd::prelude::*;
use vstd::slice::slice_subrange;

verus! {

/// The length in bytes of a record header.
pub const RECORD_HEADER_LEN: usize = 8;

/// The header of a record.
#[derive(Clone, Copy, Debug, PartialEq, Eq, Structural)]
pub struct ShpRecordHeader {
    /// The number of the record. Records are numbered from 1 in file order.
    pub number: i32,
    /// Length of the record's content in 16-bit words, this header not included.
    pub length: i32,
}

/// The geometry of a record.
#[derive(Clone, Debug, PartialEq, Eq)]
pub enum ShpRecordContent {
    Null,
    Point(PointShape),
    MultiPoint(MultiPointShape),
    PolyLine(PolyLineShape),
    Polygon(PolygonShape),
}

/// A record: header and geometry.
#[derive(Clone, Debug, PartialEq, Eq)]
pub struct ShpRecord {
    pub header: ShpRecordHeader,
    pub content: ShpRecordContent,
}

/// What a [`ShpRecordContent`] holds.
pub enum ContentView {
    Null,
    Point(PointShape),
    MultiPoint(MultiPointView),
    PolyLine(MultiPartView),
    Polygon(MultiPartView),
}

/// What a [`ShpRecord`] holds.
pub struct RecordView {
    pub header: ShpRecordHeader,
    pub content: ContentView,
}

impl ContentView {
    /// The counts that the geometry declares are the numbers of items it holds.
    pub open spec fn wf(self) -> bool {
        match self {
            ContentView::Null => true,
            ContentView::Point(_) => true,
            ContentView::MultiPoint(shape) => shape.wf(),
            ContentView::PolyLine(shape) => shape.wf(),
            ContentView::Polygon(shape) => shape.wf(),
        }
    }
}

impl View for ShpRecordContent {
    type V = ContentView;

    open spec fn view(&self) -> ContentView {
        match self {
            ShpRecordContent::Null => ContentView::Null,
            ShpRecordContent::Point(shape) => ContentView::Point(*shape),
            ShpRecordContent::MultiPoint(shape) => ContentView::MultiPoint(shape@),
            ShpRecordContent::PolyLine(shape) => ContentView::PolyLine(shape@),
            ShpRecordContent::Polygon(shape) => ContentView::Polygon(shape@),
        }
    }
}

impl View for ShpRecord {
    type V = RecordView;

    open spec fn view(&self) -> RecordView {
        RecordView { header: self.header, content: self.content@ }
    }
}

impl ShpRecordHeader {
    /// What the bytes at the start of a record decode to: its number, then the length of its
    /// content, both big-endian. Fewer than eight bytes hold no record header.
    pub open spec fn spec_parse(bytes: Seq<u8>) -> Result<ShpRecordHeader, ShpError> {
        if bytes.len() < 8 {
            Err(ShpError::TruncatedRecord)
        } else {
            Ok(ShpRecordHeader { number: be_i32(bytes, 0), length: be_i32(bytes, 4) })
        }
    }

    /// Decodes a record header from the first eight bytes of `record_header_buffer`.
    pub fn parse(record_header_buffer: &[u8]) -> (r: Result<ShpRecordHeader, ShpError>)
        ensures
            r == Self::spec_parse(record_header_buffer@),
    {
        if record_header_buffer.len() < RECORD_HEADER_LEN {
            return Err(ShpError::TruncatedRecord);
        }
        let number = i32_be_at(record_header_buffer, 0);
        let length = i32_be_at(record_header_buffer, 4);
        Ok(ShpRecordHeader { number, length })
    }
}

impl ShpRecordContent {
    /// What the content of a record decodes to.
    ///
    /// The first four bytes hold the shape-type tag, little-endian; the geometry follows. A
    /// null shape has no geometry, and nothing after its tag is read.
    pub open spec fn spec_parse(record_content: Seq<u8>) -> Result<ContentView, ShpError> {
        let tag = le_i32(record_content, 0) as int;
        let body = record_content.subrange(4, record_content.len() as int);
        if record_content.len() < 4 {
            Err(ShpError::TruncatedGeometry)
        } else if !ShapeType::is_code(tag) {
            Err(ShpError::UnknownShapeType)
        } else {
            match ShapeType::of_code(tag) {
                ShapeType::Null => Ok(ContentView::Null),
                ShapeType::Point => match PointShape::spec_parse(body) {
                    Ok(shape) => Ok(ContentView::Point(shape)),
                    Err(e) => Err(e),
                },
                ShapeType::MultiPoint => match MultiPointShape::spec_parse(body) {
                    Ok(shape) => Ok(ContentView::MultiPoint(shape)),
                    Err(e) => Err(e),
                },
                ShapeType::Polyline => match PolyLineShape::spec_parse(body) {
                    Ok(shape) => Ok(ContentView::PolyLine(shape)),
                    Err(e) => Err(e),
                },
                ShapeType::Polygon => match PolygonShape::spec_parse(body) {
                    Ok(shape) => Ok(ContentView::Polygon(shape)),
                    Err(e) => Err(e),
                },
                _ => Err(ShpError::UnimplementedShapeType),
            }
        }
    }

    /// The counts that the geometry declares are the numbers of items it holds.
    pub open spec fn wf(&self) -> bool {
        self@.wf()
    }

    /// Decodes the content of a record: the shape-type tag and the geometry it announces.
    pub fn parse(record_content: &[u8]) -> (r: Result<ShpRecordContent, ShpError>)
        ensures
            match r {
                Ok(content) => Self::spec_parse(record_content@) == Ok::<ContentView, ShpError>(
                    content@,
                ) && content.wf(),
                Err(e) => Self::spec_parse(record_content@) == Err::<ContentView, ShpError>(e),
            },
    {
        let len = record_content.len();
        if len < 4 {
            return Err(ShpError::TruncatedGeometry);
        }
        let shape_type = match ShapeType::from_i32(i32_le_at(record_content, 0)) {
            Some(shape_type) => shape_type,
            None => {
                return Err(ShpError::UnknownShapeType);
            },
        };
        let body = slice_subrange(record_content, 4, len);
        match shape_type {
            ShapeType::Null => Ok(ShpRecordContent::Null),
            ShapeType::Point => match PointShape::parse(body) {
                Ok(shape) => Ok(ShpRecordContent::Point(shape)),
                Err(e) => Err(e),
            },
            ShapeType::MultiPoint => match MultiPointShape::parse(body) {
                Ok(shape) => Ok(ShpRecordContent::MultiPoint(shape)),
                Err(e) => Err(e),
            },
            ShapeType::Polyline => match PolyLineShape::parse(body) {
                Ok(shape) => Ok(ShpRecordContent::PolyLine(shape)),
                Err(e) => Err(e),
            },
            ShapeType::Polygon => match PolygonShape::parse(body) {
                Ok(shape) => Ok(ShpRecordContent::Polygon(shape)),
                Err(e) => Err(e),
            },
            _ => Err(ShpError::UnimplementedShapeType),
        }
    }
}

/// A record tagged with a shape type that the format knows and this decoder does not read
/// is rejected as such, whatever follows the tag.
pub proof fn lemma_unimplemented_shape_type(record_content: Seq<u8>, shape_type: ShapeType)
    requires
        record_content.len() >= 4,
        le_i32(record_content, 0) == shape_type.code(),
        !shape_type.is_implemented(),
    ensures
        ShpRecordContent::spec_parse(record_content) == Err::<ContentView, ShpError>(
            ShpError::UnimplementedShapeType,
        ),
{
    lemma_of_code_inverts_code(shape_type);
}

} // verus!
