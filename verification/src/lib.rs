//! Decoder for the geometry file of the shapefile format.
//!
//! The crate turns the bytes of a `.shp` file into typed records: a file header, then one
//! record per geometry. Every decoder is a total function from bytes to a value or an error,
//! and its contract states the result over a mathematical reading of the byte layout.

pub mod error;
pub mod geometry;
pub mod header;
pub mod reader;
pub mod record;
pub mod shape_type;
pub mod wire;

pub use error::{ReadError, ShpError};
pub use geometry::{MultiPointShape, PointShape, PolyLineShape, PolygonShape};
pub use header::ShpHeader;
pub use reader::{read_record, read_records, ShpFile, ShpReader};
pub use record::{ShpRecord, ShpRecordContent, ShpRecordHeader};
pub use shape_type::ShapeType;
