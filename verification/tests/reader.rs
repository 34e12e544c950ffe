use shapefile::{
    read_record, read_records, PointShape, ReadError, ShapeType, ShpError, ShpReader, ShpRecord,
    ShpRecordContent, ShpRecordHeader,
};

fn record(number: i32, content: &[u8]) -> Vec<u8> {
    assert!(content.len() % 2 == 0);
    let mut bytes = number.to_be_bytes().to_vec();
    bytes.extend_from_slice(&((content.len() / 2) as i32).to_be_bytes());
    bytes.extend_from_slice(content);
    bytes
}

fn point_content(x: f64, y: f64) -> Vec<u8> {
    let mut bytes = 1i32.to_le_bytes().to_vec();
    bytes.extend_from_slice(&x.to_le_bytes());
    bytes.extend_from_slice(&y.to_le_bytes());
    bytes
}

fn null_content() -> Vec<u8> {
    0i32.to_le_bytes().to_vec()
}

fn point_record(number: i32, x: f64, y: f64) -> ShpRecord {
    ShpRecord {
        header: ShpRecordHeader { number, length: 10 },
        content: ShpRecordContent::Point(PointShape { x: x.to_bits(), y: y.to_bits() }),
    }
}

fn header_bytes(shape_type: i32, length: i32) -> [u8; 100] {
    let mut bytes = [0u8; 100];
    bytes[0..4].copy_from_slice(&9994i32.to_be_bytes());
    bytes[24..28].copy_from_slice(&length.to_be_bytes());
    bytes[28..32].copy_from_slice(&1000i32.to_le_bytes());
    bytes[32..36].copy_from_slice(&shape_type.to_le_bytes());
    bytes
}

fn truncated(offset: usize, number: Option<i32>) -> ReadError {
    ReadError::Record { kind: ShpError::TruncatedRecord, offset, number }
}

#[test]
fn a_new_reader_holds_zeros_and_no_records() {
    let reader = ShpReader::new();
    assert_eq!(reader.shp_header_buffer, [0u8; 100]);
    assert!(reader.record_buffer.is_empty());
}

#[test]
fn a_new_reader_does_not_decode() {
    assert_eq!(ShpReader::new().read(), Err(ReadError::Header { kind: ShpError::InvalidMagic }));
}

#[test]
fn an_empty_buffer_holds_no_records() {
    assert_eq!(read_records(&[]), Ok(vec![]));
}

#[test]
fn one_record_decodes_and_tells_where_the_next_starts() {
    let mut bytes = vec![0xee; 3];
    bytes.extend_from_slice(&record(7, &point_content(1.0, 2.0)));
    bytes.extend_from_slice(&[0xee; 5]);
    assert_eq!(read_record(&bytes, 3), Ok((point_record(7, 1.0, 2.0), 3 + 8 + 20)));
}

#[test]
fn two_records_decode_in_file_order() {
    let mut bytes = record(1, &point_content(1.0, 2.0));
    bytes.extend_from_slice(&record(2, &point_content(-3.5, 4.25)));
    let records = read_records(&bytes).unwrap();
    assert_eq!(records.len(), 2);
    assert_eq!(records, vec![point_record(1, 1.0, 2.0), point_record(2, -3.5, 4.25)]);
}

#[test]
fn records_of_different_lengths_are_cut_at_their_declared_lengths() {
    let mut bytes = record(1, &null_content());
    bytes.extend_from_slice(&record(2, &point_content(5.0, 6.0)));
    bytes.extend_from_slice(&record(3, &null_content()));
    let records = read_records(&bytes).unwrap();
    assert_eq!(
        records,
        vec![
            ShpRecord {
                header: ShpRecordHeader { number: 1, length: 2 },
                content: ShpRecordContent::Null
            },
            point_record(2, 5.0, 6.0),
            ShpRecord {
                header: ShpRecordHeader { number: 3, length: 2 },
                content: ShpRecordContent::Null
            },
        ]
    );
}

#[test]
fn a_record_may_declare_more_than_its_geometry_needs() {
    let mut content = point_content(5.0, 6.0);
    content.extend_from_slice(&[0xab; 6]);
    let mut bytes = record(1, &content);
    bytes.extend_from_slice(&record(2, &null_content()));
    let records = read_records(&bytes).unwrap();
    assert_eq!(records.len(), 2);
    assert_eq!(records[0].header, ShpRecordHeader { number: 1, length: 13 });
    assert_eq!(
        records[0].content,
        ShpRecordContent::Point(PointShape { x: 5.0f64.to_bits(), y: 6.0f64.to_bits() })
    );
    assert_eq!(records[1].content, ShpRecordContent::Null);
}

#[test]
fn record_numbers_are_kept_as_declared() {
    let mut bytes = record(5, &null_content());
    bytes.extend_from_slice(&record(-2, &null_content()));
    bytes.extend_from_slice(&record(5, &null_content()));
    let records = read_records(&bytes).unwrap();
    let numbers: Vec<i32> = records.iter().map(|r| r.header.number).collect();
    assert_eq!(numbers, vec![5, -2, 5]);
}

#[test]
fn a_second_record_that_declares_too_much_is_truncated() {
    let first = record(1, &point_content(1.0, 2.0));
    let mut bytes = first.clone();
    let second = record(2, &point_content(3.0, 4.0));
    bytes.extend_from_slice(&second[..second.len() - 2]);
    assert_eq!(read_records(&bytes), Err(truncated(first.len(), Some(2))));
    assert_eq!(read_records(&bytes).unwrap_err().kind(), ShpError::TruncatedRecord);
}

#[test]
fn a_record_that_declares_the_largest_length_is_truncated() {
    let mut bytes = 9i32.to_be_bytes().to_vec();
    bytes.extend_from_slice(&i32::MAX.to_be_bytes());
    bytes.extend_from_slice(&point_content(1.0, 2.0));
    assert_eq!(read_records(&bytes), Err(truncated(0, Some(9))));
}

#[test]
fn a_record_that_declares_a_length_below_zero_is_truncated() {
    for length in [-1i32, -4, i32::MIN] {
        let mut bytes = 3i32.to_be_bytes().to_vec();
        bytes.extend_from_slice(&length.to_be_bytes());
        bytes.extend_from_slice(&point_content(1.0, 2.0));
        assert_eq!(read_records(&bytes), Err(truncated(0, Some(3))));
    }
}

#[test]
fn bytes_short_of_a_record_header_are_truncated() {
    let first = record(1, &null_content());
    for stray in 1..8 {
        let mut bytes = first.clone();
        bytes.extend_from_slice(&vec![0u8; stray]);
        assert_eq!(read_records(&bytes), Err(truncated(first.len(), None)));
    }
}

#[test]
fn a_record_beyond_the_buffer_is_truncated() {
    let bytes = record(1, &null_content());
    assert_eq!(read_record(&bytes, bytes.len()), Err(truncated(bytes.len(), None)));
    assert_eq!(read_record(&bytes, bytes.len() + 100), Err(truncated(bytes.len() + 100, None)));
    assert_eq!(read_record(&bytes, usize::MAX), Err(truncated(usize::MAX, None)));
    assert_eq!(read_record(&[], 0), Err(truncated(0, None)));
}

#[test]
fn a_record_without_content_is_a_truncated_geometry() {
    let bytes = record(4, &[]);
    assert_eq!(
        read_records(&bytes),
        Err(ReadError::Record { kind: ShpError::TruncatedGeometry, offset: 0, number: Some(4) })
    );
}

#[test]
fn a_geometry_that_outgrows_its_record_is_a_truncated_geometry() {
    let content = point_content(1.0, 2.0);
    let mut bytes = record(1, &null_content());
    bytes.extend_from_slice(&record(2, &content[..18]));
    bytes.extend_from_slice(&record(3, &null_content()));
    assert_eq!(
        read_records(&bytes),
        Err(ReadError::Record { kind: ShpError::TruncatedGeometry, offset: 12, number: Some(2) })
    );
}

#[test]
fn an_unimplemented_record_stops_the_decoding_where_it_stands() {
    let mut bytes = record(1, &point_content(1.0, 2.0));
    let mut point_z = 11i32.to_le_bytes().to_vec();
    point_z.extend_from_slice(&[0u8; 32]);
    bytes.extend_from_slice(&record(2, &point_z));
    bytes.extend_from_slice(&record(3, &point_content(1.0, 2.0)));
    let error = read_records(&bytes).unwrap_err();
    assert_eq!(
        error,
        ReadError::Record { kind: ShpError::UnimplementedShapeType, offset: 28, number: Some(2) }
    );
    assert_eq!(error.kind(), ShpError::UnimplementedShapeType);
}

#[test]
fn an_unknown_record_stops_the_decoding_where_it_stands() {
    let mut bytes = record(1, &null_content());
    bytes.extend_from_slice(&record(2, &2i32.to_le_bytes()));
    assert_eq!(
        read_records(&bytes),
        Err(ReadError::Record { kind: ShpError::UnknownShapeType, offset: 12, number: Some(2) })
    );
}

#[test]
fn a_one_point_file_decodes_end_to_end() {
    let mut reader = ShpReader::new();
    reader.shp_header_buffer = header_bytes(1, 64);
    reader.record_buffer = record(1, &point_content(12.5, -7.25));
    let file = reader.read().unwrap();
    assert_eq!(file.header.shape_type, ShapeType::Point);
    assert_eq!(file.header.length, 64);
    assert_eq!(file.header.version, 1000);
    assert_eq!(file.records.len(), 1);
    assert_eq!(file.records[0].header, ShpRecordHeader { number: 1, length: 10 });
    match &file.records[0].content {
        ShpRecordContent::Point(point) => {
            assert_eq!(f64::from_bits(point.x), 12.5);
            assert_eq!(f64::from_bits(point.y), -7.25);
        }
        other => panic!("not a point: {:?}", other),
    }
}

#[test]
fn a_file_without_records_decodes_to_its_header() {
    let mut reader = ShpReader::new();
    reader.shp_header_buffer = header_bytes(5, 50);
    let file = reader.read().unwrap();
    assert_eq!(file.header.shape_type, ShapeType::Polygon);
    assert_eq!(file.header.length, 50);
    assert!(file.records.is_empty());
}

#[test]
fn a_header_error_comes_before_any_record_error() {
    let mut reader = ShpReader::new();
    reader.shp_header_buffer = header_bytes(1, 50);
    reader.shp_header_buffer[28] = 0;
    reader.record_buffer = vec![1, 2, 3];
    let error = reader.read().unwrap_err();
    assert_eq!(error, ReadError::Header { kind: ShpError::UnsupportedVersion });
    assert_eq!(error.kind(), ShpError::UnsupportedVersion);
    reader.shp_header_buffer = header_bytes(4, 50);
    assert_eq!(reader.read(), Err(ReadError::Header { kind: ShpError::UnknownShapeType }));
}

#[test]
fn a_record_error_fails_the_whole_file() {
    let mut reader = ShpReader::new();
    reader.shp_header_buffer = header_bytes(1, 50);
    reader.record_buffer = record(1, &point_content(1.0, 2.0));
    reader.record_buffer.extend_from_slice(&[0, 0, 0, 2, 0, 0, 0, 10]);
    assert_eq!(reader.read(), Err(truncated(28, Some(2))));
}
