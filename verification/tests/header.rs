use shapefile::{ShapeType, ShpError, ShpHeader};

fn header_bytes(shape_type: i32, bounds: [f64; 4], z: [f64; 2], m: [f64; 2]) -> [u8; 100] {
    let mut bytes = [0u8; 100];
    bytes[0..4].copy_from_slice(&9994i32.to_be_bytes());
    bytes[24..28].copy_from_slice(&64i32.to_be_bytes());
    bytes[28..32].copy_from_slice(&1000i32.to_le_bytes());
    bytes[32..36].copy_from_slice(&shape_type.to_le_bytes());
    let numbers = [bounds[0], bounds[1], bounds[2], bounds[3], z[0], z[1], m[0], m[1]];
    for (i, number) in numbers.iter().enumerate() {
        bytes[36 + 8 * i..44 + 8 * i].copy_from_slice(&number.to_le_bytes());
    }
    bytes
}

fn number(bits: Option<u64>) -> Option<f64> {
    bits.map(f64::from_bits)
}

#[test]
fn a_valid_header_decodes_field_by_field() {
    let bytes = header_bytes(5, [-1.5, 2.25, 10.0, 20.75], [0.0, 0.0], [0.0, 0.0]);
    let header = ShpHeader::parse(bytes).unwrap();
    assert_eq!(header.length, 64);
    assert_eq!(header.version, 1000);
    assert_eq!(header.shape_type, ShapeType::Polygon);
    assert_eq!(f64::from_bits(header.xmin), -1.5);
    assert_eq!(f64::from_bits(header.ymin), 2.25);
    assert_eq!(f64::from_bits(header.xmax), 10.0);
    assert_eq!(f64::from_bits(header.ymax), 20.75);
    assert_eq!(header.zmin, None);
    assert_eq!(header.zmax, None);
    assert_eq!(header.mmin, None);
    assert_eq!(header.mmax, None);
}

#[test]
fn the_header_shape_type_is_the_one_the_tag_names() {
    for (tag, shape_type) in [
        (0, ShapeType::Null),
        (1, ShapeType::Point),
        (3, ShapeType::Polyline),
        (8, ShapeType::MultiPoint),
        (11, ShapeType::PointZ),
        (31, ShapeType::MultiPatch),
    ] {
        let bytes = header_bytes(tag, [0.0; 4], [0.0; 2], [0.0; 2]);
        assert_eq!(ShpHeader::parse(bytes).unwrap().shape_type, shape_type);
    }
}

#[test]
fn the_file_length_is_read_big_endian_at_offset_24() {
    let mut bytes = header_bytes(1, [0.0; 4], [0.0; 2], [0.0; 2]);
    bytes[24..28].copy_from_slice(&[0x00, 0x01, 0x02, 0x03]);
    assert_eq!(ShpHeader::parse(bytes).unwrap().length, 0x0001_0203);
}

#[test]
fn a_wrong_file_code_is_invalid_magic() {
    let mut bytes = header_bytes(1, [0.0; 4], [0.0; 2], [0.0; 2]);
    bytes[0..4].copy_from_slice(&9995i32.to_be_bytes());
    assert_eq!(ShpHeader::parse(bytes), Err(ShpError::InvalidMagic));
}

#[test]
fn a_little_endian_file_code_is_invalid_magic() {
    let mut bytes = header_bytes(1, [0.0; 4], [0.0; 2], [0.0; 2]);
    bytes[0..4].copy_from_slice(&9994i32.to_le_bytes());
    assert_eq!(ShpHeader::parse(bytes), Err(ShpError::InvalidMagic));
}

#[test]
fn a_header_of_zeros_is_invalid_magic() {
    assert_eq!(ShpHeader::parse([0u8; 100]), Err(ShpError::InvalidMagic));
}

#[test]
fn a_wrong_version_is_unsupported() {
    let mut bytes = header_bytes(1, [0.0; 4], [0.0; 2], [0.0; 2]);
    bytes[28..32].copy_from_slice(&1001i32.to_le_bytes());
    assert_eq!(ShpHeader::parse(bytes), Err(ShpError::UnsupportedVersion));
}

#[test]
fn a_big_endian_version_is_unsupported() {
    let mut bytes = header_bytes(1, [0.0; 4], [0.0; 2], [0.0; 2]);
    bytes[28..32].copy_from_slice(&1000i32.to_be_bytes());
    assert_eq!(ShpHeader::parse(bytes), Err(ShpError::UnsupportedVersion));
}

#[test]
fn an_unknown_header_tag_is_rejected() {
    for tag in [2, 4, 32, -1] {
        let bytes = header_bytes(tag, [0.0; 4], [0.0; 2], [0.0; 2]);
        assert_eq!(ShpHeader::parse(bytes), Err(ShpError::UnknownShapeType));
    }
}

#[test]
fn the_file_code_is_tested_before_the_version_and_the_version_before_the_tag() {
    let mut bytes = header_bytes(2, [0.0; 4], [0.0; 2], [0.0; 2]);
    bytes[28..32].copy_from_slice(&7i32.to_le_bytes());
    assert_eq!(ShpHeader::parse(bytes), Err(ShpError::UnsupportedVersion));
    bytes[0..4].copy_from_slice(&0i32.to_be_bytes());
    assert_eq!(ShpHeader::parse(bytes), Err(ShpError::InvalidMagic));
}

#[test]
fn a_zero_pair_is_an_absent_range() {
    let header = ShpHeader::parse(header_bytes(1, [1.0; 4], [0.0, 0.0], [0.0, 0.0])).unwrap();
    assert_eq!((header.zmin, header.zmax), (None, None));
    assert_eq!((header.mmin, header.mmax), (None, None));
}

#[test]
fn a_pair_with_one_zero_is_present_as_stored() {
    let header = ShpHeader::parse(header_bytes(1, [1.0; 4], [0.0, 7.5], [-3.0, 0.0])).unwrap();
    assert_eq!((number(header.zmin), number(header.zmax)), (Some(0.0), Some(7.5)));
    assert_eq!((number(header.mmin), number(header.mmax)), (Some(-3.0), Some(0.0)));
}

#[test]
fn the_two_ranges_are_judged_apart() {
    let header = ShpHeader::parse(header_bytes(1, [1.0; 4], [0.0, 0.0], [1.0, 2.0])).unwrap();
    assert_eq!((header.zmin, header.zmax), (None, None));
    assert_eq!((number(header.mmin), number(header.mmax)), (Some(1.0), Some(2.0)));
    let header = ShpHeader::parse(header_bytes(1, [1.0; 4], [-4.0, 4.0], [0.0, 0.0])).unwrap();
    assert_eq!((number(header.zmin), number(header.zmax)), (Some(-4.0), Some(4.0)));
    assert_eq!((header.mmin, header.mmax), (None, None));
}

#[test]
fn a_zero_of_either_sign_counts_as_zero() {
    let header = ShpHeader::parse(header_bytes(1, [1.0; 4], [-0.0, 0.0], [-0.0, -0.0])).unwrap();
    assert_eq!((header.zmin, header.zmax), (None, None));
    assert_eq!((header.mmin, header.mmax), (None, None));
}

#[test]
fn the_smallest_number_is_not_zero() {
    let tiny = f64::from_bits(1);
    let header = ShpHeader::parse(header_bytes(1, [1.0; 4], [tiny, 0.0], [0.0, 0.0])).unwrap();
    assert_eq!((header.zmin, header.zmax), (Some(1), Some(0)));
}

#[test]
fn the_default_header_is_that_of_an_empty_file() {
    let header = ShpHeader::default();
    assert_eq!(header.length, 0);
    assert_eq!(header.version, 1000);
    assert_eq!(header.shape_type, ShapeType::Null);
    assert_eq!((header.xmin, header.xmax, header.ymin, header.ymax), (0, 0, 0, 0));
    assert_eq!((header.zmin, header.zmax, header.mmin, header.mmax), (None, None, None, None));
}
