use shapefile::ShapeType;

const ALL: [(i32, ShapeType); 14] = [
    (0, ShapeType::Null),
    (1, ShapeType::Point),
    (3, ShapeType::Polyline),
    (5, ShapeType::Polygon),
    (8, ShapeType::MultiPoint),
    (11, ShapeType::PointZ),
    (13, ShapeType::PolylineZ),
    (15, ShapeType::PolygonZ),
    (18, ShapeType::MultiPointZ),
    (21, ShapeType::PointM),
    (23, ShapeType::PolylineM),
    (25, ShapeType::PolygonM),
    (28, ShapeType::MultiPointM),
    (31, ShapeType::MultiPatch),
];

#[test]
fn it_works() {
    assert!(ShapeType::PointZ.to_i32() as u32 == 11);
}

#[test]
fn from_i32_knows_the_fourteen_codes() {
    for (code, shape_type) in ALL {
        assert_eq!(ShapeType::from_i32(code), Some(shape_type));
    }
}

#[test]
fn to_i32_gives_the_codes() {
    for (code, shape_type) in ALL {
        assert_eq!(shape_type.to_i32(), code);
    }
}

#[test]
fn from_i32_rejects_every_other_number_up_to_forty() {
    for number in -10..40 {
        let known = ALL.iter().any(|(code, _)| *code == number);
        assert_eq!(ShapeType::from_i32(number).is_some(), known, "number {}", number);
    }
}

#[test]
fn from_i32_rejects_the_gaps_and_the_extremes() {
    for number in [2, 4, 6, 7, 9, 10, 12, 32, 100, -1, i32::MIN, i32::MAX] {
        assert_eq!(ShapeType::from_i32(number), None);
    }
}

#[test]
fn from_i32_inverts_to_i32() {
    for (_, shape_type) in ALL {
        assert_eq!(ShapeType::from_i32(shape_type.to_i32()), Some(shape_type));
    }
}
