//! The closed set of shape kinds that the format tags files and records with.

use vstd::prelude::*;

verus! {

/// A kind of shape. The format gives each a numeric code; see [`ShapeType::to_i32`].
#[derive(Clone, Copy, Debug, PartialEq, Eq, Structural)]
pub enum ShapeType {
    Null,
    Point,
    Polyline,
    Polygon,
    MultiPoint,
    PointZ,
    PolylineZ,
    PolygonZ,
    MultiPointZ,
    PointM,
    PolylineM,
    PolygonM,
    MultiPointM,
    MultiPatch,
}

impl ShapeType {
    /// The code that stands for this shape type in a file.
    pub open spec fn code(self) -> int {
        match self {
            ShapeType::Null => 0,
            ShapeType::Point => 1,
            ShapeType::Polyline => 3,
            ShapeType::Polygon => 5,
            ShapeType::MultiPoint => 8,
            ShapeType::PointZ => 11,
            ShapeType::PolylineZ => 13,
            ShapeType::PolygonZ => 15,
            ShapeType::MultiPointZ => 18,
            ShapeType::PointM => 21,
            ShapeType::PolylineM => 23,
            ShapeType::PolygonM => 25,
            ShapeType::MultiPointM => 28,
            ShapeType::MultiPatch => 31,
        }
    }

    /// Whether `number` is the code of some shape type.
    pub open spec fn is_code(number: int) -> bool {
        exists|t: ShapeType| t.code() == number
    }

    /// The shape type whose code is `number`. Meaningful where `is_code(number)`.
    pub open spec fn of_code(number: int) -> ShapeType {
        choose|t: ShapeType| t.code() == number
    }

    /// Whether this decoder reads geometries of this type: the null shape and the four planar
    /// shapes, not those with elevation or measure values nor the multi-patch.
    pub open spec fn is_implemented(self) -> bool {
        self == ShapeType::Null || self == ShapeType::Point || self == ShapeType::Polyline
            || self == ShapeType::Polygon || self == ShapeType::MultiPoint
    }

    /// The shape type that `number` is the code of, if it is the code of one.
    pub fn from_i32(number: i32) -> (r: Option<ShapeType>)
        ensures
            r is Some <==> Self::is_code(number as int),
            r is Some ==> r->0 == Self::of_code(number as int),
    {
        let r = match number {
            0 => Some(ShapeType::Null),
            1 => Some(ShapeType::Point),
            3 => Some(ShapeType::Polyline),
            5 => Some(ShapeType::Polygon),
            8 => Some(ShapeType::MultiPoint),
            11 => Some(ShapeType::PointZ),
            13 => Some(ShapeType::PolylineZ),
            15 => Some(ShapeType::PolygonZ),
            18 => Some(ShapeType::MultiPointZ),
            21 => Some(ShapeType::PointM),
            23 => Some(ShapeType::PolylineM),
            25 => Some(ShapeType::PolygonM),
            28 => Some(ShapeType::MultiPointM),
            31 => Some(ShapeType::MultiPatch),
            _ => None,
        };
        proof {
            if let Some(t) = r {
                assert(t.code() == number);
                lemma_code_injective(t, Self::of_code(number as int));
            }
        }
        r
    }

    /// The code that stands for this shape type in a file.
    pub fn to_i32(self) -> (number: i32)
        ensures
            number == self.code(),
    {
        match self {
            ShapeType::Null => 0,
            ShapeType::Point => 1,
            ShapeType::Polyline => 3,
            ShapeType::Polygon => 5,
            ShapeType::MultiPoint => 8,
            ShapeType::PointZ => 11,
            ShapeType::PolylineZ => 13,
            ShapeType::PolygonZ => 15,
            ShapeType::MultiPointZ => 18,
            ShapeType::PointM => 21,
            ShapeType::PolylineM => 23,
            ShapeType::PolygonM => 25,
            ShapeType::MultiPointM => 28,
            ShapeType::MultiPatch => 31,
        }
    }
}

/// No two shape types share a code.
pub proof fn lemma_code_injective(a: ShapeType, b: ShapeType)
    requires
        a.code() == b.code(),
    ensures
        a == b,
{
}

/// The codes of the format are exactly these fourteen numbers.
pub proof fn lemma_codes(number: int)
    ensures
        ShapeType::is_code(number) <==> (number == 0 || number == 1 || number == 3 || number == 5
            || number == 8 || number == 11 || number == 13 || number == 15 || number == 18
            || number == 21 || number == 23 || number == 25 || number == 28 || number == 31),
{
    if ShapeType::is_code(number) {
        let t = ShapeType::of_code(number);
        assert(t.code() == number);
    }
    assert(ShapeType::Null.code() == 0);
    assert(ShapeType::Point.code() == 1);
    assert(ShapeType::Polyline.code() == 3);
    assert(ShapeType::Polygon.code() == 5);
    assert(ShapeType::MultiPoint.code() == 8);
    assert(ShapeType::PointZ.code() == 11);
    assert(ShapeType::PolylineZ.code() == 13);
    assert(ShapeType::PolygonZ.code() == 15);
    assert(ShapeType::MultiPointZ.code() == 18);
    assert(ShapeType::PointM.code() == 21);
    assert(ShapeType::PolylineM.code() == 23);
    assert(ShapeType::PolygonM.code() == 25);
    assert(ShapeType::MultiPointM.code() == 28);
    assert(ShapeType::MultiPatch.code() == 31);
}

/// Reading a shape type's own code gives the shape type back.
pub proof fn lemma_of_code_inverts_code(t: ShapeType)
    ensures
        ShapeType::is_code(t.code()),
        ShapeType::of_code(t.code()) == t,
{
    lemma_code_injective(t, ShapeType::of_code(t.code()));
}

} // verus!
