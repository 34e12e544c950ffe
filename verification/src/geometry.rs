//! The four planar geometries and their byte layouts.

use crate::error::ShpError;
use crate::wire::{
    i32_le_at, le_bytes_u64, le_i32, le_u64, lemma_le_u64_of_le_bytes, u64_le_at,
};
use vstd::prelude::*;

verus! {

/// A point of the plane.
///
/// A coordinate is held as the bit pattern of an IEEE 754 binary64 number, exactly as the
/// file stores it.
#[derive(Clone, Copy, Debug, PartialEq, Eq, Structural)]
pub struct PointShape {
    pub x: u64,
    pub y: u64,
}

/// A set of points with the box that bounds them.
#[derive(Clone, Debug, PartialEq, Eq)]
pub struct MultiPointShape {
    pub xmin: u64,
    pub xmax: u64,
    pub ymin: u64,
    pub ymax: u64,
    pub num_points: i32,
    pub points: Vec<PointShape>,
}

/// One or more lines, each a run of points, with the box that bounds them.
///
/// `parts` holds, for each line, the index in `points` of its first point; a line runs up to
/// the first point of the next one, the last line to the end of `points`.
#[derive(Clone, Debug, PartialEq, Eq)]
pub struct PolyLineShape {
    pub xmin: u64,
    pub xmax: u64,
    pub ymin: u64,
    pub ymax: u64,
    pub num_parts: i32,
    pub num_points: i32,
    pub parts: Vec<i32>,
    pub points: Vec<PointShape>,
}

/// One or more rings, each a run of points, with the box that bounds them.
///
/// `parts` holds, for each ring, the index in `points` of its first point; a ring runs up to
/// the first point of the next one, the last ring to the end of `points`. A ring is meant to
/// end on the point it starts with; the decoder does not look at that.
#[derive(Clone, Debug, PartialEq, Eq)]
pub struct PolygonShape {
    pub xmin: u64,
    pub xmax: u64,
    pub ymin: u64,
    pub ymax: u64,
    pub num_parts: i32,
    pub num_points: i32,
    pub parts: Vec<i32>,
    pub points: Vec<PointShape>,
}

/// What a [`MultiPointShape`] holds.
pub struct MultiPointView {
    pub xmin: u64,
    pub xmax: u64,
    pub ymin: u64,
    pub ymax: u64,
    pub num_points: i32,
    pub points: Seq<PointShape>,
}

/// What a [`PolyLineShape`] or a [`PolygonShape`] holds: the two share one layout.
pub struct MultiPartView {
    pub xmin: u64,
    pub xmax: u64,
    pub ymin: u64,
    pub ymax: u64,
    pub num_parts: i32,
    pub num_points: i32,
    pub parts: Seq<i32>,
    pub points: Seq<PointShape>,
}

impl MultiPointView {
    /// The declared count is the number of points held.
    pub open spec fn wf(self) -> bool {
        self.num_points as int == self.points.len()
    }
}

impl MultiPartView {
    /// The declared counts are the numbers of parts and of points held.
    pub open spec fn wf(self) -> bool {
        &&& self.num_parts as int == self.parts.len()
        &&& self.num_points as int == self.points.len()
    }

    /// The indices of the points of part `k`, from the first to one past the last.
    pub open spec fn part_range(self, k: int) -> Option<(int, int)> {
        spec_part_range(self.parts, self.points.len(), k)
    }
}

/// The half-open range of point indices that part `k` spans, given the part starts and the
/// number of points: from its own start to the start of the next part, or to the end of the
/// points for the last part.
///
/// There is no such range where `k` is no part, and where the two ends do not describe a run
/// of the points: the start below zero, the end before the start or beyond the points.
pub open spec fn spec_part_range(parts: Seq<i32>, point_count: nat, k: int) -> Option<(int, int)> {
    let start = parts[k] as int;
    let end = if k + 1 < parts.len() {
        parts[k + 1] as int
    } else {
        point_count as int
    };
    if 0 <= k < parts.len() && 0 <= start <= end <= point_count {
        Some((start, end))
    } else {
        None
    }
}

/// Computes [`spec_part_range`] for the part starts `parts` of a geometry with `points`.
fn part_range_in(parts: &Vec<i32>, points: &Vec<PointShape>, k: usize) -> (r: Option<
    (usize, usize),
>)
    ensures
        match r {
            Some((start, end)) => spec_part_range(parts@, points@.len(), k as int) == Some(
                (start as int, end as int),
            ),
            None => spec_part_range(parts@, points@.len(), k as int) is None,
        },
{
    if k >= parts.len() {
        return None;
    }
    let start = parts[k];
    if start < 0 {
        return None;
    }
    let start = start as usize;
    let end = if k + 1 < parts.len() {
        let next = parts[k + 1];
        if next < 0 {
            return None;
        }
        next as usize
    } else {
        points.len()
    };
    if start <= end && end <= points.len() {
        Some((start, end))
    } else {
        None
    }
}

/// Where the part starts begin at zero, never step back and stay within the points, the
/// parts split the points: the first part starts at the first point, each part ends where
/// the next one starts, and the last part ends with the last point.
pub proof fn lemma_parts_split_points(shape: MultiPartView, k: int)
    requires
        shape.parts.len() > 0,
        shape.parts[0] == 0,
        forall|i: int, j: int| 0 <= i <= j < shape.parts.len() ==> shape.parts[i] <= shape.parts[j],
        forall|i: int| 0 <= i < shape.parts.len() ==> shape.parts[i] <= shape.points.len(),
        0 <= k < shape.parts.len(),
    ensures
        shape.part_range(k) matches Some((start, end)) && {
            &&& k == 0 ==> start == 0
            &&& k + 1 == shape.parts.len() ==> end == shape.points.len()
            &&& k + 1 < shape.parts.len() ==> (shape.part_range(k + 1) matches Some((next, _))
                && next == end)
        },
{
    assert(shape.parts[0] <= shape.parts[k]);
    if k + 1 < shape.parts.len() {
        assert(shape.parts[k] <= shape.parts[k + 1]);
        if k + 2 < shape.parts.len() {
            assert(shape.parts[k + 1] <= shape.parts[k + 2]);
        }
    }
}

impl View for MultiPointShape {
    type V = MultiPointView;

    open spec fn view(&self) -> MultiPointView {
        MultiPointView {
            xmin: self.xmin,
            xmax: self.xmax,
            ymin: self.ymin,
            ymax: self.ymax,
            num_points: self.num_points,
            points: self.points@,
        }
    }
}

impl View for PolyLineShape {
    type V = MultiPartView;

    open spec fn view(&self) -> MultiPartView {
        MultiPartView {
            xmin: self.xmin,
            xmax: self.xmax,
            ymin: self.ymin,
            ymax: self.ymax,
            num_parts: self.num_parts,
            num_points: self.num_points,
            parts: self.parts@,
            points: self.points@,
        }
    }
}

impl View for PolygonShape {
    type V = MultiPartView;

    open spec fn view(&self) -> MultiPartView {
        MultiPartView {
            xmin: self.xmin,
            xmax: self.xmax,
            ymin: self.ymin,
            ymax: self.ymax,
            num_parts: self.num_parts,
            num_points: self.num_points,
            parts: self.parts@,
            points: self.points@,
        }
    }
}

/// The length in bytes of a stored point.
pub const POINT_LEN: usize = 16;

/// The length in bytes of what a multi-point stores ahead of its points: the box and the
/// count.
pub const MULTI_POINT_FIXED_LEN: usize = 36;

/// The length in bytes of what a polyline or a polygon stores ahead of its part starts: the
/// box and the two counts.
pub const MULTI_PART_FIXED_LEN: usize = 40;

/// The point stored at offset `at` of `s`: x, then y.
pub open spec fn point_at(s: Seq<u8>, at: int) -> PointShape {
    PointShape { x: le_u64(s, at), y: le_u64(s, at + 8) }
}

/// The `count` points packed from offset `start` of `s` on.
pub open spec fn points_at(s: Seq<u8>, start: int, count: nat) -> Seq<PointShape> {
    Seq::new(count, |i: int| point_at(s, start + 16 * i))
}

/// The `count` part starts packed from offset `start` of `s` on.
pub open spec fn parts_at(s: Seq<u8>, start: int, count: nat) -> Seq<i32> {
    Seq::new(count, |i: int| le_i32(s, start + 4 * i))
}

/// What the bytes that follow the shape-type tag of a polyline or polygon record decode to.
///
/// The payload is cut short where it cannot hold the fixed part, where a count is below
/// zero, and where the part starts and points that the counts declare do not fit.
pub open spec fn spec_parse_multi_part(content: Seq<u8>) -> Result<MultiPartView, ShpError> {
    if content.len() < 40 {
        Err(ShpError::TruncatedGeometry)
    } else {
        let num_parts = le_i32(content, 32);
        let num_points = le_i32(content, 36);
        if num_parts < 0 || num_points < 0 || 40 + 4 * num_parts + 16 * num_points
            > content.len() {
            Err(ShpError::TruncatedGeometry)
        } else {
            Ok(
                MultiPartView {
                    xmin: le_u64(content, 0),
                    ymin: le_u64(content, 8),
                    xmax: le_u64(content, 16),
                    ymax: le_u64(content, 24),
                    num_parts,
                    num_points,
                    parts: parts_at(content, 40, num_parts as nat),
                    points: points_at(content, 40 + 4 * num_parts, num_points as nat),
                },
            )
        }
    }
}

/// Reads the point stored at offset `at`.
fn read_point(content: &[u8], at: usize) -> (p: PointShape)
    requires
        at + 16 <= content@.len(),
    ensures
        p == point_at(content@, at as int),
{
    assert(content@.len() == content.len());
    PointShape { x: u64_le_at(content, at), y: u64_le_at(content, at + 8) }
}

/// Reads `count` points packed from offset `start` on.
fn read_points(content: &[u8], start: usize, count: usize) -> (points: Vec<PointShape>)
    requires
        start + 16 * count <= content@.len(),
    ensures
        points@ == points_at(content@, start as int, count as nat),
{
    let mut points: Vec<PointShape> = Vec::new();
    let mut i: usize = 0;
    while i < count
        invariant
            i <= count,
            start + 16 * count <= content@.len(),
            content@.len() == content.len(),
            points@ == points_at(content@, start as int, i as nat),
        decreases count - i,
    {
        points.push(read_point(content, start + 16 * i));
        i += 1;
    }
    points
}

/// Reads `count` part starts packed from offset `start` on.
fn read_parts(content: &[u8], start: usize, count: usize) -> (parts: Vec<i32>)
    requires
        start + 4 * count <= content@.len(),
    ensures
        parts@ == parts_at(content@, start as int, count as nat),
{
    let mut parts: Vec<i32> = Vec::new();
    let mut i: usize = 0;
    while i < count
        invariant
            i <= count,
            start + 4 * count <= content@.len(),
            content@.len() == content.len(),
            parts@ == parts_at(content@, start as int, i as nat),
        decreases count - i,
    {
        parts.push(i32_le_at(content, start + 4 * i));
        i += 1;
    }
    parts
}

impl PointShape {
    /// What the bytes that follow the shape-type tag of a point record decode to: the point
    /// that their first sixteen bytes store.
    pub open spec fn spec_parse(content: Seq<u8>) -> Result<PointShape, ShpError> {
        if content.len() < 16 {
            Err(ShpError::TruncatedGeometry)
        } else {
            Ok(point_at(content, 0))
        }
    }

    /// Decodes a point from the bytes that follow the shape-type tag: x, then y, eight bytes
    /// each. Bytes beyond the sixteenth are not read.
    pub fn parse(content: &[u8]) -> (r: Result<PointShape, ShpError>)
        ensures
            r == Self::spec_parse(content@),
    {
        if content.len() < POINT_LEN {
            return Err(ShpError::TruncatedGeometry);
        }
        Ok(read_point(content, 0))
    }
}

impl MultiPointShape {
    /// What the bytes that follow the shape-type tag of a multi-point record decode to.
    ///
    /// The payload is cut short where it cannot hold the fixed part, where the count is
    /// below zero, and where the points that the count declares do not fit.
    pub open spec fn spec_parse(content: Seq<u8>) -> Result<MultiPointView, ShpError> {
        if content.len() < 36 {
            Err(ShpError::TruncatedGeometry)
        } else {
            let num_points = le_i32(content, 32);
            if num_points < 0 || 36 + 16 * num_points > content.len() {
                Err(ShpError::TruncatedGeometry)
            } else {
                Ok(
                    MultiPointView {
                        xmin: le_u64(content, 0),
                        ymin: le_u64(content, 8),
                        xmax: le_u64(content, 16),
                        ymax: le_u64(content, 24),
                        num_points,
                        points: points_at(content, 36, num_points as nat),
                    },
                )
            }
        }
    }

    /// The declared count is the number of points held.
    pub open spec fn wf(&self) -> bool {
        self@.wf()
    }

    /// Decodes a multi-point from the bytes that follow the shape-type tag.
    pub fn parse(content: &[u8]) -> (r: Result<MultiPointShape, ShpError>)
        ensures
            match r {
                Ok(shape) => Self::spec_parse(content@) == Ok::<MultiPointView, ShpError>(shape@)
                    && shape.wf(),
                Err(e) => Self::spec_parse(content@) == Err::<MultiPointView, ShpError>(e),
            },
    {
        let len = content.len();
        if len < MULTI_POINT_FIXED_LEN {
            return Err(ShpError::TruncatedGeometry);
        }
        let xmin = u64_le_at(content, 0);
        let ymin = u64_le_at(content, 8);
        let xmax = u64_le_at(content, 16);
        let ymax = u64_le_at(content, 24);
        let num_points = i32_le_at(content, 32);
        if num_points < 0 {
            return Err(ShpError::TruncatedGeometry);
        }
        if 16 * (num_points as u64) > (len - MULTI_POINT_FIXED_LEN) as u64 {
            return Err(ShpError::TruncatedGeometry);
        }
        let points = read_points(content, MULTI_POINT_FIXED_LEN, num_points as usize);
        Ok(MultiPointShape { xmin, xmax, ymin, ymax, num_points, points })
    }
}

impl PolyLineShape {
    /// What the bytes that follow the shape-type tag of a polyline record decode to.
    pub open spec fn spec_parse(content: Seq<u8>) -> Result<MultiPartView, ShpError> {
        spec_parse_multi_part(content)
    }

    /// The declared counts are the numbers of parts and of points held.
    pub open spec fn wf(&self) -> bool {
        self@.wf()
    }

    /// The indices of the points of line `k`, from the first to one past the last; `None`
    /// where there is no line `k` or its part starts describe no run of the points.
    pub fn part_range(&self, k: usize) -> (r: Option<(usize, usize)>)
        ensures
            match r {
                Some((start, end)) => self@.part_range(k as int) == Some((start as int, end as int)),
                None => self@.part_range(k as int) is None,
            },
    {
        part_range_in(&self.parts, &self.points, k)
    }

    /// Decodes a polyline from the bytes that follow the shape-type tag.
    pub fn parse(content: &[u8]) -> (r: Result<PolyLineShape, ShpError>)
        ensures
            match r {
                Ok(shape) => Self::spec_parse(content@) == Ok::<MultiPartView, ShpError>(shape@)
                    && shape.wf(),
                Err(e) => Self::spec_parse(content@) == Err::<MultiPartView, ShpError>(e),
            },
    {
        let len = content.len();
        if len < MULTI_PART_FIXED_LEN {
            return Err(ShpError::TruncatedGeometry);
        }
        let xmin = u64_le_at(content, 0);
        let ymin = u64_le_at(content, 8);
        let xmax = u64_le_at(content, 16);
        let ymax = u64_le_at(content, 24);
        let num_parts = i32_le_at(content, 32);
        let num_points = i32_le_at(content, 36);
        if num_parts < 0 || num_points < 0 {
            return Err(ShpError::TruncatedGeometry);
        }
        if 4 * (num_parts as u64) + 16 * (num_points as u64) > (len - MULTI_PART_FIXED_LEN) as u64 {
            return Err(ShpError::TruncatedGeometry);
        }
        let part_count = num_parts as usize;
        let parts = read_parts(content, MULTI_PART_FIXED_LEN, part_count);
        let points = read_points(
            content,
            MULTI_PART_FIXED_LEN + 4 * part_count,
            num_points as usize,
        );
        Ok(PolyLineShape { xmin, xmax, ymin, ymax, num_parts, num_points, parts, points })
    }
}

impl PolygonShape {
    /// What the bytes that follow the shape-type tag of a polygon record decode to.
    pub open spec fn spec_parse(content: Seq<u8>) -> Result<MultiPartView, ShpError> {
        spec_parse_multi_part(content)
    }

    /// The declared counts are the numbers of parts and of points held.
    pub open spec fn wf(&self) -> bool {
        self@.wf()
    }

    /// The indices of the points of ring `k`, from the first to one past the last; `None`
    /// where there is no ring `k` or its part starts describe no run of the points.
    pub fn part_range(&self, k: usize) -> (r: Option<(usize, usize)>)
        ensures
            match r {
                Some((start, end)) => self@.part_range(k as int) == Some((start as int, end as int)),
                None => self@.part_range(k as int) is None,
            },
    {
        part_range_in(&self.parts, &self.points, k)
    }

    /// Decodes a polygon from the bytes that follow the shape-type tag.
    pub fn parse(content: &[u8]) -> (r: Result<PolygonShape, ShpError>)
        ensures
            match r {
                Ok(shape) => Self::spec_parse(content@) == Ok::<MultiPartView, ShpError>(shape@)
                    && shape.wf(),
                Err(e) => Self::spec_parse(content@) == Err::<MultiPartView, ShpError>(e),
            },
    {
        match PolyLineShape::parse(content) {
            Ok(line) => Ok(
                PolygonShape {
                    xmin: line.xmin,
                    xmax: line.xmax,
                    ymin: line.ymin,
                    ymax: line.ymax,
                    num_parts: line.num_parts,
                    num_points: line.num_points,
                    parts: line.parts,
                    points: line.points,
                },
            ),
            Err(e) => Err(e),
        }
    }
}

/// A point decodes from the bytes of its two coordinates to exactly those coordinates.
pub proof fn lemma_point_round_trip(x: u64, y: u64)
    ensures
        PointShape::spec_parse(le_bytes_u64(x) + le_bytes_u64(y)) == Ok::<PointShape, ShpError>(
            PointShape { x, y },
        ),
{
    let content = le_bytes_u64(x) + le_bytes_u64(y);
    assert(content.subrange(0, 8) =~= le_bytes_u64(x));
    assert(content.subrange(8, 16) =~= le_bytes_u64(y));
    lemma_le_u64_of_le_bytes(content, 0, x);
    lemma_le_u64_of_le_bytes(content, 8, y);
}

/// A multi-point that declares no points decodes to one that holds none, whatever follows
/// its count.
pub proof fn lemma_empty_multi_point(content: Seq<u8>)
    requires
        content.len() >= 36,
        le_i32(content, 32) == 0,
    ensures
        MultiPointShape::spec_parse(content) is Ok,
        MultiPointShape::spec_parse(content)->Ok_0.num_points == 0,
        MultiPointShape::spec_parse(content)->Ok_0.points == Seq::<PointShape>::empty(),
{
}

} // verus!
