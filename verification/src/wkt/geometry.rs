//! Geometries as the text writer reads them: every ordinate is held as the
//! text that stands for it.

use vstd::prelude::*;

verus! {

/// The axes of a geometry.
#[derive(Clone, Copy, PartialEq, Eq, Structural, Debug)]
pub enum Dimensions {
    Xy,
    Xyz,
}

impl Dimensions {
    /// The number of ordinates of a coordinate.
    pub open spec fn spec_size(&self) -> nat {
        match self {
            Dimensions::Xy => 2,
            Dimensions::Xyz => 3,
        }
    }

    /// The number of ordinates of a coordinate.
    pub fn size(&self) -> (n: usize)
        ensures
            n == self.spec_size(),
    {
        match self {
            Dimensions::Xy => 2,
            Dimensions::Xyz => 3,
        }
    }
}

/// A coordinate: the texts of its ordinates, in the order of the axes.
#[derive(Clone, Debug, PartialEq)]
pub struct Coord {
    pub ordinates: Vec<String>,
}

#[derive(Clone, Debug, PartialEq)]
pub struct Point {
    pub dim: Dimensions,
    /// The coordinate; `None` for the empty point.
    pub coord: Option<Coord>,
}

#[derive(Clone, Debug, PartialEq)]
pub struct LineString {
    pub dim: Dimensions,
    pub coords: Vec<Coord>,
}

#[derive(Clone, Debug, PartialEq)]
pub struct Polygon {
    pub dim: Dimensions,
    /// The rings, the exterior one first.
    pub rings: Vec<Vec<Coord>>,
}

#[derive(Clone, Debug, PartialEq)]
pub struct MultiPoint {
    pub dim: Dimensions,
    pub points: Vec<Point>,
}

#[derive(Clone, Debug, PartialEq)]
pub struct MultiLineString {
    pub dim: Dimensions,
    pub lines: Vec<LineString>,
}

#[derive(Clone, Debug, PartialEq)]
pub struct MultiPolygon {
    pub dim: Dimensions,
    pub polygons: Vec<Polygon>,
}

#[derive(Debug, PartialEq)]
pub struct GeometryCollection {
    pub dim: Dimensions,
    pub geometries: Vec<Geometry>,
}

/// An axis-aligned rectangle, by its lower and its upper corner.
#[derive(Clone, Debug, PartialEq)]
pub struct Rect {
    pub dim: Dimensions,
    pub min: Coord,
    pub max: Coord,
}

#[derive(Debug, PartialEq)]
pub enum Geometry {
    Point(Point),
    LineString(LineString),
    Polygon(Polygon),
    MultiPoint(MultiPoint),
    MultiLineString(MultiLineString),
    MultiPolygon(MultiPolygon),
    GeometryCollection(GeometryCollection),
    Rect(Rect),
}

impl Coord {
    /// Validity for `n` axes: one ordinate for each.
    pub open spec fn wf(&self, n: nat) -> bool {
        self.ordinates@.len() == n
    }

    /// Whether the value is valid.
    pub fn is_valid(&self, n: usize) -> (r: bool)
        ensures
            r == self.wf(n as nat),
    {
        self.ordinates.len() == n
    }
}

/// Whether every coordinate of a list has `n` ordinates.
pub open spec fn coords_wf(coords: Seq<Coord>, n: nat) -> bool {
    forall|i: int| 0 <= i < coords.len() ==> (#[trigger] coords[i]).wf(n)
}

/// Whether `coords` meets [`coords_wf`].
pub fn check_coords(coords: &Vec<Coord>, n: usize) -> (r: bool)
    ensures
        r == coords_wf(coords@, n as nat),
{
    let mut i: usize = 0;
    while i < coords.len()
        invariant
            i <= coords.len(),
            forall|j: int| 0 <= j < i ==> (#[trigger] coords@[j]).wf(n as nat),
        decreases coords.len() - i,
    {
        if !coords[i].is_valid(n) {
            return false;
        }
        i += 1;
    }
    true
}

/// Whether every ring of a list is not empty and holds coordinates of `n`
/// ordinates.
pub open spec fn rings_wf(rings: Seq<Vec<Coord>>, n: nat) -> bool {
    forall|i: int|
        0 <= i < rings.len() ==> (#[trigger] rings[i])@.len() > 0 && coords_wf(rings[i]@, n)
}

/// Whether `rings` meets [`rings_wf`].
pub fn check_rings(rings: &Vec<Vec<Coord>>, n: usize) -> (r: bool)
    ensures
        r == rings_wf(rings@, n as nat),
{
    let mut i: usize = 0;
    while i < rings.len()
        invariant
            i <= rings.len(),
            forall|j: int|
                0 <= j < i ==> (#[trigger] rings@[j])@.len() > 0 && coords_wf(rings@[j]@, n as nat),
        decreases rings.len() - i,
    {
        if rings[i].len() == 0 || !check_coords(&rings[i], n) {
            return false;
        }
        i += 1;
    }
    true
}

impl Point {
    /// Validity: the coordinate, where there is one, has one ordinate for
    /// each axis.
    pub open spec fn wf(&self) -> bool {
        match self.coord {
            Some(c) => c.wf(self.dim.spec_size()),
            None => true,
        }
    }

    /// Whether the value is valid.
    pub fn is_valid(&self) -> (r: bool)
        ensures
            r == self.wf(),
    {
        match &self.coord {
            Some(c) => c.is_valid(self.dim.size()),
            None => true,
        }
    }
}

impl LineString {
    /// Validity: every coordinate has one ordinate for each axis.
    pub open spec fn wf(&self) -> bool {
        coords_wf(self.coords@, self.dim.spec_size())
    }

    /// Whether the value is valid.
    pub fn is_valid(&self) -> (r: bool)
        ensures
            r == self.wf(),
    {
        check_coords(&self.coords, self.dim.size())
    }
}

impl Polygon {
    /// Whether the polygon has no exterior ring, or an empty one.
    pub open spec fn is_empty(&self) -> bool {
        self.rings@.len() == 0 || self.rings@[0]@.len() == 0
    }

    /// Validity: unless the polygon is empty, no ring is empty and every
    /// coordinate has one ordinate for each axis.
    pub open spec fn wf(&self) -> bool {
        self.is_empty() || rings_wf(self.rings@, self.dim.spec_size())
    }

    /// Whether the value is valid.
    pub fn is_valid(&self) -> (r: bool)
        ensures
            r == self.wf(),
    {
        self.rings.len() == 0 || self.rings[0].len() == 0 || check_rings(
            &self.rings,
            self.dim.size(),
        )
    }
}

impl MultiPoint {
    /// Validity: no point is empty, and every coordinate has one ordinate for
    /// each axis of the multi-point.
    pub open spec fn wf(&self) -> bool {
        forall|i: int|
            0 <= i < self.points@.len() ==> (#[trigger] self.points@[i]).coord is Some
                && self.points@[i].coord->0.wf(self.dim.spec_size())
    }

    /// Whether the value is valid.
    pub fn is_valid(&self) -> (r: bool)
        ensures
            r == self.wf(),
    {
        let n = self.dim.size();
        let mut i: usize = 0;
        while i < self.points.len()
            invariant
                i <= self.points.len(),
                n == self.dim.spec_size(),
                forall|j: int|
                    0 <= j < i ==> (#[trigger] self.points@[j]).coord is Some
                        && self.points@[j].coord->0.wf(n as nat),
            decreases self.points.len() - i,
        {
            match &self.points[i].coord {
                Some(c) => {
                    if !c.is_valid(n) {
                        return false;
                    }
                },
                None => {
                    return false;
                },
            }
            i += 1;
        }
        true
    }
}

impl MultiLineString {
    /// Validity: no line is empty, and every coordinate has one ordinate for
    /// each axis of the multi-line-string.
    pub open spec fn wf(&self) -> bool {
        forall|i: int|
            0 <= i < self.lines@.len() ==> (#[trigger] self.lines@[i]).coords@.len() > 0
                && coords_wf(self.lines@[i].coords@, self.dim.spec_size())
    }

    /// Whether the value is valid.
    pub fn is_valid(&self) -> (r: bool)
        ensures
            r == self.wf(),
    {
        let n = self.dim.size();
        let mut i: usize = 0;
        while i < self.lines.len()
            invariant
                i <= self.lines.len(),
                n == self.dim.spec_size(),
                forall|j: int|
                    0 <= j < i ==> (#[trigger] self.lines@[j]).coords@.len() > 0 && coords_wf(
                        self.lines@[j].coords@,
                        n as nat,
                    ),
            decreases self.lines.len() - i,
        {
            if self.lines[i].coords.len() == 0 || !check_coords(&self.lines[i].coords, n) {
                return false;
            }
            i += 1;
        }
        true
    }
}

impl MultiPolygon {
    /// Validity: every polygon has an exterior ring, no ring is empty, and
    /// every coordinate has one ordinate for each axis of the multi-polygon.
    pub open spec fn wf(&self) -> bool {
        forall|i: int|
            0 <= i < self.polygons@.len() ==> (#[trigger] self.polygons@[i]).rings@.len() > 0
                && rings_wf(self.polygons@[i].rings@, self.dim.spec_size())
    }

    /// Whether the value is valid.
    pub fn is_valid(&self) -> (r: bool)
        ensures
            r == self.wf(),
    {
        let n = self.dim.size();
        let mut i: usize = 0;
        while i < self.polygons.len()
            invariant
                i <= self.polygons.len(),
                n == self.dim.spec_size(),
                forall|j: int|
                    0 <= j < i ==> (#[trigger] self.polygons@[j]).rings@.len() > 0 && rings_wf(
                        self.polygons@[j].rings@,
                        n as nat,
                    ),
            decreases self.polygons.len() - i,
        {
            if self.polygons[i].rings.len() == 0 || !check_rings(&self.polygons[i].rings, n) {
                return false;
            }
            i += 1;
        }
        true
    }
}

impl Rect {
    /// Validity: both corners have one ordinate for each axis.
    pub open spec fn wf(&self) -> bool {
        self.min.wf(self.dim.spec_size()) && self.max.wf(self.dim.spec_size())
    }

    /// Whether the value is valid.
    pub fn is_valid(&self) -> (r: bool)
        ensures
            r == self.wf(),
    {
        self.min.is_valid(self.dim.size()) && self.max.is_valid(self.dim.size())
    }
}

impl Geometry {
    /// Validity: that of the variant; a collection is valid when the
    /// geometries in it are.
    pub open spec fn wf(&self) -> bool
        decreases self,
    {
        match self {
            Geometry::Point(g) => g.wf(),
            Geometry::LineString(g) => g.wf(),
            Geometry::Polygon(g) => g.wf(),
            Geometry::MultiPoint(g) => g.wf(),
            Geometry::MultiLineString(g) => g.wf(),
            Geometry::MultiPolygon(g) => g.wf(),
            Geometry::GeometryCollection(g) => geometries_wf(g.geometries),
            Geometry::Rect(g) => g.wf(),
        }
    }

    /// Whether the value is valid.
    pub fn is_valid(&self) -> (r: bool)
        ensures
            r == self.wf(),
        decreases self,
    {
        match self {
            Geometry::Point(g) => g.is_valid(),
            Geometry::LineString(g) => g.is_valid(),
            Geometry::Polygon(g) => g.is_valid(),
            Geometry::MultiPoint(g) => g.is_valid(),
            Geometry::MultiLineString(g) => g.is_valid(),
            Geometry::MultiPolygon(g) => g.is_valid(),
            Geometry::GeometryCollection(g) => {
                let mut i: usize = 0;
                while i < g.geometries.len()
                    invariant
                        i <= g.geometries.len(),
                        decreases_to!(self => g.geometries),
                        *self == Geometry::GeometryCollection(*g),
                        forall|j: int| 0 <= j < i ==> (#[trigger] g.geometries[j]).wf(),
                    decreases g.geometries.len() - i,
                {
                    if !g.geometries[i].is_valid() {
                        return false;
                    }
                    i += 1;
                }
                true
            },
            Geometry::Rect(g) => g.is_valid(),
        }
    }
}

/// Whether every geometry of a list is valid.
pub open spec fn geometries_wf(geometries: Vec<Geometry>) -> bool
    decreases geometries,
{
    forall|i: int| 0 <= i < geometries.len() ==> (#[trigger] geometries[i]).wf()
}

impl GeometryCollection {
    /// Validity: every geometry of the collection is valid.
    pub open spec fn wf(&self) -> bool {
        geometries_wf(self.geometries)
    }

    /// Whether the value is valid.
    pub fn is_valid(&self) -> (r: bool)
        ensures
            r == self.wf(),
    {
        let mut i: usize = 0;
        while i < self.geometries.len()
            invariant
                i <= self.geometries.len(),
                forall|j: int| 0 <= j < i ==> (#[trigger] self.geometries[j]).wf(),
            decreases self.geometries.len() - i,
        {
            if !self.geometries[i].is_valid() {
                return false;
            }
            i += 1;
        }
        true
    }
}

} // verus!
