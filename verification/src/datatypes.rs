//! The values that the spatial functions are called with, and the types that
//! describe them.

use vstd::prelude::*;
use crate::array::{CoordBuffer, NativeArray};
use crate::wkt::geometry::Geometry;

verus! {

/// The data type of a column, as far as the spatial functions tell types
/// apart.
#[derive(Debug, PartialEq)]
pub enum DataType {
    Binary,
    LargeBinary,
    Utf8,
    LargeUtf8,
    Float64,
    /// A list of items of one type.
    List(Box<DataType>),
    /// A list of a fixed number of items of one type.
    FixedSizeList(Box<DataType>, i32),
    /// A struct, whatever its fields.
    Struct,
    /// Any other type.
    Other,
}

/// A field of a struct type.
#[derive(Debug, PartialEq)]
pub struct Field {
    pub name: String,
    pub data_type: DataType,
    pub nullable: bool,
}

/// How a buffer lays out its coordinates.
#[derive(Clone, Copy, PartialEq, Eq, Structural, Debug)]
pub enum CoordType {
    Interleaved,
    Separated,
}

/// The axes of a geometry.
#[derive(Clone, Copy, PartialEq, Eq, Structural, Debug)]
pub enum Dimension {
    XY,
    XYZ,
}

/// A native geometry layout: variant, coordinate layout and dimension.
#[derive(Clone, Copy, PartialEq, Eq, Structural, Debug)]
pub enum NativeType {
    Point(CoordType, Dimension),
    LineString(CoordType, Dimension),
    Polygon(CoordType, Dimension),
    MultiPoint(CoordType, Dimension),
    MultiLineString(CoordType, Dimension),
    MultiPolygon(CoordType, Dimension),
    Mixed(CoordType, Dimension),
    GeometryCollection(CoordType, Dimension),
    Rect(Dimension),
}

/// The geometry types that a column's metadata can declare.
#[derive(Clone, Copy, PartialEq, Eq, Structural, Debug)]
pub enum GeoParquetGeometryType {
    Point,
    LineString,
    Polygon,
    MultiPoint,
    MultiLineString,
    MultiPolygon,
    GeometryCollection,
    PointZ,
    LineStringZ,
    PolygonZ,
    MultiPointZ,
    MultiLineStringZ,
    MultiPolygonZ,
    GeometryCollectionZ,
}

/// What a column holds, in the form in which a spatial function reads it.
#[derive(Debug, PartialEq)]
pub enum ColumnData {
    /// Serialized geometries: the bytes of each row.
    Binary(Vec<Option<Vec<u8>>>),
    /// The geometry of each row, with its ordinates as text.
    Geometries(Vec<Option<Geometry>>),
    /// The coordinates of the geometry of each row.
    Coordinates(Vec<Option<CoordBuffer>>),
    /// Geometries in a native layout.
    Native(NativeArray),
    /// Texts.
    Utf8(Vec<Option<String>>),
    /// Values that the function does not read, with their validity mask
    /// where the column has one.
    Unread(Option<Vec<bool>>),
}

/// A column: its data type and what it holds.
#[derive(Debug, PartialEq)]
pub struct Column {
    pub data_type: DataType,
    pub data: ColumnData,
}

/// A single value.
#[derive(Debug, PartialEq)]
pub enum ScalarValue {
    Utf8(Option<String>),
    Utf8View(Option<String>),
    /// Any other value, as the column of one row that holds it.
    Other(Column),
}

/// An argument of a function: a column, or one value for all rows.
#[derive(Debug, PartialEq)]
pub enum ColumnarValue {
    Array(Column),
    Scalar(ScalarValue),
}

/// The call shapes that a function accepts, and how its result depends on
/// its arguments.
#[derive(Clone, Debug, PartialEq)]
pub struct Signature {
    /// The numbers of arguments that the function can be called with; the
    /// arguments may be of any type.
    pub arities: Vec<usize>,
    /// Whether equal arguments always give an equal result.
    pub immutable: bool,
}

impl Signature {
    /// The signature of every spatial function: one argument, or three.
    pub fn one_or_three() -> (s: Signature)
        ensures
            s.arities@ == seq![1usize, 3usize],
            s.immutable,
    {
        Signature { arities: vec![1, 3], immutable: true }
    }
}

impl ColumnarValue {
    /// The column that the argument stands for, where it is a column or a
    /// value kept as a column of one row.
    pub open spec fn column(&self) -> Option<Column> {
        match self {
            ColumnarValue::Array(c) => Some(*c),
            ColumnarValue::Scalar(ScalarValue::Other(c)) => Some(*c),
            _ => None,
        }
    }

    /// The column that the argument stands for.
    pub fn as_column(&self) -> (r: Option<&Column>)
        ensures
            match r {
                Some(c) => self.column() == Some(*c),
                None => self.column() is None,
            },
    {
        match self {
            ColumnarValue::Array(c) => Some(c),
            ColumnarValue::Scalar(ScalarValue::Other(c)) => Some(c),
            _ => None,
        }
    }
}

/// Whether a mask has an entry that is not set.
pub open spec fn has_unset(mask: Seq<bool>) -> bool {
    exists|i: int| 0 <= i < mask.len() && !#[trigger] mask[i]
}

/// Which rows of a list hold a value.
pub open spec fn presence<T>(rows: Seq<Option<T>>) -> Seq<bool> {
    Seq::new(rows.len(), |i: int| rows[i] is Some)
}

/// Which rows of a list hold a value.
pub fn presence_of<T>(rows: &Vec<Option<T>>) -> (mask: Vec<bool>)
    ensures
        mask@ == presence(rows@),
{
    let mut mask: Vec<bool> = Vec::new();
    let mut i: usize = 0;
    while i < rows.len()
        invariant
            i <= rows.len(),
            mask@.len() == i,
            forall|j: int| 0 <= j < i ==> mask@[j] == (rows@[j] is Some),
        decreases rows.len() - i,
    {
        mask.push(rows[i].is_some());
        i += 1;
    }
    assert(mask@ =~= presence(rows@));
    mask
}

/// A copy of a mask.
pub fn copy_mask(mask: &Vec<bool>) -> (r: Vec<bool>)
    ensures
        r@ == mask@,
{
    let mut r: Vec<bool> = Vec::new();
    let mut i: usize = 0;
    while i < mask.len()
        invariant
            i <= mask.len(),
            r@ == mask@.subrange(0, i as int),
        decreases mask.len() - i,
    {
        r.push(mask[i]);
        assert(r@ =~= mask@.subrange(0, i as int + 1));
        i += 1;
    }
    assert(mask@.subrange(0, mask.len() as int) =~= mask@);
    r
}

impl ColumnData {
    /// Which rows hold a value, where the column says so row by row: `None`
    /// for a column without a validity mask, which has no null row.
    pub open spec fn validity(&self) -> Option<Seq<bool>> {
        match self {
            ColumnData::Binary(rows) => Some(presence(rows@)),
            ColumnData::Geometries(rows) => Some(presence(rows@)),
            ColumnData::Coordinates(rows) => Some(presence(rows@)),
            ColumnData::Utf8(rows) => Some(presence(rows@)),
            ColumnData::Native(array) => match array.validity() {
                Some(mask) => Some(mask@),
                None => None,
            },
            ColumnData::Unread(Some(mask)) => Some(mask@),
            ColumnData::Unread(None) => None,
        }
    }

    /// Whether the column has a null row.
    pub open spec fn has_nulls(&self) -> bool {
        match self.validity() {
            Some(mask) => has_unset(mask),
            None => false,
        }
    }

    /// Which rows hold a value; see [`ColumnData::validity`].
    pub fn validity_mask(&self) -> (r: Option<Vec<bool>>)
        ensures
            match r {
                Some(mask) => self.validity() == Some(mask@),
                None => self.validity() is None,
            },
    {
        match self {
            ColumnData::Binary(rows) => Some(presence_of(rows)),
            ColumnData::Geometries(rows) => Some(presence_of(rows)),
            ColumnData::Coordinates(rows) => Some(presence_of(rows)),
            ColumnData::Utf8(rows) => Some(presence_of(rows)),
            ColumnData::Native(array) => match array.validity_mask() {
                Some(mask) => Some(copy_mask(mask)),
                None => None,
            },
            ColumnData::Unread(Some(mask)) => Some(copy_mask(mask)),
            ColumnData::Unread(None) => None,
        }
    }
}

} // verus!
