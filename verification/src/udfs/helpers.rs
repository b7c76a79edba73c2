//! What the spatial functions share: reading the constant arguments that
//! analysis appends, and telling the layout of a geometry column.

use vstd::prelude::*;
use crate::array::{CoordBuffer, NativeArray};
use crate::datatypes::{
    ColumnarValue, CoordType, DataType, Dimension, GeoParquetGeometryType, NativeType, ScalarValue,
};
use crate::error::{Error, ErrorKind};
use crate::metadata::same_text;

verus! {

/// The text of a constant-text argument; `None` for a column, for a null and
/// for any other value.
pub open spec fn tag_text(arg: ColumnarValue) -> Option<Seq<char>> {
    match arg {
        ColumnarValue::Scalar(ScalarValue::Utf8(Some(s))) => Some(s@),
        ColumnarValue::Scalar(ScalarValue::Utf8View(Some(s))) => Some(s@),
        _ => None,
    }
}

/// The text of an argument that is a constant text. An argument that is a
/// column, a null or any other value is an internal error.
pub fn scalar_arg_as_str(arg: &ColumnarValue) -> (r: Result<&str, Error>)
    ensures
        match r {
            Ok(s) => tag_text(*arg) == Some(s@),
            Err(e) => tag_text(*arg) is None && e.kind() == ErrorKind::Internal,
        },
{
    match arg {
        ColumnarValue::Array(_) => Err(
            Error::Internal(String::from_str("expected a constant text, found a column")),
        ),
        ColumnarValue::Scalar(scalar) => match scalar {
            ScalarValue::Utf8(Some(s)) => Ok(s.as_str()),
            ScalarValue::Utf8View(Some(s)) => Ok(s.as_str()),
            ScalarValue::Utf8(None) => Err(
                Error::Internal(String::from_str("expected a constant text, found null")),
            ),
            ScalarValue::Utf8View(None) => Err(
                Error::Internal(String::from_str("expected a constant text, found null")),
            ),
            ScalarValue::Other(_) => Err(
                Error::Internal(String::from_str("expected a constant text")),
            ),
        },
    }
}

impl GeoParquetGeometryType {
    /// The geometry type that a text names: the name of the variant, followed
    /// by ` Z` for three axes.
    pub open spec fn parse(s: Seq<char>) -> Option<GeoParquetGeometryType> {
        if s == "Point"@ {
            Some(GeoParquetGeometryType::Point)
        } else if s == "LineString"@ {
            Some(GeoParquetGeometryType::LineString)
        } else if s == "Polygon"@ {
            Some(GeoParquetGeometryType::Polygon)
        } else if s == "MultiPoint"@ {
            Some(GeoParquetGeometryType::MultiPoint)
        } else if s == "MultiLineString"@ {
            Some(GeoParquetGeometryType::MultiLineString)
        } else if s == "MultiPolygon"@ {
            Some(GeoParquetGeometryType::MultiPolygon)
        } else if s == "GeometryCollection"@ {
            Some(GeoParquetGeometryType::GeometryCollection)
        } else if s == "Point Z"@ {
            Some(GeoParquetGeometryType::PointZ)
        } else if s == "LineString Z"@ {
            Some(GeoParquetGeometryType::LineStringZ)
        } else if s == "Polygon Z"@ {
            Some(GeoParquetGeometryType::PolygonZ)
        } else if s == "MultiPoint Z"@ {
            Some(GeoParquetGeometryType::MultiPointZ)
        } else if s == "MultiLineString Z"@ {
            Some(GeoParquetGeometryType::MultiLineStringZ)
        } else if s == "MultiPolygon Z"@ {
            Some(GeoParquetGeometryType::MultiPolygonZ)
        } else if s == "GeometryCollection Z"@ {
            Some(GeoParquetGeometryType::GeometryCollectionZ)
        } else {
            None
        }
    }

    /// The geometry type that `s` names; an internal error for any other text.
    pub fn from_string(s: &str) -> (r: Result<GeoParquetGeometryType, Error>)
        ensures
            match r {
                Ok(t) => GeoParquetGeometryType::parse(s@) == Some(t),
                Err(e) => GeoParquetGeometryType::parse(s@) is None && e.kind()
                    == ErrorKind::Internal,
            },
    {
        if same_text(s, "Point") {
            Ok(GeoParquetGeometryType::Point)
        } else if same_text(s, "LineString") {
            Ok(GeoParquetGeometryType::LineString)
        } else if same_text(s, "Polygon") {
            Ok(GeoParquetGeometryType::Polygon)
        } else if same_text(s, "MultiPoint") {
            Ok(GeoParquetGeometryType::MultiPoint)
        } else if same_text(s, "MultiLineString") {
            Ok(GeoParquetGeometryType::MultiLineString)
        } else if same_text(s, "MultiPolygon") {
            Ok(GeoParquetGeometryType::MultiPolygon)
        } else if same_text(s, "GeometryCollection") {
            Ok(GeoParquetGeometryType::GeometryCollection)
        } else if same_text(s, "Point Z") {
            Ok(GeoParquetGeometryType::PointZ)
        } else if same_text(s, "LineString Z") {
            Ok(GeoParquetGeometryType::LineStringZ)
        } else if same_text(s, "Polygon Z") {
            Ok(GeoParquetGeometryType::PolygonZ)
        } else if same_text(s, "MultiPoint Z") {
            Ok(GeoParquetGeometryType::MultiPointZ)
        } else if same_text(s, "MultiLineString Z") {
            Ok(GeoParquetGeometryType::MultiLineStringZ)
        } else if same_text(s, "MultiPolygon Z") {
            Ok(GeoParquetGeometryType::MultiPolygonZ)
        } else if same_text(s, "GeometryCollection Z") {
            Ok(GeoParquetGeometryType::GeometryCollectionZ)
        } else {
            let mut message = String::from_str("Unknown value for geometry_type: ");
            message.append(s);
            Err(Error::Internal(message))
        }
    }
}

/// The geometry type that a constant-text argument names.
pub open spec fn geometry_type_of(arg: ColumnarValue) -> Option<GeoParquetGeometryType> {
    match tag_text(arg) {
        Some(s) => GeoParquetGeometryType::parse(s),
        None => None,
    }
}

/// The geometry type that the argument names. An argument that is no
/// constant text, or names no geometry type, is an internal error.
pub fn geom_type(arg: &ColumnarValue) -> (r: Result<GeoParquetGeometryType, Error>)
    ensures
        match r {
            Ok(t) => geometry_type_of(*arg) == Some(t),
            Err(e) => geometry_type_of(*arg) is None && e.kind() == ErrorKind::Internal,
        },
{
    let s = scalar_arg_as_str(arg)?;
    GeoParquetGeometryType::from_string(s)
}

/// The coordinate layout under at most `lists` levels of lists: interleaved
/// under a fixed-size list, separated under a struct.
pub open spec fn coord_type_under(data_type: DataType, lists: nat) -> Option<CoordType>
    decreases lists,
{
    match data_type {
        DataType::FixedSizeList(_, _) => Some(CoordType::Interleaved),
        DataType::Struct => Some(CoordType::Separated),
        DataType::List(inner) => if lists > 0 {
            coord_type_under(*inner, (lists - 1) as nat)
        } else {
            None
        },
        _ => None,
    }
}

/// The coordinate layout of a native geometry type: what lies under its
/// lists, of which a geometry type has at most three.
pub open spec fn spec_coord_type(data_type: DataType) -> Option<CoordType> {
    coord_type_under(data_type, 3)
}

fn coord_type_within(data_type: &DataType, lists: usize) -> (r: Option<CoordType>)
    ensures
        r == coord_type_under(*data_type, lists as nat),
    decreases lists,
{
    match data_type {
        DataType::FixedSizeList(_, _) => Some(CoordType::Interleaved),
        DataType::Struct => Some(CoordType::Separated),
        DataType::List(inner) => if lists > 0 {
            coord_type_within(inner, lists - 1)
        } else {
            None
        },
        _ => None,
    }
}

/// The coordinate layout that a data type implies, if it is that of a native
/// geometry.
pub fn coord_type(data_type: &DataType) -> (r: Option<CoordType>)
    ensures
        r == spec_coord_type(*data_type),
{
    coord_type_within(data_type, 3)
}

impl ColumnarValue {
    /// The data type of the argument.
    pub open spec fn spec_data_type(&self) -> DataType {
        match self {
            ColumnarValue::Array(c) => c.data_type,
            ColumnarValue::Scalar(ScalarValue::Other(c)) => c.data_type,
            ColumnarValue::Scalar(ScalarValue::Utf8(_)) => DataType::Utf8,
            ColumnarValue::Scalar(ScalarValue::Utf8View(_)) => DataType::Other,
        }
    }

    /// The coordinate layout of the argument; separated where its data type
    /// implies none.
    pub open spec fn coord_type(&self) -> CoordType {
        match spec_coord_type(self.spec_data_type()) {
            Some(ct) => ct,
            None => CoordType::Separated,
        }
    }
}

/// The native layout of a geometry type with the coordinate layout `ct`.
pub open spec fn native_type_of(geometry_type: GeoParquetGeometryType, ct: CoordType) -> NativeType {
    match geometry_type {
        GeoParquetGeometryType::Point => NativeType::Point(ct, Dimension::XY),
        GeoParquetGeometryType::LineString => NativeType::LineString(ct, Dimension::XY),
        GeoParquetGeometryType::Polygon => NativeType::Polygon(ct, Dimension::XY),
        GeoParquetGeometryType::MultiPoint => NativeType::MultiPoint(ct, Dimension::XY),
        GeoParquetGeometryType::MultiLineString => NativeType::MultiLineString(ct, Dimension::XY),
        GeoParquetGeometryType::MultiPolygon => NativeType::MultiPolygon(ct, Dimension::XY),
        GeoParquetGeometryType::GeometryCollection => NativeType::GeometryCollection(
            ct,
            Dimension::XY,
        ),
        GeoParquetGeometryType::PointZ => NativeType::Point(ct, Dimension::XYZ),
        GeoParquetGeometryType::LineStringZ => NativeType::LineString(ct, Dimension::XYZ),
        GeoParquetGeometryType::PolygonZ => NativeType::Polygon(ct, Dimension::XYZ),
        GeoParquetGeometryType::MultiPointZ => NativeType::MultiPoint(ct, Dimension::XYZ),
        GeoParquetGeometryType::MultiLineStringZ => NativeType::MultiLineString(ct, Dimension::XYZ),
        GeoParquetGeometryType::MultiPolygonZ => NativeType::MultiPolygon(ct, Dimension::XYZ),
        GeoParquetGeometryType::GeometryCollectionZ => NativeType::GeometryCollection(
            ct,
            Dimension::XYZ,
        ),
    }
}

/// The native layout of a geometry argument of the given geometry type:
/// variant and dimension from the type, coordinate layout from the
/// argument's data type.
pub fn native_type(arg: &ColumnarValue, geometry_type: GeoParquetGeometryType) -> (r: NativeType)
    ensures
        r == native_type_of(geometry_type, arg.coord_type()),
{
    let found = match arg {
        ColumnarValue::Array(c) => coord_type(&c.data_type),
        ColumnarValue::Scalar(ScalarValue::Other(c)) => coord_type(&c.data_type),
        ColumnarValue::Scalar(ScalarValue::Utf8(_)) => None,
        ColumnarValue::Scalar(ScalarValue::Utf8View(_)) => None,
    };
    let ct = match found {
        Some(ct) => ct,
        None => CoordType::Separated,
    };
    match geometry_type {
        GeoParquetGeometryType::Point => NativeType::Point(ct, Dimension::XY),
        GeoParquetGeometryType::LineString => NativeType::LineString(ct, Dimension::XY),
        GeoParquetGeometryType::Polygon => NativeType::Polygon(ct, Dimension::XY),
        GeoParquetGeometryType::MultiPoint => NativeType::MultiPoint(ct, Dimension::XY),
        GeoParquetGeometryType::MultiLineString => NativeType::MultiLineString(ct, Dimension::XY),
        GeoParquetGeometryType::MultiPolygon => NativeType::MultiPolygon(ct, Dimension::XY),
        GeoParquetGeometryType::GeometryCollection => NativeType::GeometryCollection(
            ct,
            Dimension::XY,
        ),
        GeoParquetGeometryType::PointZ => NativeType::Point(ct, Dimension::XYZ),
        GeoParquetGeometryType::LineStringZ => NativeType::LineString(ct, Dimension::XYZ),
        GeoParquetGeometryType::PolygonZ => NativeType::Polygon(ct, Dimension::XYZ),
        GeoParquetGeometryType::MultiPointZ => NativeType::MultiPoint(ct, Dimension::XYZ),
        GeoParquetGeometryType::MultiLineStringZ => NativeType::MultiLineString(ct, Dimension::XYZ),
        GeoParquetGeometryType::MultiPolygonZ => NativeType::MultiPolygon(ct, Dimension::XYZ),
        GeoParquetGeometryType::GeometryCollectionZ => NativeType::GeometryCollection(
            ct,
            Dimension::XYZ,
        ),
    }
}

/// The geometry type that the envelope and the extent work on, as a
/// constant-text argument names it. The tag `Mixed` and the geometry
/// collections are not implemented; an argument that is no constant text, or
/// any other text that names no geometry type, is an internal error.
pub open spec fn covered_type_of(arg: ColumnarValue) -> Result<GeoParquetGeometryType, ErrorKind> {
    match tag_text(arg) {
        None => Err(ErrorKind::Internal),
        Some(tag) => covered_type(tag),
    }
}

/// The geometry type that the envelope and the extent work on, as a tag
/// names it; see [`covered_type_of`].
pub open spec fn covered_type(tag: Seq<char>) -> Result<GeoParquetGeometryType, ErrorKind> {
    if tag == "Mixed"@ {
        Err(ErrorKind::NotImplemented)
    } else {
        match GeoParquetGeometryType::parse(tag) {
            None => Err(ErrorKind::Internal),
            Some(GeoParquetGeometryType::GeometryCollection) => Err(ErrorKind::NotImplemented),
            Some(GeoParquetGeometryType::GeometryCollectionZ) => Err(ErrorKind::NotImplemented),
            Some(t) => Ok(t),
        }
    }
}

/// The geometry type that a tag names, for the envelope and the extent; see
/// [`covered_type_of`].
pub fn covered_type_from(tag: &str) -> (r: Result<GeoParquetGeometryType, Error>)
    ensures
        match r {
            Ok(t) => covered_type(tag@) == Ok::<GeoParquetGeometryType, ErrorKind>(t),
            Err(e) => covered_type(tag@) == Err::<GeoParquetGeometryType, ErrorKind>(e.kind()),
        },
{
    if same_text(tag, "Mixed") {
        return Err(Error::NotImplemented(String::from_str("columns of mixed geometry types")));
    }
    match GeoParquetGeometryType::from_string(tag) {
        Ok(GeoParquetGeometryType::GeometryCollection) => Err(
            Error::NotImplemented(String::from_str("geometry collections")),
        ),
        Ok(GeoParquetGeometryType::GeometryCollectionZ) => Err(
            Error::NotImplemented(String::from_str("geometry collections")),
        ),
        Ok(t) => Ok(t),
        Err(e) => Err(e),
    }
}

/// The geometry type that the argument names, for the envelope and the
/// extent; see [`covered_type_of`].
pub fn covered_geom_type(arg: &ColumnarValue) -> (r: Result<GeoParquetGeometryType, Error>)
    ensures
        match r {
            Ok(t) => covered_type_of(*arg) == Ok::<GeoParquetGeometryType, ErrorKind>(t),
            Err(e) => covered_type_of(*arg) == Err::<GeoParquetGeometryType, ErrorKind>(e.kind()),
        },
{
    let tag = scalar_arg_as_str(arg)?;
    covered_type_from(tag)
}

/// Whether coordinates are laid out as a native type says.
pub open spec fn coords_match(coords: CoordBuffer, ct: CoordType, dim: Dimension) -> bool {
    &&& coords.is_interleaved() == (ct == CoordType::Interleaved)
    &&& coords.spec_dim() == (match dim {
        Dimension::XY => 2nat,
        Dimension::XYZ => 3nat,
    })
}

fn check_coords_match(coords: &CoordBuffer, ct: CoordType, dim: Dimension) -> (r: bool)
    ensures
        r == coords_match(*coords, ct, dim),
{
    let axes: usize = match dim {
        Dimension::XY => 2,
        Dimension::XYZ => 3,
    };
    match coords {
        CoordBuffer::Interleaved { dim: n, coords: _ } => ct == CoordType::Interleaved && *n == axes,
        CoordBuffer::Separated { buffers } => ct == CoordType::Separated && buffers.len() == axes,
    }
}

/// Whether a column in a native layout has the variant, the coordinate
/// layout and the dimension that a native type says.
pub open spec fn array_matches(array: NativeArray, native_type: NativeType) -> bool {
    match (array, native_type) {
        (NativeArray::Point(a), NativeType::Point(ct, dim)) => coords_match(a.coords, ct, dim),
        (NativeArray::LineString(a), NativeType::LineString(ct, dim)) => coords_match(
            a.coords,
            ct,
            dim,
        ),
        (NativeArray::Polygon(a), NativeType::Polygon(ct, dim)) => coords_match(a.coords, ct, dim),
        (NativeArray::MultiPoint(a), NativeType::MultiPoint(ct, dim)) => coords_match(
            a.coords,
            ct,
            dim,
        ),
        (NativeArray::MultiLineString(a), NativeType::MultiLineString(ct, dim)) => coords_match(
            a.coords,
            ct,
            dim,
        ),
        (NativeArray::MultiPolygon(a), NativeType::MultiPolygon(ct, dim)) => coords_match(
            a.coords,
            ct,
            dim,
        ),
        _ => false,
    }
}

/// Whether `array` has the layout that `native_type` says.
pub fn check_array_matches(array: &NativeArray, native_type: NativeType) -> (r: bool)
    ensures
        r == array_matches(*array, native_type),
{
    match (array, native_type) {
        (NativeArray::Point(a), NativeType::Point(ct, dim)) => check_coords_match(
            &a.coords,
            ct,
            dim,
        ),
        (NativeArray::LineString(a), NativeType::LineString(ct, dim)) => check_coords_match(
            &a.coords,
            ct,
            dim,
        ),
        (NativeArray::Polygon(a), NativeType::Polygon(ct, dim)) => check_coords_match(
            &a.coords,
            ct,
            dim,
        ),
        (NativeArray::MultiPoint(a), NativeType::MultiPoint(ct, dim)) => check_coords_match(
            &a.coords,
            ct,
            dim,
        ),
        (NativeArray::MultiLineString(a), NativeType::MultiLineString(ct, dim)) => check_coords_match(
            &a.coords,
            ct,
            dim,
        ),
        (NativeArray::MultiPolygon(a), NativeType::MultiPolygon(ct, dim)) => check_coords_match(
            &a.coords,
            ct,
            dim,
        ),
        _ => false,
    }
}

/// Whether the coordinates of every row are valid.
pub open spec fn coord_rows_wf(rows: Seq<Option<CoordBuffer>>) -> bool {
    forall|i: int| 0 <= i < rows.len() && rows[i] is Some ==> (#[trigger] rows[i])->0.wf()
}

/// Whether the coordinates of every row are valid.
pub fn check_coord_rows(rows: &Vec<Option<CoordBuffer>>) -> (r: bool)
    ensures
        r == coord_rows_wf(rows@),
{
    let mut i: usize = 0;
    while i < rows.len()
        invariant
            i <= rows.len(),
            forall|j: int| 0 <= j < i && rows@[j] is Some ==> (#[trigger] rows@[j])->0.wf(),
        decreases rows.len() - i,
    {
        match &rows[i] {
            Some(coords) => {
                if !coords.is_valid() {
                    return false;
                }
            },
            None => {},
        }
        i += 1;
    }
    true
}

} // verus!
