//! `ST_GeometryType`: the name of the geometry type of each row of a column.

use vstd::prelude::*;
use crate::datatypes::{Column, ColumnData, ColumnarValue, DataType, ScalarValue, Signature};
use crate::error::{Error, ErrorKind};
use crate::udfs::helpers::{scalar_arg_as_str, tag_text};

verus! {

/// The `ST_GeometryType` function.
#[derive(Debug)]
pub struct GeometryType {
    signature: Signature,
    aliases: Vec<String>,
}

/// The number that four bytes stand for, the first byte the highest.
pub open spec fn big_endian(b0: u8, b1: u8, b2: u8, b3: u8) -> int {
    b0 as int * 0x100_0000 + b1 as int * 0x1_0000 + b2 as int * 0x100 + b3 as int
}

/// The type code in the header of a serialized geometry: the four bytes
/// after the first, which says in which order they stand (0: highest first,
/// 1: lowest first).
pub open spec fn wkb_code(bytes: Seq<u8>) -> int {
    if bytes[0] == 0 {
        big_endian(bytes[1], bytes[2], bytes[3], bytes[4])
    } else {
        big_endian(bytes[4], bytes[3], bytes[2], bytes[1])
    }
}

/// Whether a number is the type code of a geometry type: 1 to 7 for the
/// seven variants with two axes, 1001 to 1007 for those with three.
pub open spec fn is_wkb_code(code: int) -> bool {
    1 <= code <= 7 || 1001 <= code <= 1007
}

/// Whether bytes begin with the header of a serialized geometry of a known
/// type.
pub open spec fn has_wkb_type(bytes: Seq<u8>) -> bool {
    bytes.len() >= 5 && bytes[0] <= 1 && is_wkb_code(wkb_code(bytes))
}

/// Reads the type code of a serialized geometry with geoarrow's
/// `WKBType::from_buffer`, and hands it out as a number (geoarrow's
/// conversion of `WKBType` into `u32`). The contract claims that the outcome
/// is the code in the header where that is the code of one of the fourteen
/// types, and `None` otherwise. It leaves out the inputs on which
/// `from_buffer` panics: fewer than five bytes, or a first byte other than 0
/// and 1.
#[verifier::external_body]
fn read_wkb_code(bytes: &[u8]) -> (r: Option<u32>)
    requires
        bytes@.len() >= 5,
        bytes@[0] <= 1,
    ensures
        match r {
            Some(code) => is_wkb_code(wkb_code(bytes@)) && code == wkb_code(bytes@),
            None => !is_wkb_code(wkb_code(bytes@)),
        },
{
    match geoarrow::io::wkb::WKBType::from_buffer(bytes) {
        Ok(wkb_type) => Some(u32::from(wkb_type)),
        Err(_) => None,
    }
}

/// The name of the geometry type with the given type code.
pub open spec fn wkb_type_name(code: int) -> Seq<char> {
    if code == 1 {
        "ST_Point"@
    } else if code == 2 {
        "ST_LineString"@
    } else if code == 3 {
        "ST_Polygon"@
    } else if code == 4 {
        "ST_MultiPoint"@
    } else if code == 5 {
        "ST_MultiLineString"@
    } else if code == 6 {
        "ST_MultiPolygon"@
    } else if code == 7 {
        "ST_GeometryCollection"@
    } else if code == 1001 {
        "ST_PointZ"@
    } else if code == 1002 {
        "ST_LineStringZ"@
    } else if code == 1003 {
        "ST_PolygonZ"@
    } else if code == 1004 {
        "ST_MultiPointZ"@
    } else if code == 1005 {
        "ST_MultiLineStringZ"@
    } else if code == 1006 {
        "ST_MultiPolygonZ"@
    } else {
        "ST_GeometryCollectionZ"@
    }
}

fn name_of_code(code: u32) -> (name: &'static str)
    requires
        is_wkb_code(code as int),
    ensures
        name@ == wkb_type_name(code as int),
{
    if code == 1 {
        "ST_Point"
    } else if code == 2 {
        "ST_LineString"
    } else if code == 3 {
        "ST_Polygon"
    } else if code == 4 {
        "ST_MultiPoint"
    } else if code == 5 {
        "ST_MultiLineString"
    } else if code == 6 {
        "ST_MultiPolygon"
    } else if code == 7 {
        "ST_GeometryCollection"
    } else if code == 1001 {
        "ST_PointZ"
    } else if code == 1002 {
        "ST_LineStringZ"
    } else if code == 1003 {
        "ST_PolygonZ"
    } else if code == 1004 {
        "ST_MultiPointZ"
    } else if code == 1005 {
        "ST_MultiLineStringZ"
    } else if code == 1006 {
        "ST_MultiPolygonZ"
    } else {
        "ST_GeometryCollectionZ"
    }
}

/// The name of the geometry type of a serialized geometry, read from its
/// header; `None` for a null. Bytes that do not begin with the header of a
/// known type are an internal error.
pub fn wkb_geom_to_type(geom: Option<&[u8]>) -> (r: Result<Option<String>, Error>)
    ensures
        match r {
            Ok(None) => geom is None,
            Ok(Some(name)) => geom is Some && has_wkb_type(geom->0@) && name@ == wkb_type_name(
                wkb_code(geom->0@),
            ),
            Err(e) => geom is Some && !has_wkb_type(geom->0@) && e.kind() == ErrorKind::Internal,
        },
{
    match geom {
        None => Ok(None),
        Some(bytes) => {
            if bytes.len() < 5 || bytes[0] > 1 {
                return Err(Error::Internal(String::from_str("malformed well-known binary")));
            }
            match read_wkb_code(bytes) {
                Some(code) => Ok(Some(String::from_str(name_of_code(code)))),
                None => Err(Error::Internal(String::from_str("unknown geometry type code"))),
            }
        },
    }
}

/// Removes the spaces from a text with `str::replace`. The contract claims
/// that the outcome holds the characters of the text other than the space,
/// in order.
#[verifier::external_body]
fn remove_spaces(s: &str) -> (r: String)
    ensures
        r@ == without_spaces(s@),
{
    s.replace(' ', "")
}

/// A text without its spaces.
pub open spec fn without_spaces(s: Seq<char>) -> Seq<char> {
    s.filter(|c: char| c != ' ')
}

/// The name of the geometry type that a tag names: `ST_`, then the tag
/// without its spaces.
pub open spec fn tag_type_name(tag: Seq<char>) -> Seq<char> {
    "ST_"@ + without_spaces(tag)
}

/// The rows of a column that holds `name` where `mask` is set and null
/// elsewhere.
pub open spec fn broadcast_rows(mask: Seq<bool>, name: Seq<char>) -> Seq<Option<Seq<char>>> {
    Seq::new(
        mask.len(),
        |i: int|
            if mask[i] {
                Some(name)
            } else {
                None
            },
    )
}

/// The names of the geometry types of serialized geometries, row for row;
/// null for a null row.
pub open spec fn wkb_type_rows(rows: Seq<Option<Vec<u8>>>) -> Seq<Option<Seq<char>>> {
    Seq::new(
        rows.len(),
        |i: int|
            match rows[i] {
                Some(bytes) => Some(wkb_type_name(wkb_code(bytes@))),
                None => None,
            },
    )
}

/// Whether every serialized geometry of a column begins with the header of a
/// known type.
pub open spec fn all_typed(rows: Seq<Option<Vec<u8>>>) -> bool {
    forall|i: int| 0 <= i < rows.len() && rows[i] is Some ==> has_wkb_type((#[trigger] rows[i])->0@)
}

/// Whether a data type is that of serialized geometries.
pub open spec fn is_binary(data_type: DataType) -> bool {
    data_type is Binary || data_type is LargeBinary
}

/// What `ST_GeometryType` returns for given arguments.
pub enum GeometryTypeResult {
    /// The arguments cannot be used: an internal error.
    Invalid,
    /// The names of the rows.
    Rows(Seq<Option<Seq<char>>>),
    /// One name for every row.
    Constant(Seq<char>),
}

/// What `ST_GeometryType` returns for the arguments `args`: for serialized
/// geometries the type in the header of each row, for any other column the
/// type that the second argument names, as one value where the column has no
/// null row and row by row where it has.
pub open spec fn geometry_type_result(args: Seq<ColumnarValue>) -> GeometryTypeResult {
    match (args[0].column(), tag_text(args[1])) {
        (Some(column), Some(tag)) => if is_binary(column.data_type) {
            match column.data {
                ColumnData::Binary(rows) => if all_typed(rows@) {
                    GeometryTypeResult::Rows(wkb_type_rows(rows@))
                } else {
                    GeometryTypeResult::Invalid
                },
                _ => GeometryTypeResult::Invalid,
            }
        } else if column.data.has_nulls() {
            GeometryTypeResult::Rows(broadcast_rows(column.data.validity()->0, tag_type_name(tag)))
        } else {
            GeometryTypeResult::Constant(tag_type_name(tag))
        },
        _ => GeometryTypeResult::Invalid,
    }
}

impl GeometryType {
    /// The function, with its call shapes and its alias.
    pub fn new() -> (f: GeometryType)
        ensures
            f.spec_signature().arities@ == seq![1usize, 3usize],
            f.spec_signature().immutable,
            f.spec_aliases()@.len() == 1,
            f.spec_aliases()@[0]@ == "st_geometrytype"@,
    {
        GeometryType {
            signature: Signature::one_or_three(),
            aliases: vec![String::from_str("st_geometrytype")],
        }
    }

    pub closed spec fn spec_signature(&self) -> Signature {
        self.signature
    }

    pub closed spec fn spec_aliases(&self) -> Vec<String> {
        self.aliases
    }

    /// The name of the function.
    pub fn name(&self) -> (name: &'static str)
        ensures
            name@ == "ST_GeometryType"@,
    {
        "ST_GeometryType"
    }

    /// The call shapes of the function.
    pub fn signature(&self) -> (s: &Signature)
        ensures
            *s == self.spec_signature(),
    {
        &self.signature
    }

    /// The other names of the function.
    pub fn aliases(&self) -> (a: &Vec<String>)
        ensures
            *a == self.spec_aliases(),
    {
        &self.aliases
    }

    /// The type of the result: texts, whatever the arguments.
    pub fn return_type(&self, _arg_types: &[DataType]) -> (r: Result<DataType, Error>)
        ensures
            r == Ok::<DataType, Error>(DataType::Utf8),
    {
        Ok(DataType::Utf8)
    }

    /// The name of the geometry type of each row of the first argument.
    ///
    /// The arguments are the geometry column, the geometry type and the
    /// encoding. See [`geometry_type_result`] for the result; where that is
    /// `Invalid` the call is an internal error.
    pub fn invoke(&self, args: &[ColumnarValue]) -> (r: Result<ColumnarValue, Error>)
        requires
            args@.len() == 3,
        ensures
            match r {
                Ok(ColumnarValue::Array(column)) => column.data_type == DataType::Utf8
                    && match column.data {
                    ColumnData::Utf8(names) => geometry_type_result(args@)
                        == GeometryTypeResult::Rows(crate::wkt::array::text_rows(names@)),
                    _ => false,
                },
                Ok(ColumnarValue::Scalar(ScalarValue::Utf8(Some(name)))) => geometry_type_result(
                    args@,
                ) == GeometryTypeResult::Constant(name@),
                Ok(_) => false,
                Err(e) => geometry_type_result(args@) == GeometryTypeResult::Invalid && e.kind()
                    == ErrorKind::Internal,
            },
    {
        let geoms = match args[0].as_column() {
            Some(column) => column,
            None => {
                return Err(Error::Internal(String::from_str("Unsupported data type")));
            },
        };
        let geomtype = scalar_arg_as_str(&args[1])?;
        match geoms.data_type {
            DataType::Binary | DataType::LargeBinary => {
                let rows = match &geoms.data {
                    ColumnData::Binary(rows) => rows,
                    _ => {
                        return Err(Error::Internal(String::from_str("Unsupported data type")));
                    },
                };
                let mut names: Vec<Option<String>> = Vec::new();
                let mut i: usize = 0;
                while i < rows.len()
                    invariant
                        i <= rows.len(),
                        names@.len() == i,
                        args@.len() == 3,
                        args@[0].column() == Some(*geoms),
                        tag_text(args@[1]) is Some,
                        is_binary(geoms.data_type),
                        geoms.data == ColumnData::Binary(*rows),
                        forall|j: int|
                            0 <= j < i && rows@[j] is Some ==> has_wkb_type(
                                (#[trigger] rows@[j])->0@,
                            ),
                        forall|j: int|
                            0 <= j < i ==> #[trigger] crate::wkt::array::text_rows(names@)[j]
                                == wkb_type_rows(rows@)[j],
                    decreases rows.len() - i,
                {
                    let ghost before = names@;
                    let name = match &rows[i] {
                        Some(bytes) => wkb_geom_to_type(Some(bytes.as_slice())),
                        None => wkb_geom_to_type(None),
                    };
                    match name {
                        Ok(name) => {
                            names.push(name);
                        },
                        Err(e) => {
                            return Err(e);
                        },
                    }
                    assert forall|j: int| 0 <= j < i + 1 implies #[trigger] crate::wkt::array::text_rows(
                        names@,
                    )[j] == wkb_type_rows(rows@)[j] by {
                        if j < i {
                            assert(crate::wkt::array::text_rows(before)[j] == wkb_type_rows(rows@)[j]);
                            assert(names@[j] == before[j]);
                        }
                    }
                    i += 1;
                }
                assert(crate::wkt::array::text_rows(names@) =~= wkb_type_rows(rows@));
                Ok(
                    ColumnarValue::Array(
                        Column { data_type: DataType::Utf8, data: ColumnData::Utf8(names) },
                    ),
                )
            },
            _ => {
                let mut geometry_type = String::from_str("ST_");
                let stem = remove_spaces(geomtype);
                geometry_type.append(stem.as_str());
                let mask = geoms.data.validity_mask();
                let nulls = match &mask {
                    Some(mask) => has_false(mask),
                    None => false,
                };
                if nulls {
                    let mask = mask.unwrap();
                    assert(geoms.data.validity() == Some(mask@));
                    assert(geoms.data.has_nulls());
                    let mut names: Vec<Option<String>> = Vec::new();
                    let mut i: usize = 0;
                    while i < mask.len()
                        invariant
                            i <= mask.len(),
                            names@.len() == i,
                            forall|j: int|
                                0 <= j < i ==> #[trigger] crate::wkt::array::text_rows(names@)[j]
                                    == broadcast_rows(mask@, geometry_type@)[j],
                        decreases mask.len() - i,
                    {
                        let ghost before = names@;
                        if mask[i] {
                            names.push(Some(geometry_type.clone()));
                        } else {
                            names.push(None);
                        }
                        assert forall|j: int| 0 <= j < i + 1 implies #[trigger] crate::wkt::array::text_rows(
                            names@,
                        )[j] == broadcast_rows(mask@, geometry_type@)[j] by {
                            if j < i {
                                assert(crate::wkt::array::text_rows(before)[j] == broadcast_rows(
                                    mask@,
                                    geometry_type@,
                                )[j]);
                                assert(names@[j] == before[j]);
                            }
                        }
                        i += 1;
                    }
                    assert(crate::wkt::array::text_rows(names@) =~= broadcast_rows(
                        mask@,
                        geometry_type@,
                    ));
                    Ok(
                        ColumnarValue::Array(
                            Column { data_type: DataType::Utf8, data: ColumnData::Utf8(names) },
                        ),
                    )
                } else {
                    Ok(ColumnarValue::Scalar(ScalarValue::Utf8(Some(geometry_type))))
                }
            },
        }
    }
}

/// Whether a mask has an entry that is not set.
fn has_false(mask: &Vec<bool>) -> (r: bool)
    ensures
        r == crate::datatypes::has_unset(mask@),
{
    let mut i: usize = 0;
    while i < mask.len()
        invariant
            i <= mask.len(),
            forall|j: int| 0 <= j < i ==> mask@[j],
        decreases mask.len() - i,
    {
        if !mask[i] {
            return true;
        }
        i += 1;
    }
    false
}

/// The names of the types of serialized geometries have a row for each
/// geometry, and a null exactly where the geometry is null.
pub proof fn lemma_type_names_keep_rows(names: Seq<Option<String>>, rows: Seq<Option<Vec<u8>>>)
    requires
        crate::wkt::array::text_rows(names) == wkb_type_rows(rows),
    ensures
        names.len() == rows.len(),
        forall|i: int| 0 <= i < rows.len() ==> (#[trigger] names[i] is None) == (rows[i] is None),
{
    assert(crate::wkt::array::text_rows(names).len() == names.len());
    assert(wkb_type_rows(rows).len() == rows.len());
    assert forall|i: int| 0 <= i < rows.len() implies (#[trigger] names[i] is None) == (
    rows[i] is None) by {
        assert(crate::wkt::array::text_rows(names)[i] == wkb_type_rows(rows)[i]);
    }
}

/// The names given row by row to a column with null rows have a row for
/// each row of the column, and a null exactly where the column has one.
pub proof fn lemma_broadcast_keeps_rows(names: Seq<Option<String>>, mask: Seq<bool>, name: Seq<char>)
    requires
        crate::wkt::array::text_rows(names) == broadcast_rows(mask, name),
    ensures
        names.len() == mask.len(),
        forall|i: int| 0 <= i < mask.len() ==> (#[trigger] names[i] is Some) == mask[i],
        forall|i: int| 0 <= i < mask.len() && mask[i] ==> (#[trigger] names[i])->0@ == name,
{
    assert(crate::wkt::array::text_rows(names).len() == names.len());
    assert(broadcast_rows(mask, name).len() == mask.len());
    assert forall|i: int| 0 <= i < mask.len() implies (#[trigger] names[i] is Some) == mask[i] && (
    mask[i] ==> names[i]->0@ == name) by {
        assert(crate::wkt::array::text_rows(names)[i] == broadcast_rows(mask, name)[i]);
    }
}

} // verus!
