//! `ST_AsText`: the well-known text of each geometry of a column.

use vstd::prelude::*;
use crate::datatypes::{Column, ColumnData, ColumnarValue, DataType, Signature};
use crate::error::{Error, ErrorKind};
use crate::udfs::helpers::{geom_type, geometry_type_of};
use crate::wkt::array::{check_rows, rows_wf, rows_writable, text_rows, wkt_rows, ToWKT};
use crate::wkt::geometry::Geometry;

verus! {

/// The `ST_AsText` function.
#[derive(Debug)]
pub struct AsText {
    signature: Signature,
    aliases: Vec<String>,
}

/// The type of the texts that `ST_AsText` returns for a column of the given
/// type: large texts for large binaries, texts for binaries and for the
/// native layouts, none for any other type.
pub open spec fn as_text_type(data_type: DataType) -> Option<DataType> {
    match data_type {
        DataType::Binary => Some(DataType::Utf8),
        DataType::LargeBinary => Some(DataType::LargeUtf8),
        DataType::List(_) => Some(DataType::Utf8),
        DataType::FixedSizeList(_, _) => Some(DataType::Utf8),
        DataType::Struct => Some(DataType::Utf8),
        _ => None,
    }
}

/// The geometries that `ST_AsText` reads from its arguments: those of a
/// geometry column of a supported type that holds valid geometries. For a
/// column in a native layout the second argument has to name a geometry
/// type; serialized geometries say themselves what they are.
pub open spec fn as_text_input(args: Seq<ColumnarValue>) -> Option<Seq<Option<Geometry>>> {
    match args[0].column() {
        Some(column) => match column.data {
            ColumnData::Geometries(rows) => if as_text_type(column.data_type) is Some && (
            column.data_type is Binary || column.data_type is LargeBinary || geometry_type_of(
                args[1],
            ) is Some) && rows_wf(rows@) {
                Some(rows@)
            } else {
                None
            },
            _ => None,
        },
        None => None,
    }
}

fn text_type(data_type: &DataType) -> (r: Option<DataType>)
    ensures
        r == as_text_type(*data_type),
{
    match data_type {
        DataType::Binary => Some(DataType::Utf8),
        DataType::LargeBinary => Some(DataType::LargeUtf8),
        DataType::List(_) => Some(DataType::Utf8),
        DataType::FixedSizeList(_, _) => Some(DataType::Utf8),
        DataType::Struct => Some(DataType::Utf8),
        _ => None,
    }
}

/// The failure of a call on a column that is no geometry column of a
/// supported type: an internal error that says so.
fn unsupported_type() -> (e: Error)
    ensures
        e.kind() == ErrorKind::Internal,
        e.message() == "Unsupported data type"@,
{
    Error::Internal(String::from_str("Unsupported data type"))
}

impl AsText {
    /// The function, with its call shapes and its alias.
    pub fn new() -> (f: AsText)
        ensures
            f.spec_signature().arities@ == seq![1usize, 3usize],
            f.spec_signature().immutable,
            f.spec_aliases()@.len() == 1,
            f.spec_aliases()@[0]@ == "st_astext"@,
    {
        AsText { signature: Signature::one_or_three(), aliases: vec![String::from_str("st_astext")] }
    }

    pub closed spec fn spec_signature(&self) -> Signature {
        self.signature
    }

    pub closed spec fn spec_aliases(&self) -> Vec<String> {
        self.aliases
    }

    /// The name of the function.
    pub fn name(&self) -> (name: &'static str)
        ensures
            name@ == "ST_AsText"@,
    {
        "ST_AsText"
    }

    /// The call shapes of the function.
    pub fn signature(&self) -> (s: &Signature)
        ensures
            *s == self.spec_signature(),
    {
        &self.signature
    }

    /// The other names of the function.
    pub fn aliases(&self) -> (a: &Vec<String>)
        ensures
            *a == self.spec_aliases(),
    {
        &self.aliases
    }

    /// The type of the result for arguments of the given types: that of
    /// [`as_text_type`] of the first. An argument of another type is an
    /// internal error.
    pub fn return_type(&self, arg_types: &[DataType]) -> (r: Result<DataType, Error>)
        requires
            arg_types@.len() > 0,
        ensures
            match r {
                Ok(t) => as_text_type(arg_types@[0]) == Some(t),
                Err(e) => as_text_type(arg_types@[0]) is None && e.kind() == ErrorKind::Internal,
            },
    {
        match text_type(&arg_types[0]) {
            Some(t) => Ok(t),
            None => Err(unsupported_type()),
        }
    }

    /// The texts of the geometries of the first argument, row for row, with
    /// a null for each null row.
    ///
    /// The arguments are the geometry column, the geometry type and the
    /// encoding. It is an internal error where the first is no column of
    /// valid geometries of a supported type, or is in a native layout while
    /// the second names no geometry type; it is not implemented where a
    /// geometry cannot be written.
    pub fn invoke(&self, args: &[ColumnarValue]) -> (r: Result<ColumnarValue, Error>)
        requires
            args@.len() == 3,
        ensures
            match r {
                Ok(out) => match (as_text_input(args@), out) {
                    (Some(rows), ColumnarValue::Array(column)) => rows_writable(rows) && Some(
                        column.data_type,
                    ) == as_text_type(args@[0].column()->0.data_type) && match column.data {
                        ColumnData::Utf8(texts) => text_rows(texts@) == wkt_rows(rows),
                        _ => false,
                    },
                    _ => false,
                },
                Err(e) => match as_text_input(args@) {
                    Some(rows) => !rows_writable(rows) && e.kind() == ErrorKind::NotImplemented,
                    None => e.kind() == ErrorKind::Internal,
                },
            },
    {
        let geoms = match args[0].as_column() {
            Some(column) => column,
            None => {
                return Err(unsupported_type());
            },
        };
        let text_type = match text_type(&geoms.data_type) {
            Some(t) => t,
            None => {
                return Err(unsupported_type());
            },
        };
        match geoms.data_type {
            DataType::Binary | DataType::LargeBinary => {},
            _ => {
                let _geomtype = geom_type(&args[1])?;
            },
        }
        match &geoms.data {
            ColumnData::Geometries(rows) => {
                if !check_rows(rows) {
                    return Err(Error::Internal(String::from_str("invalid geometry")));
                }
                let wkt = rows.to_wkt()?;
                Ok(ColumnarValue::Array(Column { data_type: text_type, data: ColumnData::Utf8(wkt) }))
            },
            _ => Err(unsupported_type()),
        }
    }
}

} // verus!
