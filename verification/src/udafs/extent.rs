//! `ST_Extent`: the bounding rectangle of all geometries of a column.

use vstd::prelude::*;
use crate::array::{is_slice_of, row_is_valid, CoordBuffer, NativeArray};
use crate::compute::{extent_of, extent_of_axes, min_max_2d};
use crate::datatypes::{
    ColumnData, ColumnarValue, DataType, Field, GeoParquetGeometryType, ScalarValue, Signature,
};
use crate::error::{Error, ErrorKind};
use crate::ordinate::{is_nan, max, min, ordinate_max, ordinate_min, INFINITY, NEG_INFINITY};
use crate::udfs::helpers::{
    array_matches, check_array_matches, check_coord_rows, coord_rows_wf, covered_type,
    covered_type_from, native_type, native_type_of,
};

verus! {

/// The `ST_Extent` function.
#[derive(Debug)]
pub struct Extent {
    signature: Signature,
    aliases: Vec<String>,
}

/// The running extent of an aggregation.
#[derive(Debug, Clone, Copy, PartialEq, Eq)]
pub struct ExtentAccumulator {
    pub xmin: u64,
    pub ymin: u64,
    pub xmax: u64,
    pub ymax: u64,
}

/// An extent as (xmin, ymin, xmax, ymax).
pub type Bounds = (u64, u64, u64, u64);

/// The extent of nothing: (+inf, +inf, -inf, -inf).
pub open spec fn identity() -> Bounds {
    (INFINITY, INFINITY, NEG_INFINITY, NEG_INFINITY)
}

/// Two extents merged: the smaller of the lower bounds and the larger of the
/// upper bounds.
pub open spec fn merge(a: Bounds, b: Bounds) -> Bounds {
    (min(a.0, b.0), min(a.1, b.1), max(a.2, b.2), max(a.3, b.3))
}

/// An extent with the extent of one more row merged in; a null row adds
/// nothing.
pub open spec fn accumulate(acc: Bounds, row: Option<((u64, u64), (u64, u64))>) -> Bounds {
    match row {
        Some(e) => merge(acc, (e.0.0, e.0.1, e.1.0, e.1.1)),
        None => acc,
    }
}

/// An extent with the extents of rows merged in, one after the other.
pub open spec fn fold_extents(acc: Bounds, rows: Seq<Option<((u64, u64), (u64, u64))>>) -> Bounds
    decreases rows.len(),
{
    if rows.len() == 0 {
        acc
    } else {
        accumulate(fold_extents(acc, rows.drop_last()), rows.last())
    }
}

/// A bound with the values of a state column merged in by `min`.
pub open spec fn min_over(acc: u64, values: Seq<u64>) -> u64
    decreases values.len(),
{
    if values.len() == 0 {
        acc
    } else {
        min(min_over(acc, values.drop_last()), values.last())
    }
}

/// A bound with the values of a state column merged in by `max`.
pub open spec fn max_over(acc: u64, values: Seq<u64>) -> u64
    decreases values.len(),
{
    if values.len() == 0 {
        acc
    } else {
        max(max_over(acc, values.drop_last()), values.last())
    }
}

/// Whether the geometry type is a point type, for which the extent passes
/// over the empty point.
pub open spec fn is_point_type(t: GeoParquetGeometryType) -> bool {
    t == GeoParquetGeometryType::Point || t == GeoParquetGeometryType::PointZ
}

/// The extent of row `i` of a column in a native layout: that of the row's
/// coordinates. `None` for a null row.
pub open spec fn extent_row(array: NativeArray, i: int, skip_empty_point: bool) -> Option<
    ((u64, u64), (u64, u64)),
> {
    let (start, end) = array.row_range(i);
    if !row_is_valid(array.validity(), i) {
        None
    } else {
        Some(
            extent_of_axes(
                array.coords().xs().subrange(start, end),
                array.coords().ys().subrange(start, end),
                array.coords().is_interleaved(),
                skip_empty_point,
            ),
        )
    }
}

/// The extents of the rows of a column in a native layout.
pub open spec fn extent_rows(array: NativeArray, skip_empty_point: bool) -> Seq<
    Option<((u64, u64), (u64, u64))>,
> {
    Seq::new(array.spec_len(), |i: int| extent_row(array, i, skip_empty_point))
}

/// The extents of geometries whose coordinates are given row by row.
pub open spec fn coords_extent_rows(rows: Seq<Option<CoordBuffer>>, skip_empty_point: bool) -> Seq<
    Option<((u64, u64), (u64, u64))>,
> {
    Seq::new(
        rows.len(),
        |i: int|
            match rows[i] {
                Some(coords) => Some(extent_of(coords, skip_empty_point)),
                None => None,
            },
    )
}

/// The geometry type tag of a batch: the text of a constant, or that of the
/// first row of a column of texts.
pub open spec fn batch_tag(arg: ColumnarValue) -> Option<Seq<char>> {
    match arg {
        ColumnarValue::Scalar(ScalarValue::Utf8(Some(s))) => Some(s@),
        ColumnarValue::Scalar(ScalarValue::Utf8View(Some(s))) => Some(s@),
        ColumnarValue::Array(column) => match column.data {
            ColumnData::Utf8(rows) => if rows@.len() > 0 {
                match rows@[0] {
                    Some(s) => Some(s@),
                    None => None,
                }
            } else {
                None
            },
            _ => None,
        },
        _ => None,
    }
}

/// The extents that a batch adds to the aggregate, row for row, or the kind
/// of the failure.
///
/// It is an internal error where the first argument is no column, where the
/// second gives no geometry type, or where the column does not hold what its
/// data type and the geometry type say: valid coordinates row by row for
/// serialized geometries, and else a valid column in the native layout of
/// that geometry type. It is not implemented for mixed geometry types, for
/// geometry collections and for the layouts that are not covered. The empty
/// point is passed over for the point types.
pub open spec fn batch_extents(values: Seq<ColumnarValue>) -> Result<
    Seq<Option<((u64, u64), (u64, u64))>>,
    ErrorKind,
> {
    match (values[0].column(), batch_tag(values[1])) {
        (Some(column), Some(tag)) => match covered_type(tag) {
            Err(kind) => Err(kind),
            Ok(geometry_type) => if column.data_type is Binary || column.data_type is LargeBinary {
                match column.data {
                    ColumnData::Coordinates(rows) => if coord_rows_wf(rows@) {
                        Ok(coords_extent_rows(rows@, is_point_type(geometry_type)))
                    } else {
                        Err(ErrorKind::Internal)
                    },
                    _ => Err(ErrorKind::Internal),
                }
            } else {
                match column.data {
                    ColumnData::Native(array) => if !array.is_covered() {
                        Err(ErrorKind::NotImplemented)
                    } else if array.wf() && array_matches(
                        array,
                        native_type_of(geometry_type, values[0].coord_type()),
                    ) {
                        Ok(extent_rows(array, is_point_type(geometry_type)))
                    } else {
                        Err(ErrorKind::Internal)
                    },
                    _ => Err(ErrorKind::Internal),
                }
            },
        },
        _ => Err(ErrorKind::Internal),
    }
}

fn tag_of_batch(arg: &ColumnarValue) -> (r: Option<&str>)
    ensures
        match r {
            Some(s) => batch_tag(*arg) == Some(s@),
            None => batch_tag(*arg) is None,
        },
{
    match arg {
        ColumnarValue::Scalar(ScalarValue::Utf8(Some(s))) => Some(s.as_str()),
        ColumnarValue::Scalar(ScalarValue::Utf8View(Some(s))) => Some(s.as_str()),
        ColumnarValue::Array(column) => match &column.data {
            ColumnData::Utf8(rows) => if rows.len() > 0 {
                match &rows[0] {
                    Some(s) => Some(s.as_str()),
                    None => None,
                }
            } else {
                None
            },
            _ => None,
        },
        _ => None,
    }
}

fn is_point(t: GeoParquetGeometryType) -> (r: bool)
    ensures
        r == is_point_type(t),
{
    match t {
        GeoParquetGeometryType::Point => true,
        GeoParquetGeometryType::PointZ => true,
        _ => false,
    }
}

impl ExtentAccumulator {
    /// The extent held, as (xmin, ymin, xmax, ymax).
    pub open spec fn bounds(&self) -> Bounds {
        (self.xmin, self.ymin, self.xmax, self.ymax)
    }

    /// An accumulator that holds the extent of nothing.
    pub fn new() -> (acc: ExtentAccumulator)
        ensures
            acc.bounds() == identity(),
    {
        ExtentAccumulator { xmin: INFINITY, ymin: INFINITY, xmax: NEG_INFINITY, ymax: NEG_INFINITY }
    }

    /// The partial state, for merging across partitions: xmin, xmax, ymin,
    /// ymax, in that order.
    pub fn state(&self) -> (state: Vec<u64>)
        ensures
            state@ == seq![self.xmin, self.xmax, self.ymin, self.ymax],
    {
        vec![self.xmin, self.xmax, self.ymin, self.ymax]
    }

    /// The extent held, as the values of the fields xmin, ymin, xmax, ymax,
    /// in that order.
    pub fn evaluate(&self) -> (value: Vec<u64>)
        ensures
            value@ == seq![self.xmin, self.ymin, self.xmax, self.ymax],
    {
        vec![self.xmin, self.ymin, self.xmax, self.ymax]
    }

    fn take_in(&mut self, e: ((u64, u64), (u64, u64)))
        ensures
            final(self).bounds() == accumulate(old(self).bounds(), Some(e)),
    {
        self.xmin = ordinate_min(self.xmin, e.0.0);
        self.ymin = ordinate_min(self.ymin, e.0.1);
        self.xmax = ordinate_max(self.xmax, e.1.0);
        self.ymax = ordinate_max(self.ymax, e.1.1);
    }

    /// Merges the extent of the geometries of a batch into the extent held.
    ///
    /// The arguments are the geometry column, the geometry type and the
    /// encoding. See [`batch_extents`] for the failures, which leave the
    /// accumulator as it was.
    pub fn update_batch(&mut self, values: &[ColumnarValue]) -> (r: Result<(), Error>)
        requires
            values@.len() == 3,
        ensures
            match r {
                Ok(_) => match batch_extents(values@) {
                    Ok(rows) => final(self).bounds() == fold_extents(old(self).bounds(), rows),
                    Err(_) => false,
                },
                Err(e) => batch_extents(values@) == Err::<
                    Seq<Option<((u64, u64), (u64, u64))>>,
                    ErrorKind,
                >(e.kind()) && *final(self) == *old(self),
            },
    {
        let column = match values[0].as_column() {
            Some(column) => column,
            None => {
                return Err(Error::Internal(String::from_str("Unsupported data type")));
            },
        };
        let tag = match tag_of_batch(&values[1]) {
            Some(tag) => tag,
            None => {
                return Err(Error::Internal(String::from_str("expected a geometry type")));
            },
        };
        let geomtype = covered_type_from(tag)?;
        let skip = is_point(geomtype);
        match column.data_type {
            DataType::Binary | DataType::LargeBinary => {
                let rows = match &column.data {
                    ColumnData::Coordinates(rows) => rows,
                    _ => {
                        return Err(Error::Internal(String::from_str("Unsupported data type")));
                    },
                };
                if !check_coord_rows(rows) {
                    return Err(Error::Internal(String::from_str("invalid coordinates")));
                }
                let ghost extents = coords_extent_rows(rows@, skip);
                let ghost start = self.bounds();
                let mut i: usize = 0;
                assert(extents.subrange(0, 0) =~= Seq::empty());
                while i < rows.len()
                    invariant
                        i <= rows.len(),
                        coord_rows_wf(rows@),
                        extents == coords_extent_rows(rows@, skip),
                        self.bounds() == fold_extents(start, extents.subrange(0, i as int)),
                    decreases rows.len() - i,
                {
                    assert(extents.subrange(0, i as int + 1).drop_last() =~= extents.subrange(
                        0,
                        i as int,
                    ));
                    match &rows[i] {
                        Some(coords) => {
                            assert(rows@[i as int]->0.wf());
                            let e = min_max_2d(coords, skip);
                            self.take_in(e);
                        },
                        None => {},
                    }
                    i += 1;
                }
                assert(extents.subrange(0, i as int) =~= extents);
                Ok(())
            },
            _ => {
                let native_type = native_type(&values[0], geomtype);
                let array = match &column.data {
                    ColumnData::Native(array) => array,
                    _ => {
                        return Err(Error::Internal(String::from_str("Unsupported data type")));
                    },
                };
                match array {
                    NativeArray::Mixed | NativeArray::GeometryCollection | NativeArray::Rect => {
                        return Err(Error::NotImplemented(String::from_str("layout not covered")));
                    },
                    _ => {},
                }
                if !array.is_well_formed() || !check_array_matches(array, native_type) {
                    return Err(Error::Internal(String::from_str("Unsupported data type")));
                }
                let n = array.len();
                let ghost extents = extent_rows(*array, skip);
                let ghost start = self.bounds();
                let mut i: usize = 0;
                assert(extents.subrange(0, 0) =~= Seq::empty());
                while i < n
                    invariant
                        i <= n,
                        n == array.spec_len(),
                        array.wf(),
                        array.is_covered(),
                        extents == extent_rows(*array, skip),
                        self.bounds() == fold_extents(start, extents.subrange(0, i as int)),
                    decreases n - i,
                {
                    assert(extents.subrange(0, i as int + 1).drop_last() =~= extents.subrange(
                        0,
                        i as int,
                    ));
                    match array.coord_buffer(i) {
                        Some(coords) => {
                            proof {
                                let (from, to) = array.row_range(i as int);
                                assert(coords.axis(0) == array.coords().axis(0).subrange(from, to));
                                assert(coords.axis(1) == array.coords().axis(1).subrange(from, to));
                            }
                            let e = min_max_2d(&coords, skip);
                            self.take_in(e);
                        },
                        None => {},
                    }
                    i += 1;
                }
                assert(extents.subrange(0, i as int) =~= extents);
                Ok(())
            },
        }
    }

    /// Merges partial states into the extent held: the first column into
    /// xmin and the third into ymin by the smaller value, the second into
    /// xmax and the fourth into ymax by the larger.
    pub fn merge_batch(&mut self, states: &[Vec<u64>]) -> (r: Result<(), Error>)
        requires
            states@.len() == 4,
        ensures
            r is Ok,
            final(self).xmin == min_over(old(self).xmin, states@[0]@),
            final(self).xmax == max_over(old(self).xmax, states@[1]@),
            final(self).ymin == min_over(old(self).ymin, states@[2]@),
            final(self).ymax == max_over(old(self).ymax, states@[3]@),
    {
        self.xmin = reduce_min(self.xmin, &states[0]);
        self.xmax = reduce_max(self.xmax, &states[1]);
        self.ymin = reduce_min(self.ymin, &states[2]);
        self.ymax = reduce_max(self.ymax, &states[3]);
        Ok(())
    }

    /// The number of bytes that the accumulator takes: four doubles.
    pub fn size(&self) -> (n: usize)
        ensures
            n == 32,
    {
        32
    }
}

fn reduce_min(acc: u64, values: &Vec<u64>) -> (r: u64)
    ensures
        r == min_over(acc, values@),
{
    let mut r = acc;
    let mut i: usize = 0;
    assert(values@.subrange(0, 0) =~= Seq::<u64>::empty());
    while i < values.len()
        invariant
            i <= values.len(),
            r == min_over(acc, values@.subrange(0, i as int)),
        decreases values.len() - i,
    {
        assert(values@.subrange(0, i as int + 1).drop_last() =~= values@.subrange(0, i as int));
        r = ordinate_min(r, values[i]);
        i += 1;
    }
    assert(values@.subrange(0, i as int) =~= values@);
    r
}

fn reduce_max(acc: u64, values: &Vec<u64>) -> (r: u64)
    ensures
        r == max_over(acc, values@),
{
    let mut r = acc;
    let mut i: usize = 0;
    assert(values@.subrange(0, 0) =~= Seq::<u64>::empty());
    while i < values.len()
        invariant
            i <= values.len(),
            r == max_over(acc, values@.subrange(0, i as int)),
        decreases values.len() - i,
    {
        assert(values@.subrange(0, i as int + 1).drop_last() =~= values@.subrange(0, i as int));
        r = ordinate_max(r, values[i]);
        i += 1;
    }
    assert(values@.subrange(0, i as int) =~= values@);
    r
}

fn double_field(name: &str) -> (f: Field)
    ensures
        f.name@ == name@,
        f.data_type == DataType::Float64,
        !f.nullable,
{
    Field { name: String::from_str(name), data_type: DataType::Float64, nullable: false }
}

impl Extent {
    /// The function, with its call shapes and its alias.
    pub fn new() -> (f: Extent)
        ensures
            f.spec_signature().arities@ == seq![1usize, 3usize],
            f.spec_signature().immutable,
            f.spec_aliases()@.len() == 1,
            f.spec_aliases()@[0]@ == "st_extent"@,
    {
        Extent { signature: Signature::one_or_three(), aliases: vec![String::from_str("st_extent")] }
    }

    pub closed spec fn spec_signature(&self) -> Signature {
        self.signature
    }

    pub closed spec fn spec_aliases(&self) -> Vec<String> {
        self.aliases
    }

    /// The name of the function.
    pub fn name(&self) -> (name: &'static str)
        ensures
            name@ == "ST_Extent"@,
    {
        "ST_Extent"
    }

    /// The call shapes of the function.
    pub fn signature(&self) -> (s: &Signature)
        ensures
            *s == self.spec_signature(),
    {
        &self.signature
    }

    /// The other names of the function.
    pub fn aliases(&self) -> (a: &Vec<String>)
        ensures
            *a == self.spec_aliases(),
    {
        &self.aliases
    }

    /// The fields of the struct that the function returns: xmin, ymin, xmax
    /// and ymax, each a double that is never null.
    pub fn return_type(&self, _arg_types: &[DataType]) -> (r: Result<Vec<Field>, Error>)
        ensures
            match r {
                Ok(fields) => fields@.len() == 4 && fields@[0].name@ == "xmin"@ && fields@[1].name@
                    == "ymin"@ && fields@[2].name@ == "xmax"@ && fields@[3].name@ == "ymax"@
                    && forall|i: int|
                    0 <= i < 4 ==> (#[trigger] fields@[i]).data_type == DataType::Float64
                        && !fields@[i].nullable,
                Err(_) => false,
            },
    {
        Ok(
            vec![
                double_field("xmin"),
                double_field("ymin"),
                double_field("xmax"),
                double_field("ymax"),
            ],
        )
    }

    /// A new accumulator, which holds the extent of nothing.
    pub fn accumulator(&self) -> (r: Result<ExtentAccumulator, Error>)
        ensures
            match r {
                Ok(acc) => acc.bounds() == identity(),
                Err(_) => false,
            },
    {
        Ok(ExtentAccumulator::new())
    }
}

/// Whether the four bounds of an extent are numbers.
pub open spec fn is_numeric(b: Bounds) -> bool {
    !is_nan(b.0) && !is_nan(b.1) && !is_nan(b.2) && !is_nan(b.3)
}

/// The extents of the parts of a partition, merged one after the other.
pub open spec fn merge_parts(parts: Seq<Seq<Option<((u64, u64), (u64, u64))>>>) -> Bounds
    decreases parts.len(),
{
    if parts.len() == 0 {
        identity()
    } else {
        merge(merge_parts(parts.drop_last()), fold_extents(identity(), parts.last()))
    }
}

/// The extent of nothing merged with itself is the extent of nothing.
pub proof fn lemma_identity_is_idempotent()
    ensures
        merge(identity(), identity()) == identity(),
{
}

/// The extent of nothing is neutral: merged into an extent whose bounds are
/// numbers, from either side, it leaves that extent as it is.
pub proof fn lemma_identity_is_neutral(b: Bounds)
    requires
        is_numeric(b),
    ensures
        merge(b, identity()) == b,
        merge(identity(), b) == b,
{
}

/// Merging rows into an extent whose bounds are numbers gives an extent
/// whose bounds are numbers.
pub proof fn lemma_fold_is_numeric(acc: Bounds, rows: Seq<Option<((u64, u64), (u64, u64))>>)
    requires
        is_numeric(acc),
    ensures
        is_numeric(fold_extents(acc, rows)),
    decreases rows.len(),
{
    if rows.len() > 0 {
        lemma_fold_is_numeric(acc, rows.drop_last());
    }
}

/// The extent of rows is the same whether they come as one batch or as two:
/// the extent of `a` followed by `b` is the extent of `a` merged with the
/// extent of `b`.
pub proof fn lemma_extent_of_two_parts(
    a: Seq<Option<((u64, u64), (u64, u64))>>,
    b: Seq<Option<((u64, u64), (u64, u64))>>,
)
    ensures
        fold_extents(identity(), a + b) == merge(
            fold_extents(identity(), a),
            fold_extents(identity(), b),
        ),
    decreases b.len(),
{
    lemma_fold_is_numeric(identity(), a);
    if b.len() == 0 {
        assert(a + b =~= a);
    } else {
        assert((a + b).drop_last() =~= a + b.drop_last());
        assert((a + b).last() == b.last());
        lemma_extent_of_two_parts(a, b.drop_last());
        lemma_fold_is_numeric(identity(), b.drop_last());
    }
}

/// The extent of a column is the same however its rows are split into
/// batches: the extent of all rows, taken in order, is the merged extent of
/// the parts.
pub proof fn lemma_extent_of_partition(parts: Seq<Seq<Option<((u64, u64), (u64, u64))>>>)
    ensures
        fold_extents(identity(), parts.flatten()) == merge_parts(parts),
    decreases parts.len(),
{
    parts.lemma_flatten_and_flatten_alt_are_equivalent();
    if parts.len() > 0 {
        parts.drop_last().lemma_flatten_and_flatten_alt_are_equivalent();
        lemma_extent_of_partition(parts.drop_last());
        lemma_extent_of_two_parts(parts.drop_last().flatten(), parts.last());
    }
}

/// Batches that update one accumulator in turn give the extent of all their
/// rows.
pub proof fn lemma_batches_in_turn(
    acc: Bounds,
    a: Seq<Option<((u64, u64), (u64, u64))>>,
    b: Seq<Option<((u64, u64), (u64, u64))>>,
)
    ensures
        fold_extents(fold_extents(acc, a), b) == fold_extents(acc, a + b),
    decreases b.len(),
{
    if b.len() == 0 {
        assert(a + b =~= a);
    } else {
        assert((a + b).drop_last() =~= a + b.drop_last());
        assert((a + b).last() == b.last());
        lemma_batches_in_turn(acc, a, b.drop_last());
    }
}

/// Merging the partial state of another accumulator, one value in each
/// state column, merges the two extents.
pub proof fn lemma_merge_of_one_state(acc: Bounds, other: Bounds)
    ensures
        (
            min_over(acc.0, seq![other.0]),
            min_over(acc.1, seq![other.1]),
            max_over(acc.2, seq![other.2]),
            max_over(acc.3, seq![other.3]),
        ) == merge(acc, other),
{
    reveal_with_fuel(min_over, 2);
    reveal_with_fuel(max_over, 2);
    assert(seq![other.0].drop_last() =~= Seq::<u64>::empty());
    assert(seq![other.1].drop_last() =~= Seq::<u64>::empty());
    assert(seq![other.2].drop_last() =~= Seq::<u64>::empty());
    assert(seq![other.3].drop_last() =~= Seq::<u64>::empty());
}

} // verus!
