//! `ST_Envelope`: the bounding rectangle of each geometry of a column, as a
//! polygon.

use vstd::prelude::*;
use crate::array::{
    is_slice_of, mask_is_valid, row_is_valid, CoordBuffer, LineStringArray, MultiLineStringArray,
    MultiPointArray, MultiPolygonArray, NativeArray, PointArray, PolygonArray,
};
use crate::compute::{extent_of, extent_of_axes, lemma_extent_contains, min_max_2d};
use crate::ordinate::{is_nan, le};
use crate::datatypes::{Column, ColumnData, ColumnarValue, CoordType, DataType, Dimension, NativeType, Signature};
use crate::error::{Error, ErrorKind};
use crate::udfs::helpers::{
    array_matches, check_array_matches, check_coord_rows, coord_rows_wf, coord_type,
    covered_geom_type, covered_type_of, native_type, native_type_of, spec_coord_type,
};
use crate::ordinate::ordinate_is_nan;

verus! {

/// The coordinates of the point in row `index`: one coordinate, none for the
/// empty point, and `None` for a null row.
pub fn point_coord_buffer(array: &PointArray, index: usize) -> (r: Option<CoordBuffer>)
    requires
        array.wf(),
        index < array.spec_len(),
    ensures
        r is Some == row_is_valid(array.validity, index as int),
        r is Some ==> is_slice_of(
            r->0,
            array.coords,
            array.row_range(index as int).0,
            array.row_range(index as int).1,
        ),
{
    if mask_is_valid(&array.validity, index) {
        if ordinate_is_nan(array.coords.get_x(index)) && ordinate_is_nan(
            array.coords.get_y(index),
        ) {
            Some(array.coords.slice(index, 0))
        } else {
            Some(array.coords.slice(index, 1))
        }
    } else {
        None
    }
}

/// The coordinates of the line string in row `index`; `None` for a null row.
pub fn line_string_coord_buffer(array: &LineStringArray, index: usize) -> (r: Option<CoordBuffer>)
    requires
        array.wf(),
        index < array.spec_len(),
    ensures
        r is Some == row_is_valid(array.validity, index as int),
        r is Some ==> is_slice_of(
            r->0,
            array.coords,
            array.row_range(index as int).0,
            array.row_range(index as int).1,
        ),
{
    if mask_is_valid(&array.validity, index) {
        assert(index + 1 < array.geom_offsets.len());
        let start = array.geom_offsets[index];
        let end = array.geom_offsets[index + 1];
        Some(array.coords.slice(start, end - start))
    } else {
        None
    }
}

/// The coordinates of the polygon in row `index`, over all of its rings;
/// `None` for a null row.
pub fn polygon_coord_buffer(array: &PolygonArray, index: usize) -> (r: Option<CoordBuffer>)
    requires
        array.wf(),
        index < array.spec_len(),
    ensures
        r is Some == row_is_valid(array.validity, index as int),
        r is Some ==> is_slice_of(
            r->0,
            array.coords,
            array.row_range(index as int).0,
            array.row_range(index as int).1,
        ),
{
    if mask_is_valid(&array.validity, index) {
        assert(index + 1 < array.geom_offsets.len());
        let start = array.geom_offsets[index];
        let end = array.geom_offsets[index + 1];
        let first = array.ring_offsets[start];
        let last = array.ring_offsets[end];
        Some(array.coords.slice(first, last - first))
    } else {
        None
    }
}

/// The coordinates of the multi-point in row `index`; `None` for a null row.
pub fn multi_point_coord_buffer(array: &MultiPointArray, index: usize) -> (r: Option<CoordBuffer>)
    requires
        array.wf(),
        index < array.spec_len(),
    ensures
        r is Some == row_is_valid(array.validity, index as int),
        r is Some ==> is_slice_of(
            r->0,
            array.coords,
            array.row_range(index as int).0,
            array.row_range(index as int).1,
        ),
{
    if mask_is_valid(&array.validity, index) {
        assert(index + 1 < array.geom_offsets.len());
        let start = array.geom_offsets[index];
        let end = array.geom_offsets[index + 1];
        Some(array.coords.slice(start, end - start))
    } else {
        None
    }
}

/// The coordinates of the multi-line-string in row `index`, over all of its
/// lines; `None` for a null row.
pub fn multi_line_string_coord_buffer(array: &MultiLineStringArray, index: usize) -> (r: Option<
    CoordBuffer,
>)
    requires
        array.wf(),
        index < array.spec_len(),
    ensures
        r is Some == row_is_valid(array.validity, index as int),
        r is Some ==> is_slice_of(
            r->0,
            array.coords,
            array.row_range(index as int).0,
            array.row_range(index as int).1,
        ),
{
    if mask_is_valid(&array.validity, index) {
        assert(index + 1 < array.geom_offsets.len());
        let start = array.geom_offsets[index];
        let end = array.geom_offsets[index + 1];
        let first = array.ring_offsets[start];
        let last = array.ring_offsets[end];
        Some(array.coords.slice(first, last - first))
    } else {
        None
    }
}

/// The coordinates of the multi-polygon in row `index`, over all rings of
/// all of its polygons; `None` for a null row.
pub fn multi_polygon_coord_buffer(array: &MultiPolygonArray, index: usize) -> (r: Option<
    CoordBuffer,
>)
    requires
        array.wf(),
        index < array.spec_len(),
    ensures
        r is Some == row_is_valid(array.validity, index as int),
        r is Some ==> is_slice_of(
            r->0,
            array.coords,
            array.row_range(index as int).0,
            array.row_range(index as int).1,
        ),
{
    if mask_is_valid(&array.validity, index) {
        assert(index + 1 < array.geom_offsets.len());
        let start = array.geom_offsets[index];
        let end = array.geom_offsets[index + 1];
        let first_polygon = array.polygon_offsets[start];
        let last_polygon = array.polygon_offsets[end];
        let first = array.ring_offsets[first_polygon];
        let last = array.ring_offsets[last_polygon];
        Some(array.coords.slice(first, last - first))
    } else {
        None
    }
}

/// The first ordinates of the ring around an extent: a closed ring of five
/// coordinates, counter-clockwise from (xmin, ymin).
pub open spec fn ring_xs(e: ((u64, u64), (u64, u64))) -> Seq<u64> {
    seq![e.0.0, e.1.0, e.1.0, e.0.0, e.0.0]
}

/// The second ordinates of the ring around an extent.
pub open spec fn ring_ys(e: ((u64, u64), (u64, u64))) -> Seq<u64> {
    seq![e.0.1, e.0.1, e.1.1, e.1.1, e.0.1]
}

/// Whether `ring` is the ring around `e`, in the separated layout with two
/// axes.
pub open spec fn is_ring_of(ring: CoordBuffer, e: ((u64, u64), (u64, u64))) -> bool {
    match ring {
        CoordBuffer::Separated { buffers } => buffers@.len() == 2 && buffers@[0]@ == ring_xs(e)
            && buffers@[1]@ == ring_ys(e),
        _ => false,
    }
}

/// The envelope of the coordinates of one geometry: the ring around their
/// extent, or `None` where there is no coordinate.
pub fn envelope(coords: &CoordBuffer) -> (r: Option<CoordBuffer>)
    requires
        coords.wf(),
    ensures
        r is Some == (coords.spec_len() > 0),
        r is Some ==> is_ring_of(r->0, extent_of(*coords, false)),
{
    if coords.is_empty() {
        return None;
    }
    let ((xmin, ymin), (xmax, ymax)) = min_max_2d(coords, false);
    let xs: Vec<u64> = vec![xmin, xmax, xmax, xmin, xmin];
    let ys: Vec<u64> = vec![ymin, ymin, ymax, ymax, ymin];
    assert(xs@ =~= ring_xs(extent_of(*coords, false)));
    assert(ys@ =~= ring_ys(extent_of(*coords, false)));
    let buffers: Vec<Vec<u64>> = vec![xs, ys];
    Some(CoordBuffer::Separated { buffers })
}

/// The extent whose ring is the envelope of row `i`: that of the row's
/// coordinates. `None` for a null row and for a row without coordinates.
pub open spec fn envelope_row(array: NativeArray, i: int) -> Option<((u64, u64), (u64, u64))> {
    let (start, end) = array.row_range(i);
    if !row_is_valid(array.validity(), i) || start == end {
        None
    } else {
        Some(
            extent_of_axes(
                array.coords().xs().subrange(start, end),
                array.coords().ys().subrange(start, end),
                array.coords().is_interleaved(),
                false,
            ),
        )
    }
}

/// The ring of row `i` of a column of polygons, axis by axis: the
/// coordinates of all of its rings. `None` for a null row.
pub open spec fn polygon_row(array: PolygonArray, i: int) -> Option<(Seq<u64>, Seq<u64>)> {
    if !row_is_valid(array.validity, i) {
        None
    } else {
        Some(
            (
                array.coords.xs().subrange(array.row_range(i).0, array.row_range(i).1),
                array.coords.ys().subrange(array.row_range(i).0, array.row_range(i).1),
            ),
        )
    }
}

/// What a column of envelopes holds in row `i` for the extent `e`.
pub open spec fn envelope_polygon(e: Option<((u64, u64), (u64, u64))>) -> Option<
    (Seq<u64>, Seq<u64>),
> {
    match e {
        Some(e) => Some((ring_xs(e), ring_ys(e))),
        None => None,
    }
}

impl NativeArray {
    /// The coordinates of row `index`; `None` for a null row.
    pub fn coord_buffer(&self, index: usize) -> (r: Option<CoordBuffer>)
        requires
            self.wf(),
            self.is_covered(),
            index < self.spec_len(),
        ensures
            r is Some == row_is_valid(self.validity(), index as int),
            r is Some ==> is_slice_of(
                r->0,
                self.coords(),
                self.row_range(index as int).0,
                self.row_range(index as int).1,
            ),
    {
        match self {
            NativeArray::Point(a) => point_coord_buffer(a, index),
            NativeArray::LineString(a) => line_string_coord_buffer(a, index),
            NativeArray::Polygon(a) => polygon_coord_buffer(a, index),
            NativeArray::MultiPoint(a) => multi_point_coord_buffer(a, index),
            NativeArray::MultiLineString(a) => multi_line_string_coord_buffer(a, index),
            NativeArray::MultiPolygon(a) => multi_polygon_coord_buffer(a, index),
            _ => None,
        }
    }
}

/// The column of polygons that holds the rings around `extents`, row for
/// row: in the separated layout with two axes, with one ring of five
/// coordinates in every row that has an extent, and null elsewhere.
pub open spec fn is_envelope_column(
    out: PolygonArray,
    extents: Seq<Option<((u64, u64), (u64, u64))>>,
) -> bool {
    &&& out.wf()
    &&& out.spec_len() == extents.len()
    &&& !out.coords.is_interleaved()
    &&& out.coords.spec_dim() == 2
    &&& out.validity is Some
    &&& forall|i: int|
        0 <= i < extents.len() ==> #[trigger] polygon_row(out, i) == envelope_polygon(extents[i])
    &&& forall|i: int|
        0 <= i < extents.len() ==> #[trigger] out.geom_offsets@[i + 1] == out.geom_offsets@[i] + (
        if extents[i] is Some {
            1int
        } else {
            0int
        })
}

/// The extents whose rings the envelopes of a column are, row for row.
pub open spec fn envelope_rows(array: NativeArray) -> Seq<Option<((u64, u64), (u64, u64))>> {
    Seq::new(array.spec_len(), |i: int| envelope_row(array, i))
}

/// The extent whose ring is the envelope of coordinates given row by row:
/// `None` for a null row and for a row without coordinates.
pub open spec fn envelope_of_coords(row: Option<CoordBuffer>) -> Option<((u64, u64), (u64, u64))> {
    match row {
        Some(coords) => if coords.spec_len() > 0 {
            Some(extent_of(coords, false))
        } else {
            None
        },
        None => None,
    }
}

/// The column of polygons that holds the given rings, row for row.
fn polygons_around(
    rings: &Vec<Option<CoordBuffer>>,
    Ghost(extents): Ghost<Seq<Option<((u64, u64), (u64, u64))>>>,
) -> (out: PolygonArray)
    requires
        rings@.len() == extents.len(),
        forall|i: int|
            0 <= i < rings@.len() ==> (#[trigger] rings@[i] is Some) == (extents[i] is Some),
        forall|i: int|
            0 <= i < rings@.len() && rings@[i] is Some ==> is_ring_of(
                (#[trigger] rings@[i])->0,
                extents[i]->0,
            ),
    ensures
        is_envelope_column(out, extents),
{
    let n = rings.len();
    let mut xs: Vec<u64> = Vec::new();
    let mut ys: Vec<u64> = Vec::new();
    let mut ring_offsets: Vec<usize> = vec![0];
    let mut geom_offsets: Vec<usize> = vec![0];
    let mut validity: Vec<bool> = Vec::new();
    let mut index: usize = 0;
    while index < n
        invariant
            index <= n,
            n == rings@.len(),
            rings@.len() == extents.len(),
            forall|i: int|
                0 <= i < rings@.len() ==> (#[trigger] rings@[i] is Some) == (extents[i] is Some),
            forall|i: int|
                0 <= i < rings@.len() && rings@[i] is Some ==> is_ring_of(
                    (#[trigger] rings@[i])->0,
                    extents[i]->0,
                ),
            xs@.len() == ys@.len(),
            ring_offsets@.len() >= 1,
            xs@.len() == 5 * (ring_offsets@.len() - 1),
            forall|k: int| 0 <= k < ring_offsets@.len() ==> #[trigger] ring_offsets@[k] == 5 * k,
            geom_offsets@.len() == index + 1,
            validity@.len() == index,
            geom_offsets@[0] == 0,
            geom_offsets@[index as int] == ring_offsets@.len() - 1,
            forall|j: int|
                0 <= j < index ==> #[trigger] geom_offsets@[j + 1] == geom_offsets@[j] + (
                if extents[j] is Some {
                    1int
                } else {
                    0int
                }),
            forall|j: int| 0 <= j < index ==> #[trigger] validity@[j] == (extents[j] is Some),
            forall|j: int|
                0 <= j < index && extents[j] is Some ==> xs@.subrange(
                    5 * (#[trigger] geom_offsets@[j]),
                    5 * geom_offsets@[j] + 5,
                ) == ring_xs(extents[j]->0) && ys@.subrange(
                    5 * geom_offsets@[j],
                    5 * geom_offsets@[j] + 5,
                ) == ring_ys(extents[j]->0),
            forall|a: int, b: int| 0 <= a <= b <= index ==> geom_offsets@[a] <= geom_offsets@[b],
        decreases n - index,
    {
        let ghost old_xs = xs@;
        let ghost old_ys = ys@;
        let ghost old_geom = geom_offsets@;
        match &rings[index] {
            Some(CoordBuffer::Separated { buffers }) => {
                let ghost e = extents[index as int]->0;
                assert(is_ring_of(rings@[index as int]->0, e));
                let mut k: usize = 0;
                while k < 5
                    invariant
                        k <= 5,
                        buffers@.len() == 2,
                        buffers@[0]@ == ring_xs(e),
                        buffers@[1]@ == ring_ys(e),
                        xs@ == old_xs + ring_xs(e).subrange(0, k as int),
                        ys@ == old_ys + ring_ys(e).subrange(0, k as int),
                    decreases 5 - k,
                {
                    xs.push(buffers[0][k]);
                    ys.push(buffers[1][k]);
                    k += 1;
                    assert(xs@ =~= old_xs + ring_xs(e).subrange(0, k as int));
                    assert(ys@ =~= old_ys + ring_ys(e).subrange(0, k as int));
                }
                assert(ring_xs(e).subrange(0, 5) =~= ring_xs(e));
                assert(ring_ys(e).subrange(0, 5) =~= ring_ys(e));
                ring_offsets.push(xs.len());
                geom_offsets.push(ring_offsets.len() - 1);
                validity.push(true);
                proof {
                    let g = old_geom[index as int];
                    assert(xs@.subrange(5 * g, 5 * g + 5) =~= ring_xs(e));
                    assert(ys@.subrange(5 * g, 5 * g + 5) =~= ring_ys(e));
                    assert forall|j: int| 0 <= j < index && extents[j] is Some implies xs@.subrange(
                        5 * (#[trigger] geom_offsets@[j]),
                        5 * geom_offsets@[j] + 5,
                    ) == ring_xs(extents[j]->0) && ys@.subrange(
                        5 * geom_offsets@[j],
                        5 * geom_offsets@[j] + 5,
                    ) == ring_ys(extents[j]->0) by {
                        assert(old_geom[j + 1] == old_geom[j] + 1);
                        assert(old_geom[j + 1] <= g);
                        assert(xs@.subrange(5 * geom_offsets@[j], 5 * geom_offsets@[j] + 5)
                            =~= old_xs.subrange(5 * old_geom[j], 5 * old_geom[j] + 5));
                        assert(ys@.subrange(5 * geom_offsets@[j], 5 * geom_offsets@[j] + 5)
                            =~= old_ys.subrange(5 * old_geom[j], 5 * old_geom[j] + 5));
                    }
                }
            },
            _ => {
                assert(rings@[index as int] is Some ==> is_ring_of(
                    rings@[index as int]->0,
                    extents[index as int]->0,
                ));
                assert(extents[index as int] is None);
                geom_offsets.push(ring_offsets.len() - 1);
                validity.push(false);
            },
        }
        index += 1;
    }
    let buffers: Vec<Vec<u64>> = vec![xs, ys];
    let out = PolygonArray {
        coords: CoordBuffer::Separated { buffers },
        geom_offsets,
        ring_offsets,
        validity: Some(validity),
    };
    proof {
        assert(out.coords.xs() =~= xs@);
        assert(out.coords.ys() =~= ys@);
        assert(out.coords.wf());
        assert(crate::array::offsets_wf(out.ring_offsets@, out.coords.spec_len()));
        assert(crate::array::offsets_wf(out.geom_offsets@, (out.ring_offsets@.len() - 1) as nat));
        assert(out.wf());
        assert forall|i: int| 0 <= i < extents.len() implies #[trigger] polygon_row(out, i)
            == envelope_polygon(extents[i]) by {
            if extents[i] is Some {
                let g = out.geom_offsets@[i] as int;
                assert(out.geom_offsets@[i + 1] == g + 1);
                assert(out.geom_offsets@[i + 1] <= out.geom_offsets@[n as int]);
                assert(out.ring_offsets@[g] == 5 * g);
                assert(out.ring_offsets@[g + 1] == 5 * (g + 1));
                assert(out.validity->0@[i]);
            } else {
                assert(!out.validity->0@[i]);
            }
        }
    }
    out
}

impl NativeArray {
    /// The envelopes of the column, row for row: a column of polygons in the
    /// separated layout with two axes, with the ring around the extent of the
    /// geometry in each row, and null where the row is null or has no
    /// coordinate.
    ///
    /// A layout that is not covered (mixed geometries, geometry collections,
    /// rectangles) is reported as not implemented.
    pub fn envelope(&self) -> (r: Result<PolygonArray, Error>)
        requires
            self.wf(),
        ensures
            match r {
                Ok(out) => self.is_covered() && is_envelope_column(out, envelope_rows(*self)),
                Err(e) => !self.is_covered() && e.kind() == crate::error::ErrorKind::NotImplemented,
            },
    {
        match self {
            NativeArray::Mixed | NativeArray::GeometryCollection | NativeArray::Rect => {
                return Err(
                    Error::NotImplemented(
                        String::from_str("envelope of a geometry layout that is not covered"),
                    ),
                );
            },
            _ => {},
        }
        let n = self.len();
        let ghost extents = envelope_rows(*self);
        let mut rings: Vec<Option<CoordBuffer>> = Vec::new();
        let mut index: usize = 0;
        while index < n
            invariant
                index <= n,
                n == self.spec_len(),
                self.wf(),
                self.is_covered(),
                extents == envelope_rows(*self),
                rings@.len() == index,
                forall|i: int| 0 <= i < index ==> (#[trigger] rings@[i] is Some) == (extents[i] is Some),
                forall|i: int|
                    0 <= i < index && rings@[i] is Some ==> is_ring_of(
                        (#[trigger] rings@[i])->0,
                        extents[i]->0,
                    ),
            decreases n - index,
        {
            let ring = match self.coord_buffer(index) {
                Some(coords) => {
                    proof {
                        let (start, end) = self.row_range(index as int);
                        assert(coords.axis(0) == self.coords().axis(0).subrange(start, end));
                        assert(coords.axis(1) == self.coords().axis(1).subrange(start, end));
                    }
                    envelope(&coords)
                },
                None => None,
            };
            assert(ring is Some == (envelope_row(*self, index as int) is Some));
            rings.push(ring);
            index += 1;
        }
        Ok(polygons_around(&rings, Ghost(extents)))
    }
}

/// The envelopes of geometries whose coordinates are given row by row: the
/// ring around the extent of each row's coordinates, and null where the row
/// is null or has no coordinate.
pub fn envelopes_of(rows: &Vec<Option<CoordBuffer>>) -> (out: PolygonArray)
    requires
        forall|i: int| 0 <= i < rows@.len() && rows@[i] is Some ==> (#[trigger] rows@[i])->0.wf(),
    ensures
        is_envelope_column(out, Seq::new(rows@.len(), |i: int| envelope_of_coords(rows@[i]))),
{
    let ghost extents = Seq::new(rows@.len(), |i: int| envelope_of_coords(rows@[i]));
    let mut rings: Vec<Option<CoordBuffer>> = Vec::new();
    let mut index: usize = 0;
    while index < rows.len()
        invariant
            index <= rows.len(),
            forall|i: int| 0 <= i < rows@.len() && rows@[i] is Some ==> (#[trigger] rows@[i])->0.wf(),
            extents == Seq::new(rows@.len(), |i: int| envelope_of_coords(rows@[i])),
            rings@.len() == index,
            forall|i: int| 0 <= i < index ==> (#[trigger] rings@[i] is Some) == (extents[i] is Some),
            forall|i: int|
                0 <= i < index && rings@[i] is Some ==> is_ring_of(
                    (#[trigger] rings@[i])->0,
                    extents[i]->0,
                ),
        decreases rows.len() - index,
    {
        let ring = match &rows[index] {
            Some(coords) => {
                assert(rows@[index as int]->0.wf());
                envelope(coords)
            },
            None => None,
        };
        rings.push(ring);
        index += 1;
    }
    polygons_around(&rings, Ghost(extents))
}

/// The `ST_Envelope` function.
#[derive(Debug)]
pub struct Envelope {
    signature: Signature,
    aliases: Vec<String>,
}

/// Whether a data type is one that `ST_Envelope` takes: serialized
/// geometries, or a native layout.
pub open spec fn envelope_takes(data_type: DataType) -> bool {
    data_type is Binary || data_type is LargeBinary || spec_coord_type(data_type) is Some
}

/// The data type of a column of envelopes: lists of lists of structs.
pub open spec fn envelope_data_type() -> DataType {
    DataType::List(Box::new(DataType::List(Box::new(DataType::Struct))))
}

/// The extents whose rings `ST_Envelope` returns for the arguments `args`,
/// row for row, or the kind of the failure.
///
/// It is an internal error where the first argument is no column, where the
/// second names no geometry type, or where the column does not hold what its
/// data type and the geometry type say: valid coordinates row by row for
/// serialized geometries, and else a valid column in the native layout of
/// that geometry type. It is not implemented for mixed geometry types, for
/// geometry collections and for the layouts that are not covered.
pub open spec fn envelope_input(args: Seq<ColumnarValue>) -> Result<
    Seq<Option<((u64, u64), (u64, u64))>>,
    ErrorKind,
> {
    match args[0].column() {
        None => Err(ErrorKind::Internal),
        Some(column) => match covered_type_of(args[1]) {
            Err(kind) => Err(kind),
            Ok(geometry_type) => if column.data_type is Binary || column.data_type is LargeBinary {
                match column.data {
                    ColumnData::Coordinates(rows) => if coord_rows_wf(rows@) {
                        Ok(Seq::new(rows@.len(), |i: int| envelope_of_coords(rows@[i])))
                    } else {
                        Err(ErrorKind::Internal)
                    },
                    _ => Err(ErrorKind::Internal),
                }
            } else {
                match column.data {
                    ColumnData::Native(array) => if !array.is_covered() {
                        Err(ErrorKind::NotImplemented)
                    } else if array.wf() && array_matches(
                        array,
                        native_type_of(geometry_type, args[0].coord_type()),
                    ) {
                        Ok(envelope_rows(array))
                    } else {
                        Err(ErrorKind::Internal)
                    },
                    _ => Err(ErrorKind::Internal),
                }
            },
        },
    }
}

impl Envelope {
    /// The function, with its call shapes and its alias.
    pub fn new() -> (f: Envelope)
        ensures
            f.spec_signature().arities@ == seq![1usize, 3usize],
            f.spec_signature().immutable,
            f.spec_aliases()@.len() == 1,
            f.spec_aliases()@[0]@ == "st_envelope"@,
    {
        Envelope { signature: Signature::one_or_three(), aliases: vec![String::from_str("st_envelope")] }
    }

    pub closed spec fn spec_signature(&self) -> Signature {
        self.signature
    }

    pub closed spec fn spec_aliases(&self) -> Vec<String> {
        self.aliases
    }

    /// The name of the function.
    pub fn name(&self) -> (name: &'static str)
        ensures
            name@ == "ST_Envelope"@,
    {
        "ST_Envelope"
    }

    /// The call shapes of the function.
    pub fn signature(&self) -> (s: &Signature)
        ensures
            *s == self.spec_signature(),
    {
        &self.signature
    }

    /// The other names of the function.
    pub fn aliases(&self) -> (a: &Vec<String>)
        ensures
            *a == self.spec_aliases(),
    {
        &self.aliases
    }

    /// The layout of the result for arguments of the given types: polygons
    /// in the separated layout with two axes, whatever the layout of the
    /// first argument. An argument that is neither serialized geometries nor
    /// a native layout is an internal error.
    pub fn return_type(&self, arg_types: &[DataType]) -> (r: Result<NativeType, Error>)
        requires
            arg_types@.len() > 0,
        ensures
            match r {
                Ok(t) => envelope_takes(arg_types@[0]) && t == NativeType::Polygon(
                    CoordType::Separated,
                    Dimension::XY,
                ),
                Err(e) => !envelope_takes(arg_types@[0]) && e.kind() == ErrorKind::Internal,
            },
    {
        match &arg_types[0] {
            DataType::Binary | DataType::LargeBinary => Ok(
                NativeType::Polygon(CoordType::Separated, Dimension::XY),
            ),
            dt => match coord_type(dt) {
                Some(_coord_type) => Ok(NativeType::Polygon(CoordType::Separated, Dimension::XY)),
                None => Err(Error::Internal(String::from_str("Unsupported data type"))),
            },
        }
    }

    /// The envelopes of the geometries of the first argument, row for row: a
    /// column of polygons in the separated layout with two axes, with the
    /// ring around the extent of the geometry in each row, and null where
    /// the row is null or has no coordinate.
    ///
    /// The arguments are the geometry column, the geometry type and the
    /// encoding. See [`envelope_input`] for the failures.
    pub fn invoke(&self, args: &[ColumnarValue]) -> (r: Result<ColumnarValue, Error>)
        requires
            args@.len() == 3,
        ensures
            match r {
                Ok(ColumnarValue::Array(column)) => column.data_type == envelope_data_type()
                    && match (column.data, envelope_input(args@)) {
                    (ColumnData::Native(NativeArray::Polygon(out)), Ok(extents)) => is_envelope_column(
                        out,
                        extents,
                    ),
                    _ => false,
                },
                Ok(_) => false,
                Err(e) => envelope_input(args@) == Err::<
                    Seq<Option<((u64, u64), (u64, u64))>>,
                    ErrorKind,
                >(e.kind()),
            },
    {
        let geoms = match args[0].as_column() {
            Some(column) => column,
            None => {
                return Err(Error::Internal(String::from_str("Unsupported data type")));
            },
        };
        let geomtype = covered_geom_type(&args[1])?;
        let out = match geoms.data_type {
            DataType::Binary | DataType::LargeBinary => {
                match &geoms.data {
                    ColumnData::Coordinates(rows) => {
                        if !check_coord_rows(rows) {
                            return Err(Error::Internal(String::from_str("invalid coordinates")));
                        }
                        envelopes_of(rows)
                    },
                    _ => {
                        return Err(Error::Internal(String::from_str("Unsupported data type")));
                    },
                }
            },
            _ => {
                let native_type = native_type(&args[0], geomtype);
                match &geoms.data {
                    ColumnData::Native(array) => {
                        if array.is_well_formed() {
                            let envelopes = array.envelope()?;
                            if !check_array_matches(array, native_type) {
                                return Err(
                                    Error::Internal(String::from_str("Unsupported data type")),
                                );
                            }
                            envelopes
                        } else {
                            match array {
                                NativeArray::Mixed
                                | NativeArray::GeometryCollection
                                | NativeArray::Rect => {
                                    return Err(
                                        Error::NotImplemented(String::from_str("layout not covered")),
                                    );
                                },
                                _ => {
                                    return Err(
                                        Error::Internal(String::from_str("invalid geometry column")),
                                    );
                                },
                            }
                        }
                    },
                    _ => {
                        return Err(Error::Internal(String::from_str("Unsupported data type")));
                    },
                }
            },
        };
        Ok(
            ColumnarValue::Array(
                Column {
                    data_type: DataType::List(Box::new(DataType::List(Box::new(DataType::Struct)))),
                    data: ColumnData::Native(NativeArray::Polygon(out)),
                },
            ),
        )
    }
}

/// The coordinates of a row of a valid column lie inside the column's
/// buffer.
pub proof fn lemma_row_range_is_valid(array: NativeArray, i: int)
    requires
        array.wf(),
        array.is_covered(),
        0 <= i < array.spec_len(),
    ensures
        0 <= array.row_range(i).0 <= array.row_range(i).1 <= array.coords().spec_len(),
{
    match array {
        NativeArray::Point(a) => {},
        NativeArray::LineString(a) => {
            assert(a.geom_offsets@[i] <= a.geom_offsets@[i + 1]);
            assert(a.geom_offsets@[i + 1] <= a.geom_offsets@[a.geom_offsets@.len() - 1]);
        },
        NativeArray::MultiPoint(a) => {
            assert(a.geom_offsets@[i] <= a.geom_offsets@[i + 1]);
            assert(a.geom_offsets@[i + 1] <= a.geom_offsets@[a.geom_offsets@.len() - 1]);
        },
        NativeArray::Polygon(a) => {
            let g0 = a.geom_offsets@[i] as int;
            let g1 = a.geom_offsets@[i + 1] as int;
            assert(g0 <= g1);
            assert(g1 <= a.geom_offsets@[a.geom_offsets@.len() - 1]);
            assert(a.ring_offsets@[g0] <= a.ring_offsets@[g1]);
            assert(a.ring_offsets@[g1] <= a.ring_offsets@[a.ring_offsets@.len() - 1]);
        },
        NativeArray::MultiLineString(a) => {
            let g0 = a.geom_offsets@[i] as int;
            let g1 = a.geom_offsets@[i + 1] as int;
            assert(g0 <= g1);
            assert(g1 <= a.geom_offsets@[a.geom_offsets@.len() - 1]);
            assert(a.ring_offsets@[g0] <= a.ring_offsets@[g1]);
            assert(a.ring_offsets@[g1] <= a.ring_offsets@[a.ring_offsets@.len() - 1]);
        },
        NativeArray::MultiPolygon(a) => {
            let g0 = a.geom_offsets@[i] as int;
            let g1 = a.geom_offsets@[i + 1] as int;
            assert(g0 <= g1);
            assert(g1 <= a.geom_offsets@[a.geom_offsets@.len() - 1]);
            let first_polygon = a.polygon_offsets@[g0] as int;
            let last_polygon = a.polygon_offsets@[g1] as int;
            assert(first_polygon <= last_polygon);
            assert(last_polygon <= a.polygon_offsets@[a.polygon_offsets@.len() - 1]);
            assert(a.ring_offsets@[first_polygon] <= a.ring_offsets@[last_polygon]);
            assert(a.ring_offsets@[last_polygon] <= a.ring_offsets@[a.ring_offsets@.len() - 1]);
        },
        _ => {},
    }
}

/// The ring around an extent is closed and has five coordinates: it starts
/// at (xmin, ymin), goes through (xmax, ymin), (xmax, ymax) and (xmin, ymax),
/// and ends where it started.
pub proof fn lemma_ring_is_closed(e: ((u64, u64), (u64, u64)))
    ensures
        ring_xs(e).len() == 5,
        ring_ys(e).len() == 5,
        ring_xs(e)[0] == ring_xs(e)[4],
        ring_ys(e)[0] == ring_ys(e)[4],
        (ring_xs(e)[0], ring_ys(e)[0]) == e.0,
        (ring_xs(e)[1], ring_ys(e)[1]) == (e.1.0, e.0.1),
        (ring_xs(e)[2], ring_ys(e)[2]) == e.1,
        (ring_xs(e)[3], ring_ys(e)[3]) == (e.0.0, e.1.1),
{
}

/// The envelope of a row contains every coordinate of the row: on either of
/// the first two axes, an ordinate of the row that is a number lies between
/// the bounds of the envelope. In the separated layout this holds of an axis
/// on which all ordinates of the row are numbers.
pub proof fn lemma_envelope_contains(array: NativeArray, i: int, k: int, axis: int)
    requires
        array.wf(),
        array.is_covered(),
        0 <= i < array.spec_len(),
        row_is_valid(array.validity(), i),
        array.row_range(i).0 <= k < array.row_range(i).1,
        axis == 0 || axis == 1,
        !is_nan(array.coords().axis(axis)[k]),
        array.coords().is_interleaved() || forall|j: int|
            array.row_range(i).0 <= j < array.row_range(i).1 ==> !is_nan(
                array.coords().axis(axis)[j],
            ),
    ensures
        envelope_row(array, i) is Some,
        ({
            let e = envelope_row(array, i)->0;
            &&& axis == 0 ==> le(e.0.0, array.coords().xs()[k]) && le(array.coords().xs()[k], e.1.0)
            &&& axis == 1 ==> le(e.0.1, array.coords().ys()[k]) && le(array.coords().ys()[k], e.1.1)
        }),
{
    lemma_row_range_is_valid(array, i);
    let (start, end) = array.row_range(i);
    let s = array.coords().axis(axis).subrange(start, end);
    assert(s[k - start] == array.coords().axis(axis)[k]);
    assert(array.coords().is_interleaved() || forall|j: int| 0 <= j < s.len() ==> !is_nan(s[j])) by {
        if !array.coords().is_interleaved() {
            assert forall|j: int| 0 <= j < s.len() implies !is_nan(s[j]) by {
                assert(s[j] == array.coords().axis(axis)[start + j]);
            }
        }
    }
    lemma_extent_contains(s, array.coords().is_interleaved(), false, k - start);
}

/// A row without coordinates has no envelope, and neither has a null row.
pub proof fn lemma_empty_row_has_no_envelope(array: NativeArray, i: int)
    requires
        !row_is_valid(array.validity(), i) || array.row_range(i).0 == array.row_range(i).1,
    ensures
        envelope_row(array, i) is None,
{
}

/// A column of envelopes has a row for each row of the column it was made
/// from, and a null exactly where that column has a null or a geometry
/// without coordinates.
pub proof fn lemma_envelope_keeps_rows(out: PolygonArray, array: NativeArray)
    requires
        is_envelope_column(out, envelope_rows(array)),
    ensures
        out.spec_len() == array.spec_len(),
        forall|i: int|
            0 <= i < array.spec_len() ==> #[trigger] row_is_valid(out.validity, i) == (row_is_valid(
                array.validity(),
                i,
            ) && array.row_range(i).0 != array.row_range(i).1),
{
    assert forall|i: int| 0 <= i < array.spec_len() implies #[trigger] row_is_valid(
        out.validity,
        i,
    ) == (row_is_valid(array.validity(), i) && array.row_range(i).0 != array.row_range(i).1) by {
        assert(polygon_row(out, i) == envelope_polygon(envelope_rows(array)[i]));
    }
}

} // verus!
