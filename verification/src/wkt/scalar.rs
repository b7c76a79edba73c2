//! Writing one geometry as well-known text.
//!
//! Each writer appends to a text the keyword of the variant, then ` EMPTY`
//! for an empty geometry, or else the dimension infix and the coordinates:
//! ordinates separated by a space, coordinates and components by a comma,
//! every group in parentheses.

use vstd::prelude::*;
use crate::error::{Error, ErrorKind};
use crate::wkt::geometry::{
    coords_wf, geometries_wf, rings_wf, Coord, Dimensions, Geometry, GeometryCollection,
    LineString, MultiLineString, MultiPoint, MultiPolygon, Point, Polygon, Rect,
};

verus! {

/// The items one after the other, with `sep` between neighbours.
pub open spec fn joined(items: Seq<Seq<char>>, sep: Seq<char>) -> Seq<char>
    decreases items.len(),
{
    if items.len() == 0 {
        Seq::empty()
    } else if items.len() == 1 {
        items[0]
    } else {
        joined(items.drop_last(), sep) + sep + items.last()
    }
}

/// A text in parentheses.
pub open spec fn parenthesized(s: Seq<char>) -> Seq<char> {
    "("@ + s + ")"@
}

/// What stands between the keyword and the coordinates.
pub open spec fn dimension_text(dim: Dimensions) -> Seq<char> {
    match dim {
        Dimensions::Xy => " "@,
        Dimensions::Xyz => " Z "@,
    }
}

/// The first `n` ordinates of a coordinate.
pub open spec fn ordinate_texts(coord: Coord, n: nat) -> Seq<Seq<char>> {
    Seq::new(n, |i: int| coord.ordinates@[i]@)
}

/// A coordinate: its first `n` ordinates, separated by a space.
pub open spec fn coord_text(coord: Coord, n: nat) -> Seq<char> {
    joined(ordinate_texts(coord, n), " "@)
}

/// The texts of the coordinates of a list.
pub open spec fn coord_texts(coords: Seq<Coord>, n: nat) -> Seq<Seq<char>> {
    Seq::new(coords.len(), |i: int| coord_text(coords[i], n))
}

/// A list of coordinates: separated by a comma, in parentheses.
pub open spec fn coords_text(coords: Seq<Coord>, n: nat) -> Seq<char> {
    parenthesized(joined(coord_texts(coords, n), ","@))
}

/// The texts of the rings of a list.
pub open spec fn ring_texts(rings: Seq<Vec<Coord>>, n: nat) -> Seq<Seq<char>> {
    Seq::new(rings.len(), |i: int| coords_text(rings[i]@, n))
}

/// The rings of a polygon: separated by a comma, in parentheses.
pub open spec fn rings_text(rings: Seq<Vec<Coord>>, n: nat) -> Seq<char> {
    parenthesized(joined(ring_texts(rings, n), ","@))
}

/// The text of a point.
pub open spec fn point_text(point: Point) -> Seq<char> {
    "POINT"@ + (match point.coord {
        Some(c) => dimension_text(point.dim) + parenthesized(coord_text(c, point.dim.spec_size())),
        None => " EMPTY"@,
    })
}

/// The text of a line string.
pub open spec fn linestring_text(line: LineString) -> Seq<char> {
    "LINESTRING"@ + (if line.coords@.len() > 0 {
        dimension_text(line.dim) + coords_text(line.coords@, line.dim.spec_size())
    } else {
        " EMPTY"@
    })
}

/// The text of a polygon: empty where it has no exterior ring or an empty
/// one.
pub open spec fn polygon_text(polygon: Polygon) -> Seq<char> {
    "POLYGON"@ + (if !polygon.is_empty() {
        dimension_text(polygon.dim) + rings_text(polygon.rings@, polygon.dim.spec_size())
    } else {
        " EMPTY"@
    })
}

/// The texts of the points of a multi-point, each in parentheses.
pub open spec fn point_texts(points: Seq<Point>, n: nat) -> Seq<Seq<char>> {
    Seq::new(points.len(), |i: int| parenthesized(coord_text(points[i].coord->0, n)))
}

/// The text of a multi-point.
pub open spec fn multi_point_text(multi: MultiPoint) -> Seq<char> {
    "MULTIPOINT"@ + (if multi.points@.len() > 0 {
        dimension_text(multi.dim) + parenthesized(
            joined(point_texts(multi.points@, multi.dim.spec_size()), ","@),
        )
    } else {
        " EMPTY"@
    })
}

/// The texts of the lines of a multi-line-string.
pub open spec fn line_texts(lines: Seq<LineString>, n: nat) -> Seq<Seq<char>> {
    Seq::new(lines.len(), |i: int| coords_text(lines[i].coords@, n))
}

/// The text of a multi-line-string.
pub open spec fn multi_linestring_text(multi: MultiLineString) -> Seq<char> {
    "MULTILINESTRING"@ + (if multi.lines@.len() > 0 {
        dimension_text(multi.dim) + parenthesized(
            joined(line_texts(multi.lines@, multi.dim.spec_size()), ","@),
        )
    } else {
        " EMPTY"@
    })
}

/// The texts of the polygons of a multi-polygon.
pub open spec fn polygon_texts(polygons: Seq<Polygon>, n: nat) -> Seq<Seq<char>> {
    Seq::new(polygons.len(), |i: int| rings_text(polygons[i].rings@, n))
}

/// The text of a multi-polygon.
pub open spec fn multi_polygon_text(multi: MultiPolygon) -> Seq<char> {
    "MULTIPOLYGON"@ + (if multi.polygons@.len() > 0 {
        dimension_text(multi.dim) + parenthesized(
            joined(polygon_texts(multi.polygons@, multi.dim.spec_size()), ","@),
        )
    } else {
        " EMPTY"@
    })
}

/// A corner of a rectangle: two ordinates separated by a space.
pub open spec fn corner_text(x: Seq<char>, y: Seq<char>) -> Seq<char> {
    joined(seq![x, y], " "@)
}

/// A rectangle of two axes: the polygon keyword, then its corners as one
/// ring, from the lower corner counter-clockwise and back to it.
pub open spec fn rect_text(rect: Rect) -> Seq<char> {
    let xl = rect.min.ordinates@[0]@;
    let yl = rect.min.ordinates@[1]@;
    let xu = rect.max.ordinates@[0]@;
    let yu = rect.max.ordinates@[1]@;
    "POLYGON "@ + parenthesized(
        joined(
            seq![
                corner_text(xl, yl),
                corner_text(xu, yl),
                corner_text(xu, yu),
                corner_text(xl, yu),
                corner_text(xl, yl),
            ],
            ","@,
        ),
    )
}

/// The text of a geometry.
pub open spec fn geometry_text(geometry: Geometry) -> Seq<char>
    decreases geometry,
{
    match geometry {
        Geometry::Point(g) => point_text(g),
        Geometry::LineString(g) => linestring_text(g),
        Geometry::Polygon(g) => polygon_text(g),
        Geometry::MultiPoint(g) => multi_point_text(g),
        Geometry::MultiLineString(g) => multi_linestring_text(g),
        Geometry::MultiPolygon(g) => multi_polygon_text(g),
        Geometry::GeometryCollection(g) => "GEOMETRYCOLLECTION"@ + (if g.geometries@.len() > 0 {
            dimension_text(g.dim) + parenthesized(joined(geometry_texts(g.geometries), ","@))
        } else {
            " EMPTY"@
        }),
        Geometry::Rect(g) => rect_text(g),
    }
}

/// The texts of the geometries of a list.
pub open spec fn geometry_texts(geometries: Vec<Geometry>) -> Seq<Seq<char>>
    decreases geometries,
{
    Seq::new(
        geometries@.len(),
        |i: int|
            if 0 <= i < geometries.len() {
                geometry_text(geometries[i])
            } else {
                Seq::empty()
            },
    )
}

/// The text of a geometry collection.
pub open spec fn geometry_collection_text(gc: GeometryCollection) -> Seq<char> {
    geometry_text(Geometry::GeometryCollection(gc))
}

/// Whether a geometry can be written: it holds no rectangle of more than two
/// axes.
pub open spec fn is_writable(geometry: Geometry) -> bool
    decreases geometry,
{
    match geometry {
        Geometry::GeometryCollection(g) => all_writable(g.geometries),
        Geometry::Rect(g) => g.dim == Dimensions::Xy,
        _ => true,
    }
}

/// Whether every geometry of a list can be written.
pub open spec fn all_writable(geometries: Vec<Geometry>) -> bool
    decreases geometries,
{
    forall|i: int| 0 <= i < geometries.len() ==> is_writable(#[trigger] geometries[i])
}

/// The text of the first `i + 1` items is that of the first `i`, then the
/// separator where there is anything before it, then item `i`.
pub proof fn lemma_joined_next(items: Seq<Seq<char>>, sep: Seq<char>, i: int)
    requires
        0 <= i < items.len(),
    ensures
        joined(items.subrange(0, i + 1), sep) == (if i == 0 {
            items[0]
        } else {
            joined(items.subrange(0, i), sep) + sep + items[i]
        }),
{
    let next = items.subrange(0, i + 1);
    assert(next.drop_last() =~= items.subrange(0, i));
    assert(next.last() == items[i]);
}

fn add_dimension(writer: &mut String, dims: Dimensions) -> (n: usize)
    ensures
        final(writer)@ == old(writer)@ + dimension_text(dims),
        n == dims.spec_size(),
{
    match dims {
        Dimensions::Xy => {
            writer.append(" ");
            2
        },
        Dimensions::Xyz => {
            writer.append(" Z ");
            3
        },
    }
}

fn add_coord(writer: &mut String, coord: &Coord, n: usize)
    requires
        coord.wf(n as nat),
    ensures
        final(writer)@ == old(writer)@ + coord_text(*coord, n as nat),
{
    let ghost start = writer@;
    let ghost items = ordinate_texts(*coord, n as nat);
    let mut i: usize = 0;
    assert(items.subrange(0, 0) =~= Seq::<Seq<char>>::empty());
    assert(writer@ =~= start + joined(items.subrange(0, 0), " "@));
    while i < n
        invariant
            i <= n,
            coord.wf(n as nat),
            items == ordinate_texts(*coord, n as nat),
            writer@ == start + joined(items.subrange(0, i as int), " "@),
        decreases n - i,
    {
        proof {
            lemma_joined_next(items, " "@, i as int);
        }
        let ghost before = writer@;
        if i > 0 {
            writer.append(" ");
        }
        writer.append(coord.ordinates[i].as_str());
        assert(writer@ =~= start + joined(items.subrange(0, i as int + 1), " "@));
        i += 1;
    }
    assert(items.subrange(0, n as int) =~= items);
}

fn add_point(writer: &mut String, point: &Point, n: usize)
    requires
        point.coord is Some,
        point.coord->0.wf(n as nat),
    ensures
        final(writer)@ == old(writer)@ + parenthesized(coord_text(point.coord->0, n as nat)),
{
    let ghost start = writer@;
    writer.append("(");
    match &point.coord {
        Some(c) => add_coord(writer, c, n),
        None => {},
    }
    writer.append(")");
    assert(writer@ =~= start + parenthesized(coord_text(point.coord->0, n as nat)));
}

fn add_coords(writer: &mut String, coords: &Vec<Coord>, n: usize)
    requires
        coords@.len() > 0,
        coords_wf(coords@, n as nat),
    ensures
        final(writer)@ == old(writer)@ + coords_text(coords@, n as nat),
{
    let ghost start = writer@;
    let ghost items = coord_texts(coords@, n as nat);
    writer.append("(");
    let mut i: usize = 0;
    assert(items.subrange(0, 0) =~= Seq::<Seq<char>>::empty());
    assert(writer@ =~= start + "("@ + joined(items.subrange(0, 0), ","@));
    while i < coords.len()
        invariant
            i <= coords.len(),
            coords_wf(coords@, n as nat),
            items == coord_texts(coords@, n as nat),
            writer@ == start + "("@ + joined(items.subrange(0, i as int), ","@),
        decreases coords.len() - i,
    {
        proof {
            lemma_joined_next(items, ","@, i as int);
        }
        if i > 0 {
            writer.append(",");
        }
        add_coord(writer, &coords[i], n);
        assert(writer@ =~= start + "("@ + joined(items.subrange(0, i as int + 1), ","@));
        i += 1;
    }
    assert(items.subrange(0, coords.len() as int) =~= items);
    writer.append(")");
    assert(writer@ =~= start + coords_text(coords@, n as nat));
}

/// Appends the rings of a polygon: each as a list of coordinates, separated
/// by a comma, all in parentheses.
fn add_rings(writer: &mut String, rings: &Vec<Vec<Coord>>, n: usize)
    requires
        rings_wf(rings@, n as nat),
    ensures
        final(writer)@ == old(writer)@ + rings_text(rings@, n as nat),
{
    let ghost start = writer@;
    let ghost items = ring_texts(rings@, n as nat);
    writer.append("(");
    let mut i: usize = 0;
    assert(items.subrange(0, 0) =~= Seq::<Seq<char>>::empty());
    assert(writer@ =~= start + "("@ + joined(items.subrange(0, 0), ","@));
    while i < rings.len()
        invariant
            i <= rings.len(),
            rings_wf(rings@, n as nat),
            items == ring_texts(rings@, n as nat),
            writer@ == start + "("@ + joined(items.subrange(0, i as int), ","@),
        decreases rings.len() - i,
    {
        proof {
            lemma_joined_next(items, ","@, i as int);
        }
        if i > 0 {
            writer.append(",");
        }
        assert(rings@[i as int]@.len() > 0);
        add_coords(writer, &rings[i], n);
        assert(writer@ =~= start + "("@ + joined(items.subrange(0, i as int + 1), ","@));
        i += 1;
    }
    assert(items.subrange(0, rings.len() as int) =~= items);
    writer.append(")");
    assert(writer@ =~= start + rings_text(rings@, n as nat));
}

/// Appends the text of a point to `writer`.
pub fn point_to_wkt(point: &Point, writer: &mut String) -> (r: Result<(), Error>)
    requires
        point.wf(),
    ensures
        r is Ok,
        final(writer)@ == old(writer)@ + point_text(*point),
{
    let ghost start = writer@;
    writer.append("POINT");
    if point.coord.is_some() {
        let n = add_dimension(writer, point.dim);
        add_point(writer, point, n);
    } else {
        writer.append(" EMPTY");
    }
    assert(writer@ =~= start + point_text(*point));
    Ok(())
}

/// Appends the text of a line string to `writer`.
pub fn linestring_to_wkt(linestring: &LineString, writer: &mut String) -> (r: Result<(), Error>)
    requires
        linestring.wf(),
    ensures
        r is Ok,
        final(writer)@ == old(writer)@ + linestring_text(*linestring),
{
    let ghost start = writer@;
    writer.append("LINESTRING");
    if linestring.coords.len() > 0 {
        let n = add_dimension(writer, linestring.dim);
        add_coords(writer, &linestring.coords, n);
    } else {
        writer.append(" EMPTY");
    }
    assert(writer@ =~= start + linestring_text(*linestring));
    Ok(())
}

/// Appends the text of a polygon to `writer`.
pub fn polygon_to_wkt(polygon: &Polygon, writer: &mut String) -> (r: Result<(), Error>)
    requires
        polygon.wf(),
    ensures
        r is Ok,
        final(writer)@ == old(writer)@ + polygon_text(*polygon),
{
    let ghost start = writer@;
    writer.append("POLYGON");
    if polygon.rings.len() > 0 && polygon.rings[0].len() > 0 {
        let n = add_dimension(writer, polygon.dim);
        add_rings(writer, &polygon.rings, n);
    } else {
        writer.append(" EMPTY");
    }
    assert(writer@ =~= start + polygon_text(*polygon));
    Ok(())
}

/// Appends the text of a multi-point to `writer`.
pub fn multi_point_to_wkt(multi_point: &MultiPoint, writer: &mut String) -> (r: Result<(), Error>)
    requires
        multi_point.wf(),
    ensures
        r is Ok,
        final(writer)@ == old(writer)@ + multi_point_text(*multi_point),
{
    let ghost start = writer@;
    writer.append("MULTIPOINT");
    if multi_point.points.len() > 0 {
        let n = add_dimension(writer, multi_point.dim);
        let ghost head = writer@;
        let ghost items = point_texts(multi_point.points@, n as nat);
        writer.append("(");
        let mut i: usize = 0;
        assert(items.subrange(0, 0) =~= Seq::<Seq<char>>::empty());
        assert(writer@ =~= head + "("@ + joined(items.subrange(0, 0), ","@));
        while i < multi_point.points.len()
            invariant
                i <= multi_point.points.len(),
                multi_point.wf(),
                n == multi_point.dim.spec_size(),
                items == point_texts(multi_point.points@, n as nat),
                writer@ == head + "("@ + joined(items.subrange(0, i as int), ","@),
            decreases multi_point.points.len() - i,
        {
            proof {
                lemma_joined_next(items, ","@, i as int);
            }
            if i > 0 {
                writer.append(",");
            }
            assert(multi_point.points@[i as int].coord is Some);
            add_point(writer, &multi_point.points[i], n);
            assert(writer@ =~= head + "("@ + joined(items.subrange(0, i as int + 1), ","@));
            i += 1;
        }
        assert(items.subrange(0, multi_point.points.len() as int) =~= items);
        writer.append(")");
    } else {
        writer.append(" EMPTY");
    }
    assert(writer@ =~= start + multi_point_text(*multi_point));
    Ok(())
}

/// Appends the text of a multi-line-string to `writer`.
pub fn multi_linestring_to_wkt(multi_linestring: &MultiLineString, writer: &mut String) -> (r:
    Result<(), Error>)
    requires
        multi_linestring.wf(),
    ensures
        r is Ok,
        final(writer)@ == old(writer)@ + multi_linestring_text(*multi_linestring),
{
    let ghost start = writer@;
    writer.append("MULTILINESTRING");
    if multi_linestring.lines.len() > 0 {
        let n = add_dimension(writer, multi_linestring.dim);
        let ghost head = writer@;
        let ghost items = line_texts(multi_linestring.lines@, n as nat);
        writer.append("(");
        let mut i: usize = 0;
        assert(items.subrange(0, 0) =~= Seq::<Seq<char>>::empty());
        assert(writer@ =~= head + "("@ + joined(items.subrange(0, 0), ","@));
        while i < multi_linestring.lines.len()
            invariant
                i <= multi_linestring.lines.len(),
                multi_linestring.wf(),
                n == multi_linestring.dim.spec_size(),
                items == line_texts(multi_linestring.lines@, n as nat),
                writer@ == head + "("@ + joined(items.subrange(0, i as int), ","@),
            decreases multi_linestring.lines.len() - i,
        {
            proof {
                lemma_joined_next(items, ","@, i as int);
            }
            if i > 0 {
                writer.append(",");
            }
            assert(multi_linestring.lines@[i as int].coords@.len() > 0);
            add_coords(writer, &multi_linestring.lines[i].coords, n);
            assert(writer@ =~= head + "("@ + joined(items.subrange(0, i as int + 1), ","@));
            i += 1;
        }
        assert(items.subrange(0, multi_linestring.lines.len() as int) =~= items);
        writer.append(")");
    } else {
        writer.append(" EMPTY");
    }
    assert(writer@ =~= start + multi_linestring_text(*multi_linestring));
    Ok(())
}

/// Appends the text of a multi-polygon to `writer`.
pub fn multi_polygon_to_wkt(multi_polygon: &MultiPolygon, writer: &mut String) -> (r: Result<
    (),
    Error,
>)
    requires
        multi_polygon.wf(),
    ensures
        r is Ok,
        final(writer)@ == old(writer)@ + multi_polygon_text(*multi_polygon),
{
    let ghost start = writer@;
    writer.append("MULTIPOLYGON");
    if multi_polygon.polygons.len() > 0 {
        let n = add_dimension(writer, multi_polygon.dim);
        let ghost head = writer@;
        let ghost items = polygon_texts(multi_polygon.polygons@, n as nat);
        writer.append("(");
        let mut i: usize = 0;
        assert(items.subrange(0, 0) =~= Seq::<Seq<char>>::empty());
        assert(writer@ =~= head + "("@ + joined(items.subrange(0, 0), ","@));
        while i < multi_polygon.polygons.len()
            invariant
                i <= multi_polygon.polygons.len(),
                multi_polygon.wf(),
                n == multi_polygon.dim.spec_size(),
                items == polygon_texts(multi_polygon.polygons@, n as nat),
                writer@ == head + "("@ + joined(items.subrange(0, i as int), ","@),
            decreases multi_polygon.polygons.len() - i,
        {
            proof {
                lemma_joined_next(items, ","@, i as int);
            }
            if i > 0 {
                writer.append(",");
            }
            assert(rings_wf(multi_polygon.polygons@[i as int].rings@, n as nat));
            add_rings(writer, &multi_polygon.polygons[i].rings, n);
            assert(writer@ =~= head + "("@ + joined(items.subrange(0, i as int + 1), ","@));
            i += 1;
        }
        assert(items.subrange(0, multi_polygon.polygons.len() as int) =~= items);
        writer.append(")");
    } else {
        writer.append(" EMPTY");
    }
    assert(writer@ =~= start + multi_polygon_text(*multi_polygon));
    Ok(())
}

/// The coordinate with the ordinates `x` and `y`.
fn corner(x: &String, y: &String) -> (c: Coord)
    ensures
        c.wf(2),
        coord_text(c, 2) == corner_text(x@, y@),
{
    let c = Coord { ordinates: vec![x.clone(), y.clone()] };
    assert(ordinate_texts(c, 2) =~= seq![x@, y@]);
    c
}

/// Appends the text of a rectangle to `writer`: for two axes its corners as
/// a polygon of one ring. A rectangle of more axes is not supported, and
/// leaves `writer` as it was.
pub fn rect_to_wkt(rect: &Rect, writer: &mut String) -> (r: Result<(), Error>)
    requires
        rect.wf(),
    ensures
        match r {
            Ok(_) => rect.dim == Dimensions::Xy && final(writer)@ == old(writer)@ + rect_text(
                *rect,
            ),
            Err(e) => rect.dim != Dimensions::Xy && e.kind() == ErrorKind::NotImplemented
                && final(writer)@ == old(writer)@,
        },
{
    match rect.dim {
        Dimensions::Xy => {},
        _ => {
            return Err(
                Error::NotImplemented(String::from_str("unsupported: rectangle of more than two axes")),
            );
        },
    }
    let ghost start = writer@;
    let ring: Vec<Coord> = vec![
        corner(&rect.min.ordinates[0], &rect.min.ordinates[1]),
        corner(&rect.max.ordinates[0], &rect.min.ordinates[1]),
        corner(&rect.max.ordinates[0], &rect.max.ordinates[1]),
        corner(&rect.min.ordinates[0], &rect.max.ordinates[1]),
        corner(&rect.min.ordinates[0], &rect.min.ordinates[1]),
    ];
    writer.append("POLYGON ");
    proof {
        let xl = rect.min.ordinates@[0]@;
        let yl = rect.min.ordinates@[1]@;
        let xu = rect.max.ordinates@[0]@;
        let yu = rect.max.ordinates@[1]@;
        assert(coord_texts(ring@, 2) =~= seq![
            corner_text(xl, yl),
            corner_text(xu, yl),
            corner_text(xu, yu),
            corner_text(xl, yu),
            corner_text(xl, yl),
        ]);
    }
    add_coords(writer, &ring, 2);
    assert(writer@ =~= start + rect_text(*rect));
    Ok(())
}

/// Appends the text of a geometry collection to `writer`.
///
/// Fails, as not implemented, exactly where the collection holds a rectangle
/// of more than two axes; `writer` then holds what was written before the
/// rectangle was met.
pub fn geometry_collection_to_wkt(gc: &GeometryCollection, writer: &mut String) -> (r: Result<
    (),
    Error,
>)
    requires
        gc.wf(),
    ensures
        match r {
            Ok(_) => all_writable(gc.geometries) && final(writer)@ == old(writer)@
                + geometry_collection_text(*gc),
            Err(e) => !all_writable(gc.geometries) && e.kind() == ErrorKind::NotImplemented,
        },
    decreases gc,
{
    let ghost start = writer@;
    writer.append("GEOMETRYCOLLECTION");
    if gc.geometries.len() > 0 {
        let _n = add_dimension(writer, gc.dim);
        let ghost head = writer@;
        let ghost items = geometry_texts(gc.geometries);
        writer.append("(");
        let mut i: usize = 0;
        assert(items.subrange(0, 0) =~= Seq::<Seq<char>>::empty());
        assert(writer@ =~= head + "("@ + joined(items.subrange(0, 0), ","@));
        while i < gc.geometries.len()
            invariant
                i <= gc.geometries.len(),
                gc.wf(),
                decreases_to!(gc => gc.geometries),
                items == geometry_texts(gc.geometries),
                forall|j: int| 0 <= j < i ==> is_writable(#[trigger] gc.geometries[j]),
                writer@ == head + "("@ + joined(items.subrange(0, i as int), ","@),
            decreases gc.geometries.len() - i,
        {
            proof {
                lemma_joined_next(items, ","@, i as int);
            }
            if i > 0 {
                writer.append(",");
            }
            assert(gc.geometries[i as int].wf());
            match geometry_to_wkt(&gc.geometries[i], writer) {
                Ok(_) => {},
                Err(e) => {
                    return Err(e);
                },
            }
            assert(writer@ =~= head + "("@ + joined(items.subrange(0, i as int + 1), ","@));
            i += 1;
        }
        assert(items.subrange(0, gc.geometries.len() as int) =~= items);
        writer.append(")");
    } else {
        writer.append(" EMPTY");
    }
    assert(writer@ =~= start + geometry_collection_text(*gc));
    Ok(())
}

/// Appends the text of a geometry to `writer`.
///
/// Fails, as not implemented, exactly where the geometry is or holds a
/// rectangle of more than two axes.
pub fn geometry_to_wkt(geometry: &Geometry, writer: &mut String) -> (r: Result<(), Error>)
    requires
        geometry.wf(),
    ensures
        match r {
            Ok(_) => is_writable(*geometry) && final(writer)@ == old(writer)@ + geometry_text(
                *geometry,
            ),
            Err(e) => !is_writable(*geometry) && e.kind() == ErrorKind::NotImplemented,
        },
    decreases geometry,
{
    match geometry {
        Geometry::Point(point) => point_to_wkt(point, writer),
        Geometry::LineString(linestring) => linestring_to_wkt(linestring, writer),
        Geometry::Polygon(polygon) => polygon_to_wkt(polygon, writer),
        Geometry::MultiPoint(multi_point) => multi_point_to_wkt(multi_point, writer),
        Geometry::MultiLineString(mls) => multi_linestring_to_wkt(mls, writer),
        Geometry::MultiPolygon(multi_polygon) => multi_polygon_to_wkt(multi_polygon, writer),
        Geometry::GeometryCollection(gc) => geometry_collection_to_wkt(gc, writer),
        Geometry::Rect(rect) => rect_to_wkt(rect, writer),
    }
}

} // verus!
