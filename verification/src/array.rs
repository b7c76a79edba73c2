//! Geometry columns in their native layout: a buffer of coordinates under
//! nested offset arrays, with a validity mask.

use vstd::prelude::*;

verus! {

/// A buffer of coordinates. Every ordinate is the bit pattern of a double
/// (see [`crate::ordinate`]).
#[derive(Clone, Debug, PartialEq)]
pub enum CoordBuffer {
    /// One vector that holds the coordinates one after the other, `dim`
    /// ordinates each.
    Interleaved { dim: usize, coords: Vec<u64> },
    /// One vector for each axis.
    Separated { buffers: Vec<Vec<u64>> },
}

impl CoordBuffer {
    /// Validity: two or three axes; an interleaved vector holds whole
    /// coordinates, separated vectors are equally long.
    pub open spec fn wf(&self) -> bool {
        match self {
            CoordBuffer::Interleaved { dim, coords } => (*dim == 2 || *dim == 3) && coords@.len()
                % (*dim as nat) == 0,
            CoordBuffer::Separated { buffers } => (buffers@.len() == 2 || buffers@.len() == 3)
                && forall|a: int|
                0 <= a < buffers@.len() ==> (#[trigger] buffers@[a])@.len() == buffers@[0]@.len(),
        }
    }

    /// The number of coordinates.
    pub open spec fn spec_len(&self) -> nat {
        match self {
            CoordBuffer::Interleaved { dim, coords } => coords@.len() / (*dim as nat),
            CoordBuffer::Separated { buffers } => buffers@[0]@.len(),
        }
    }

    /// The number of axes.
    pub open spec fn spec_dim(&self) -> nat {
        match self {
            CoordBuffer::Interleaved { dim, coords } => *dim as nat,
            CoordBuffer::Separated { buffers } => buffers@.len(),
        }
    }

    /// Whether the layout is the interleaved one.
    pub open spec fn is_interleaved(&self) -> bool {
        self is Interleaved
    }

    /// The ordinate of coordinate `i` on axis `axis`.
    pub open spec fn ordinate(&self, i: int, axis: int) -> u64 {
        match self {
            CoordBuffer::Interleaved { dim, coords } => coords@[i * (*dim as int) + axis],
            CoordBuffer::Separated { buffers } => buffers@[axis]@[i],
        }
    }

    /// The ordinates on one axis, coordinate by coordinate.
    pub open spec fn axis(&self, axis: int) -> Seq<u64> {
        Seq::new(self.spec_len(), |i: int| self.ordinate(i, axis))
    }

    /// The first ordinates of the coordinates.
    pub open spec fn xs(&self) -> Seq<u64> {
        self.axis(0)
    }

    /// The second ordinates of the coordinates.
    pub open spec fn ys(&self) -> Seq<u64> {
        self.axis(1)
    }

    /// Whether the buffer meets [`CoordBuffer::wf`].
    pub fn is_valid(&self) -> (r: bool)
        ensures
            r == self.wf(),
    {
        match self {
            CoordBuffer::Interleaved { dim, coords } => (*dim == 2 || *dim == 3) && coords.len()
                % *dim == 0,
            CoordBuffer::Separated { buffers } => {
                if !(buffers.len() == 2 || buffers.len() == 3) {
                    return false;
                }
                let n = buffers[0].len();
                let mut a: usize = 0;
                while a < buffers.len()
                    invariant
                        a <= buffers.len(),
                        *self == (CoordBuffer::Separated { buffers: *buffers }),
                        buffers.len() == 2 || buffers.len() == 3,
                        n == buffers[0].len(),
                        forall|b: int| 0 <= b < a ==> (#[trigger] buffers@[b])@.len() == n,
                    decreases buffers.len() - a,
                {
                    if buffers[a].len() != n {
                        assert(buffers@[a as int]@.len() != buffers@[0]@.len());
                        return false;
                    }
                    a += 1;
                }
                true
            },
        }
    }

    /// The number of coordinates.
    pub fn len(&self) -> (n: usize)
        requires
            self.wf(),
        ensures
            n == self.spec_len(),
    {
        match self {
            CoordBuffer::Interleaved { dim, coords } => coords.len() / *dim,
            CoordBuffer::Separated { buffers } => buffers[0].len(),
        }
    }

    /// Whether the buffer holds no coordinate.
    pub fn is_empty(&self) -> (r: bool)
        requires
            self.wf(),
        ensures
            r == (self.spec_len() == 0),
    {
        self.len() == 0
    }

    /// The first ordinate of coordinate `i`.
    pub fn get_x(&self, i: usize) -> (x: u64)
        requires
            self.wf(),
            i < self.spec_len(),
        ensures
            x == self.xs()[i as int],
    {
        self.get(i, 0)
    }

    /// The second ordinate of coordinate `i`.
    pub fn get_y(&self, i: usize) -> (y: u64)
        requires
            self.wf(),
            i < self.spec_len(),
        ensures
            y == self.ys()[i as int],
    {
        self.get(i, 1)
    }

    /// The ordinate of coordinate `i` on axis `axis`.
    pub fn get(&self, i: usize, axis: usize) -> (v: u64)
        requires
            self.wf(),
            i < self.spec_len(),
            axis < self.spec_dim(),
        ensures
            v == self.ordinate(i as int, axis as int),
    {
        match self {
            CoordBuffer::Interleaved { dim, coords } => {
                proof {
                    lemma_chunk_in_range(i as int, *dim as int, coords.len() as int);
                }
                coords[i * *dim + axis]
            },
            CoordBuffer::Separated { buffers } => buffers[axis][i],
        }
    }

    /// The coordinates from `offset` on, `length` of them, in the same layout.
    pub fn slice(&self, offset: usize, length: usize) -> (r: CoordBuffer)
        requires
            self.wf(),
            offset + length <= self.spec_len(),
        ensures
            r.wf(),
            r.is_interleaved() == self.is_interleaved(),
            r.spec_dim() == self.spec_dim(),
            r.spec_len() == length,
            forall|a: int|
                0 <= a < self.spec_dim() ==> #[trigger] r.axis(a) == self.axis(a).subrange(
                    offset as int,
                    offset + length,
                ),
    {
        match self {
            CoordBuffer::Interleaved { dim, coords } => {
                proof {
                    lemma_chunk_bounds(offset as int, length as int, *dim as int, coords.len() as int);
                }
                let from = offset * *dim;
                let to = from + length * *dim;
                let part = copy_range(coords, from, to);
                let r = CoordBuffer::Interleaved { dim: *dim, coords: part };
                proof {
                    lemma_whole_chunks(length as int, *dim as int);
                    assert forall|a: int| 0 <= a < self.spec_dim() implies #[trigger] r.axis(a)
                        == self.axis(a).subrange(offset as int, offset + length) by {
                        assert forall|i: int| 0 <= i < length implies r.axis(a)[i] == self.axis(
                            a,
                        )[offset + i] by {
                            lemma_chunk_in_range(i, *dim as int, part.len() as int);
                            lemma_chunk_shift(offset as int, i, *dim as int);
                        }
                        assert(r.axis(a) =~= self.axis(a).subrange(offset as int, offset + length));
                    }
                }
                r
            },
            CoordBuffer::Separated { buffers } => {
                let mut parts: Vec<Vec<u64>> = Vec::new();
                let mut a: usize = 0;
                while a < buffers.len()
                    invariant
                        a <= buffers.len(),
                        self.wf(),
                        *self == (CoordBuffer::Separated { buffers: *buffers }),
                        offset + length <= buffers[0].len(),
                        parts.len() == a,
                        forall|b: int|
                            0 <= b < a ==> (#[trigger] parts[b])@ == buffers[b]@.subrange(
                                offset as int,
                                offset + length,
                            ),
                    decreases buffers.len() - a,
                {
                    let part = copy_range(&buffers[a], offset, offset + length);
                    parts.push(part);
                    a += 1;
                }
                let r = CoordBuffer::Separated { buffers: parts };
                proof {
                    assert forall|b: int| 0 <= b < self.spec_dim() implies #[trigger] r.axis(b)
                        == self.axis(b).subrange(offset as int, offset + length) by {
                        assert(r.axis(b) =~= self.axis(b).subrange(offset as int, offset + length));
                    }
                }
                r
            },
        }
    }
}

/// Coordinate `i` of an interleaved vector lies inside the vector.
pub proof fn lemma_chunk_in_range(i: int, dim: int, len: int)
    requires
        dim > 0,
        len % dim == 0,
        0 <= i < len / dim,
    ensures
        0 <= i * dim,
        i * dim + dim <= len,
{
    assert(len == dim * (len / dim)) by {
        vstd::arithmetic::div_mod::lemma_fundamental_div_mod(len, dim);
    }
    assert(i * dim + dim <= (len / dim) * dim) by (nonlinear_arith)
        requires
            0 <= i < len / dim,
            dim > 0,
    ;
    assert(0 <= i * dim) by (nonlinear_arith)
        requires
            0 <= i,
            dim > 0,
    ;
    assert((len / dim) * dim == dim * (len / dim)) by (nonlinear_arith);
}

/// A run of `length` coordinates from `offset` on lies inside the vector.
pub proof fn lemma_chunk_bounds(offset: int, length: int, dim: int, len: int)
    requires
        dim > 0,
        len % dim == 0,
        0 <= offset,
        0 <= length,
        offset + length <= len / dim,
    ensures
        0 <= offset * dim,
        0 <= length * dim,
        offset * dim + length * dim <= len,
{
    assert(len == dim * (len / dim)) by {
        vstd::arithmetic::div_mod::lemma_fundamental_div_mod(len, dim);
    }
    assert(offset * dim + length * dim <= (len / dim) * dim && 0 <= offset * dim && 0 <= length
        * dim) by (nonlinear_arith)
        requires
            0 <= offset,
            0 <= length,
            offset + length <= len / dim,
            dim > 0,
    ;
    assert((len / dim) * dim == dim * (len / dim)) by (nonlinear_arith);
}

/// `length` whole coordinates take `length * dim` places.
pub proof fn lemma_whole_chunks(length: int, dim: int)
    requires
        dim > 0,
        0 <= length,
    ensures
        (length * dim) % dim == 0,
        (length * dim) / dim == length,
{
    vstd::arithmetic::div_mod::lemma_fundamental_div_mod_converse(length * dim, dim, length, 0);
}

/// Coordinate `i` of a run that starts at `offset` is coordinate `offset + i`.
pub proof fn lemma_chunk_shift(offset: int, i: int, dim: int)
    ensures
        (offset + i) * dim == offset * dim + i * dim,
{
    assert((offset + i) * dim == offset * dim + i * dim) by (nonlinear_arith);
}

/// A copy of `v[from..to]`.
pub fn copy_range(v: &Vec<u64>, from: usize, to: usize) -> (r: Vec<u64>)
    requires
        from <= to <= v.len(),
    ensures
        r@ == v@.subrange(from as int, to as int),
{
    let mut r: Vec<u64> = Vec::new();
    let mut i: usize = from;
    while i < to
        invariant
            from <= i <= to <= v.len(),
            r@ == v@.subrange(from as int, i as int),
        decreases to - i,
    {
        r.push(v[i]);
        assert(r@ =~= v@.subrange(from as int, i as int + 1));
        i += 1;
    }
    r
}

/// Validity of an offset array over an inner buffer of `inner_len` items: at
/// least one entry, never decreasing, the last entry the inner length.
pub open spec fn offsets_wf(offsets: Seq<usize>, inner_len: nat) -> bool {
    &&& offsets.len() >= 1
    &&& forall|i: int, j: int| 0 <= i <= j < offsets.len() ==> offsets[i] <= offsets[j]
    &&& offsets.last() == inner_len
}

/// Whether `offsets` meets [`offsets_wf`].
pub fn check_offsets(offsets: &Vec<usize>, inner_len: usize) -> (r: bool)
    ensures
        r == offsets_wf(offsets@, inner_len as nat),
{
    if offsets.len() == 0 {
        return false;
    }
    let mut i: usize = 1;
    while i < offsets.len()
        invariant
            1 <= i <= offsets.len(),
            forall|a: int, b: int| 0 <= a <= b < i ==> offsets[a] <= offsets[b],
        decreases offsets.len() - i,
    {
        if offsets[i - 1] > offsets[i] {
            return false;
        }
        i += 1;
    }
    offsets[offsets.len() - 1] == inner_len
}

/// Validity of a validity mask for `len` rows: one entry for each row.
pub open spec fn validity_wf(validity: Option<Vec<bool>>, len: nat) -> bool {
    match validity {
        Some(mask) => mask@.len() == len,
        None => true,
    }
}

/// Whether row `i` holds a value: a column without a mask has no null rows.
pub open spec fn row_is_valid(validity: Option<Vec<bool>>, i: int) -> bool {
    match validity {
        Some(mask) => mask@[i],
        None => true,
    }
}

/// Whether row `i` holds a value.
pub fn mask_is_valid(validity: &Option<Vec<bool>>, i: usize) -> (r: bool)
    requires
        match validity {
            Some(mask) => i < mask@.len(),
            None => true,
        },
    ensures
        r == row_is_valid(*validity, i as int),
{
    match validity {
        Some(mask) => mask[i],
        None => true,
    }
}

fn mask_fits(validity: &Option<Vec<bool>>, len: usize) -> (r: bool)
    ensures
        r == validity_wf(*validity, len as nat),
{
    match validity {
        Some(mask) => mask.len() == len,
        None => true,
    }
}

/// A column of points: one coordinate for each row.
#[derive(Clone, Debug, PartialEq)]
pub struct PointArray {
    pub coords: CoordBuffer,
    pub validity: Option<Vec<bool>>,
}

/// A column of line strings: `geom_offsets` into the coordinates.
#[derive(Clone, Debug, PartialEq)]
pub struct LineStringArray {
    pub coords: CoordBuffer,
    pub geom_offsets: Vec<usize>,
    pub validity: Option<Vec<bool>>,
}

/// A column of polygons: `geom_offsets` into `ring_offsets` into the
/// coordinates.
#[derive(Clone, Debug, PartialEq)]
pub struct PolygonArray {
    pub coords: CoordBuffer,
    pub geom_offsets: Vec<usize>,
    pub ring_offsets: Vec<usize>,
    pub validity: Option<Vec<bool>>,
}

/// A column of multi-points: `geom_offsets` into the coordinates.
#[derive(Clone, Debug, PartialEq)]
pub struct MultiPointArray {
    pub coords: CoordBuffer,
    pub geom_offsets: Vec<usize>,
    pub validity: Option<Vec<bool>>,
}

/// A column of multi-line-strings: `geom_offsets` into `ring_offsets` into
/// the coordinates.
#[derive(Clone, Debug, PartialEq)]
pub struct MultiLineStringArray {
    pub coords: CoordBuffer,
    pub geom_offsets: Vec<usize>,
    pub ring_offsets: Vec<usize>,
    pub validity: Option<Vec<bool>>,
}

/// A column of multi-polygons: `geom_offsets` into `polygon_offsets` into
/// `ring_offsets` into the coordinates.
#[derive(Clone, Debug, PartialEq)]
pub struct MultiPolygonArray {
    pub coords: CoordBuffer,
    pub geom_offsets: Vec<usize>,
    pub polygon_offsets: Vec<usize>,
    pub ring_offsets: Vec<usize>,
    pub validity: Option<Vec<bool>>,
}

impl PointArray {
    /// Validity: the coordinates are valid, every offset array never
    /// decreases and ends at the length of what it points into, and the
    /// validity mask, where there is one, has an entry for each row.
    pub open spec fn wf(&self) -> bool {
        self.coords.wf() && validity_wf(self.validity, self.coords.spec_len())
    }

    /// The number of rows.
    pub open spec fn spec_len(&self) -> nat {
        self.coords.spec_len()
    }

    /// Whether the column is valid.
    pub fn is_well_formed(&self) -> (r: bool)
        ensures
            r == self.wf(),
    {
        self.coords.is_valid() && mask_fits(&self.validity, self.coords.len())
    }

    /// The number of rows.
    pub fn len(&self) -> (n: usize)
        requires
            self.wf(),
        ensures
            n == self.spec_len(),
    {
        self.coords.len()
    }
}

impl LineStringArray {
    /// Validity: the coordinates are valid, every offset array never
    /// decreases and ends at the length of what it points into, and the
    /// validity mask, where there is one, has an entry for each row.
    pub open spec fn wf(&self) -> bool {
        &&& self.coords.wf()
        &&& offsets_wf(self.geom_offsets@, self.coords.spec_len())
        &&& validity_wf(self.validity, self.spec_len())
    }

    /// The number of rows.
    pub open spec fn spec_len(&self) -> nat {
        (self.geom_offsets@.len() - 1) as nat
    }

    /// Whether the column is valid.
    pub fn is_well_formed(&self) -> (r: bool)
        ensures
            r == self.wf(),
    {
        self.coords.is_valid() && check_offsets(&self.geom_offsets, self.coords.len()) && mask_fits(
            &self.validity,
            self.geom_offsets.len() - 1,
        )
    }

    /// The number of rows.
    pub fn len(&self) -> (n: usize)
        requires
            self.wf(),
        ensures
            n == self.spec_len(),
    {
        self.geom_offsets.len() - 1
    }
}

impl MultiPointArray {
    /// Validity: the coordinates are valid, every offset array never
    /// decreases and ends at the length of what it points into, and the
    /// validity mask, where there is one, has an entry for each row.
    pub open spec fn wf(&self) -> bool {
        &&& self.coords.wf()
        &&& offsets_wf(self.geom_offsets@, self.coords.spec_len())
        &&& validity_wf(self.validity, self.spec_len())
    }

    /// The number of rows.
    pub open spec fn spec_len(&self) -> nat {
        (self.geom_offsets@.len() - 1) as nat
    }

    /// Whether the column is valid.
    pub fn is_well_formed(&self) -> (r: bool)
        ensures
            r == self.wf(),
    {
        self.coords.is_valid() && check_offsets(&self.geom_offsets, self.coords.len()) && mask_fits(
            &self.validity,
            self.geom_offsets.len() - 1,
        )
    }

    /// The number of rows.
    pub fn len(&self) -> (n: usize)
        requires
            self.wf(),
        ensures
            n == self.spec_len(),
    {
        self.geom_offsets.len() - 1
    }
}

impl PolygonArray {
    /// Validity: the coordinates are valid, every offset array never
    /// decreases and ends at the length of what it points into, and the
    /// validity mask, where there is one, has an entry for each row.
    pub open spec fn wf(&self) -> bool {
        &&& self.coords.wf()
        &&& offsets_wf(self.ring_offsets@, self.coords.spec_len())
        &&& offsets_wf(self.geom_offsets@, (self.ring_offsets@.len() - 1) as nat)
        &&& validity_wf(self.validity, self.spec_len())
    }

    /// The number of rows.
    pub open spec fn spec_len(&self) -> nat {
        (self.geom_offsets@.len() - 1) as nat
    }

    /// Whether the column is valid.
    pub fn is_well_formed(&self) -> (r: bool)
        ensures
            r == self.wf(),
    {
        self.coords.is_valid() && check_offsets(&self.ring_offsets, self.coords.len())
            && check_offsets(&self.geom_offsets, self.ring_offsets.len() - 1) && mask_fits(
            &self.validity,
            self.geom_offsets.len() - 1,
        )
    }

    /// The number of rows.
    pub fn len(&self) -> (n: usize)
        requires
            self.wf(),
        ensures
            n == self.spec_len(),
    {
        self.geom_offsets.len() - 1
    }
}

impl MultiLineStringArray {
    /// Validity: the coordinates are valid, every offset array never
    /// decreases and ends at the length of what it points into, and the
    /// validity mask, where there is one, has an entry for each row.
    pub open spec fn wf(&self) -> bool {
        &&& self.coords.wf()
        &&& offsets_wf(self.ring_offsets@, self.coords.spec_len())
        &&& offsets_wf(self.geom_offsets@, (self.ring_offsets@.len() - 1) as nat)
        &&& validity_wf(self.validity, self.spec_len())
    }

    /// The number of rows.
    pub open spec fn spec_len(&self) -> nat {
        (self.geom_offsets@.len() - 1) as nat
    }

    /// Whether the column is valid.
    pub fn is_well_formed(&self) -> (r: bool)
        ensures
            r == self.wf(),
    {
        self.coords.is_valid() && check_offsets(&self.ring_offsets, self.coords.len())
            && check_offsets(&self.geom_offsets, self.ring_offsets.len() - 1) && mask_fits(
            &self.validity,
            self.geom_offsets.len() - 1,
        )
    }

    /// The number of rows.
    pub fn len(&self) -> (n: usize)
        requires
            self.wf(),
        ensures
            n == self.spec_len(),
    {
        self.geom_offsets.len() - 1
    }
}

impl MultiPolygonArray {
    /// Validity: the coordinates are valid, every offset array never
    /// decreases and ends at the length of what it points into, and the
    /// validity mask, where there is one, has an entry for each row.
    pub open spec fn wf(&self) -> bool {
        &&& self.coords.wf()
        &&& offsets_wf(self.ring_offsets@, self.coords.spec_len())
        &&& offsets_wf(self.polygon_offsets@, (self.ring_offsets@.len() - 1) as nat)
        &&& offsets_wf(self.geom_offsets@, (self.polygon_offsets@.len() - 1) as nat)
        &&& validity_wf(self.validity, self.spec_len())
    }

    /// The number of rows.
    pub open spec fn spec_len(&self) -> nat {
        (self.geom_offsets@.len() - 1) as nat
    }

    /// Whether the column is valid.
    pub fn is_well_formed(&self) -> (r: bool)
        ensures
            r == self.wf(),
    {
        self.coords.is_valid() && check_offsets(&self.ring_offsets, self.coords.len())
            && check_offsets(&self.polygon_offsets, self.ring_offsets.len() - 1) && check_offsets(
            &self.geom_offsets,
            self.polygon_offsets.len() - 1,
        ) && mask_fits(&self.validity, self.geom_offsets.len() - 1)
    }

    /// The number of rows.
    pub fn len(&self) -> (n: usize)
        requires
            self.wf(),
        ensures
            n == self.spec_len(),
    {
        self.geom_offsets.len() - 1
    }
}

/// Whether `part` holds the coordinates `start..end` of `whole`, in the same
/// layout.
pub open spec fn is_slice_of(part: CoordBuffer, whole: CoordBuffer, start: int, end: int) -> bool {
    &&& part.wf()
    &&& part.is_interleaved() == whole.is_interleaved()
    &&& part.spec_dim() == whole.spec_dim()
    &&& part.spec_len() == end - start
    &&& forall|a: int|
        0 <= a < whole.spec_dim() ==> #[trigger] part.axis(a) == whole.axis(a).subrange(start, end)
}

impl PointArray {
    /// Whether row `i` is the empty point: both of its first two ordinates
    /// are not numbers.
    pub open spec fn is_empty_point(&self, i: int) -> bool {
        crate::ordinate::is_nan(self.coords.xs()[i]) && crate::ordinate::is_nan(self.coords.ys()[i])
    }

    /// The coordinates of row `i`, as a range of the buffer: one coordinate,
    /// or none for the empty point.
    pub open spec fn row_range(&self, i: int) -> (int, int) {
        if self.is_empty_point(i) {
            (i, i)
        } else {
            (i, i + 1)
        }
    }
}

impl LineStringArray {
    /// The coordinates of row `i`, as a range of the buffer.
    pub open spec fn row_range(&self, i: int) -> (int, int) {
        (self.geom_offsets@[i] as int, self.geom_offsets@[i + 1] as int)
    }
}

impl MultiPointArray {
    /// The coordinates of row `i`, as a range of the buffer.
    pub open spec fn row_range(&self, i: int) -> (int, int) {
        (self.geom_offsets@[i] as int, self.geom_offsets@[i + 1] as int)
    }
}

impl PolygonArray {
    /// The coordinates of row `i`, as a range of the buffer: from the start
    /// of its first ring to the end of its last.
    pub open spec fn row_range(&self, i: int) -> (int, int) {
        (
            self.ring_offsets@[self.geom_offsets@[i] as int] as int,
            self.ring_offsets@[self.geom_offsets@[i + 1] as int] as int,
        )
    }
}

impl MultiLineStringArray {
    /// The coordinates of row `i`, as a range of the buffer: from the start
    /// of its first line to the end of its last.
    pub open spec fn row_range(&self, i: int) -> (int, int) {
        (
            self.ring_offsets@[self.geom_offsets@[i] as int] as int,
            self.ring_offsets@[self.geom_offsets@[i + 1] as int] as int,
        )
    }
}

impl MultiPolygonArray {
    /// The coordinates of row `i`, as a range of the buffer: from the start
    /// of the first ring of its first polygon to the end of the last ring of
    /// its last.
    pub open spec fn row_range(&self, i: int) -> (int, int) {
        (
            self.ring_offsets@[self.polygon_offsets@[self.geom_offsets@[i] as int] as int] as int,
            self.ring_offsets@[self.polygon_offsets@[self.geom_offsets@[i + 1] as int] as int] as int,
        )
    }
}

/// A geometry column in a native layout. The layouts that the kernels do not
/// cover stand here by name alone.
#[derive(Clone, Debug, PartialEq)]
pub enum NativeArray {
    Point(PointArray),
    LineString(LineStringArray),
    Polygon(PolygonArray),
    MultiPoint(MultiPointArray),
    MultiLineString(MultiLineStringArray),
    MultiPolygon(MultiPolygonArray),
    Mixed,
    GeometryCollection,
    Rect,
}

impl NativeArray {
    /// Whether the kernels cover the layout.
    pub open spec fn is_covered(&self) -> bool {
        !(self is Mixed || self is GeometryCollection || self is Rect)
    }

    /// Validity: the coordinates are valid, every offset array never
    /// decreases and ends at the length of what it points into, and the
    /// validity mask, where there is one, has an entry for each row.

    /// Validity: that of the column held; a layout that is not covered is
    /// valid as it stands.
    pub open spec fn wf(&self) -> bool {
        match self {
            NativeArray::Point(a) => a.wf(),
            NativeArray::LineString(a) => a.wf(),
            NativeArray::Polygon(a) => a.wf(),
            NativeArray::MultiPoint(a) => a.wf(),
            NativeArray::MultiLineString(a) => a.wf(),
            NativeArray::MultiPolygon(a) => a.wf(),
            _ => true,
        }
    }

    /// The number of rows; 0 for a layout that is not covered.
    pub open spec fn spec_len(&self) -> nat {
        match self {
            NativeArray::Point(a) => a.spec_len(),
            NativeArray::LineString(a) => a.spec_len(),
            NativeArray::Polygon(a) => a.spec_len(),
            NativeArray::MultiPoint(a) => a.spec_len(),
            NativeArray::MultiLineString(a) => a.spec_len(),
            NativeArray::MultiPolygon(a) => a.spec_len(),
            _ => 0,
        }
    }

    /// The validity mask of the column.
    pub open spec fn validity(&self) -> Option<Vec<bool>> {
        match self {
            NativeArray::Point(a) => a.validity,
            NativeArray::LineString(a) => a.validity,
            NativeArray::Polygon(a) => a.validity,
            NativeArray::MultiPoint(a) => a.validity,
            NativeArray::MultiLineString(a) => a.validity,
            NativeArray::MultiPolygon(a) => a.validity,
            _ => None,
        }
    }

    /// The coordinates of the column.
    pub open spec fn coords(&self) -> CoordBuffer
        recommends
            self.is_covered(),
    {
        match self {
            NativeArray::Point(a) => a.coords,
            NativeArray::LineString(a) => a.coords,
            NativeArray::Polygon(a) => a.coords,
            NativeArray::MultiPoint(a) => a.coords,
            NativeArray::MultiLineString(a) => a.coords,
            NativeArray::MultiPolygon(a) => a.coords,
            _ => arbitrary(),
        }
    }

    /// The coordinates of row `i`, as a range of the buffer.
    pub open spec fn row_range(&self, i: int) -> (int, int) {
        match self {
            NativeArray::Point(a) => a.row_range(i),
            NativeArray::LineString(a) => a.row_range(i),
            NativeArray::Polygon(a) => a.row_range(i),
            NativeArray::MultiPoint(a) => a.row_range(i),
            NativeArray::MultiLineString(a) => a.row_range(i),
            NativeArray::MultiPolygon(a) => a.row_range(i),
            _ => (0, 0),
        }
    }

    /// The validity mask of the column.
    pub fn validity_mask(&self) -> (r: &Option<Vec<bool>>)
        ensures
            *r == self.validity(),
    {
        match self {
            NativeArray::Point(a) => &a.validity,
            NativeArray::LineString(a) => &a.validity,
            NativeArray::Polygon(a) => &a.validity,
            NativeArray::MultiPoint(a) => &a.validity,
            NativeArray::MultiLineString(a) => &a.validity,
            NativeArray::MultiPolygon(a) => &a.validity,
            _ => &None,
        }
    }

    /// Whether the column is valid.
    pub fn is_well_formed(&self) -> (r: bool)
        ensures
            r == self.wf(),
    {
        match self {
            NativeArray::Point(a) => a.is_well_formed(),
            NativeArray::LineString(a) => a.is_well_formed(),
            NativeArray::Polygon(a) => a.is_well_formed(),
            NativeArray::MultiPoint(a) => a.is_well_formed(),
            NativeArray::MultiLineString(a) => a.is_well_formed(),
            NativeArray::MultiPolygon(a) => a.is_well_formed(),
            _ => true,
        }
    }

    /// The number of rows.
    pub fn len(&self) -> (n: usize)
        requires
            self.wf(),
        ensures
            n == self.spec_len(),
    {
        match self {
            NativeArray::Point(a) => a.len(),
            NativeArray::LineString(a) => a.len(),
            NativeArray::Polygon(a) => a.len(),
            NativeArray::MultiPoint(a) => a.len(),
            NativeArray::MultiLineString(a) => a.len(),
            NativeArray::MultiPolygon(a) => a.len(),
            _ => 0,
        }
    }
}

} // verus!
