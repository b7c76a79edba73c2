//! The extent of a buffer of coordinates on its first two axes.

use vstd::prelude::*;
use crate::array::CoordBuffer;
use crate::ordinate::{
    gt, is_nan, le, lt, ordinate_gt, ordinate_is_nan, ordinate_lt, ordinate_total_lt, total_lt,
    INFINITY, NEG_INFINITY,
};

verus! {

/// The least of the numbers in `s` as doubles compare, the first of them
/// where several are equal; positive infinity where `s` holds no number
/// below it.
pub open spec fn fold_min(s: Seq<u64>) -> u64
    decreases s.len(),
{
    if s.len() == 0 {
        INFINITY
    } else {
        let least = fold_min(s.drop_last());
        if lt(s.last(), least) {
            s.last()
        } else {
            least
        }
    }
}

/// The greatest of the numbers in `s` as doubles compare, the first of them
/// where several are equal; negative infinity where `s` holds no number
/// above it.
pub open spec fn fold_max(s: Seq<u64>) -> u64
    decreases s.len(),
{
    if s.len() == 0 {
        NEG_INFINITY
    } else {
        let greatest = fold_max(s.drop_last());
        if gt(s.last(), greatest) {
            s.last()
        } else {
            greatest
        }
    }
}

/// The pattern of `s` that stands lowest in the total order, if `s` holds
/// any. With `skip_nan`, patterns that are not numbers are passed over.
pub open spec fn total_min(s: Seq<u64>, skip_nan: bool) -> Option<u64>
    decreases s.len(),
{
    if s.len() == 0 {
        None
    } else {
        let least = total_min(s.drop_last(), skip_nan);
        if skip_nan && is_nan(s.last()) {
            least
        } else {
            match least {
                None => Some(s.last()),
                Some(m) => if total_lt(s.last(), m) {
                    Some(s.last())
                } else {
                    Some(m)
                },
            }
        }
    }
}

/// The pattern of `s` that stands highest in the total order, if `s` holds
/// any. With `skip_nan`, patterns that are not numbers are passed over.
pub open spec fn total_max(s: Seq<u64>, skip_nan: bool) -> Option<u64>
    decreases s.len(),
{
    if s.len() == 0 {
        None
    } else {
        let greatest = total_max(s.drop_last(), skip_nan);
        if skip_nan && is_nan(s.last()) {
            greatest
        } else {
            match greatest {
                None => Some(s.last()),
                Some(m) => if total_lt(m, s.last()) {
                    Some(s.last())
                } else {
                    Some(m)
                },
            }
        }
    }
}

/// The lower bound of one axis.
pub open spec fn axis_min(s: Seq<u64>, interleaved: bool, skip_nan: bool) -> u64 {
    if interleaved {
        fold_min(s)
    } else {
        match total_min(s, skip_nan) {
            Some(m) => m,
            None => INFINITY,
        }
    }
}

/// The upper bound of one axis.
pub open spec fn axis_max(s: Seq<u64>, interleaved: bool, skip_nan: bool) -> u64 {
    if interleaved {
        fold_max(s)
    } else {
        match total_max(s, skip_nan) {
            Some(m) => m,
            None => NEG_INFINITY,
        }
    }
}

/// The extent of a buffer, as ((xmin, ymin), (xmax, ymax)).
///
/// In the interleaved layout the bounds are the least and the greatest
/// number of each axis, as doubles compare, so that ordinates that are not
/// numbers never count. In the separated layout they are the lowest and the
/// highest pattern of each axis in the total order, over the numbers alone
/// with `skip_empty_point` and over every pattern without it. An axis with
/// nothing to take a bound from has the bounds (+inf, -inf).
pub open spec fn extent_of(coords: CoordBuffer, skip_empty_point: bool) -> ((u64, u64), (u64, u64)) {
    extent_of_axes(coords.xs(), coords.ys(), coords.is_interleaved(), skip_empty_point)
}

/// The extent of coordinates given axis by axis, as ((xmin, ymin), (xmax,
/// ymax)); see [`extent_of`].
pub open spec fn extent_of_axes(xs: Seq<u64>, ys: Seq<u64>, interleaved: bool, skip_nan: bool) -> (
    (u64, u64),
    (u64, u64),
) {
    (
        (axis_min(xs, interleaved, skip_nan), axis_min(ys, interleaved, skip_nan)),
        (axis_max(xs, interleaved, skip_nan), axis_max(ys, interleaved, skip_nan)),
    )
}

/// The bounds of one separated axis: (axis_min, axis_max).
fn separated_min_max(values: &Vec<u64>, skip_nan: bool) -> (r: (u64, u64))
    ensures
        r.0 == axis_min(values@, false, skip_nan),
        r.1 == axis_max(values@, false, skip_nan),
{
    let mut least: Option<u64> = None;
    let mut greatest: Option<u64> = None;
    let mut i: usize = 0;
    assert(values@.subrange(0, 0) =~= Seq::<u64>::empty());
    while i < values.len()
        invariant
            i <= values.len(),
            least == total_min(values@.subrange(0, i as int), skip_nan),
            greatest == total_max(values@.subrange(0, i as int), skip_nan),
        decreases values.len() - i,
    {
        let ghost next = values@.subrange(0, i as int + 1);
        assert(next.drop_last() =~= values@.subrange(0, i as int));
        assert(next.last() == values[i as int]);
        let v = values[i];
        if !(skip_nan && ordinate_is_nan(v)) {
            least = match least {
                None => Some(v),
                Some(m) => if ordinate_total_lt(v, m) {
                    Some(v)
                } else {
                    Some(m)
                },
            };
            greatest = match greatest {
                None => Some(v),
                Some(m) => if ordinate_total_lt(m, v) {
                    Some(v)
                } else {
                    Some(m)
                },
            };
        }
        i += 1;
    }
    assert(values@.subrange(0, i as int) =~= values@);
    (
        match least {
            Some(m) => m,
            None => INFINITY,
        },
        match greatest {
            Some(m) => m,
            None => NEG_INFINITY,
        },
    )
}

/// The extent of a buffer of coordinates on its first two axes, as
/// ((xmin, ymin), (xmax, ymax)).
pub fn min_max_2d(coords: &CoordBuffer, empty_point_check: bool) -> (r: ((u64, u64), (u64, u64)))
    requires
        coords.wf(),
    ensures
        r == extent_of(*coords, empty_point_check),
{
    match coords {
        CoordBuffer::Interleaved { dim, coords: values } => {
            let n = coords.len();
            let ghost xs = coords.xs();
            let ghost ys = coords.ys();
            let mut xmin = INFINITY;
            let mut ymin = INFINITY;
            let mut xmax = NEG_INFINITY;
            let mut ymax = NEG_INFINITY;
            let mut i: usize = 0;
            assert(xs.subrange(0, 0) =~= Seq::<u64>::empty());
            assert(ys.subrange(0, 0) =~= Seq::<u64>::empty());
            while i < n
                invariant
                    i <= n,
                    coords.wf(),
                    coords.is_interleaved(),
                    n == coords.spec_len(),
                    xs == coords.xs(),
                    ys == coords.ys(),
                    xmin == fold_min(xs.subrange(0, i as int)),
                    ymin == fold_min(ys.subrange(0, i as int)),
                    xmax == fold_max(xs.subrange(0, i as int)),
                    ymax == fold_max(ys.subrange(0, i as int)),
                decreases n - i,
            {
                assert(xs.subrange(0, i as int + 1).drop_last() =~= xs.subrange(0, i as int));
                assert(ys.subrange(0, i as int + 1).drop_last() =~= ys.subrange(0, i as int));
                let x = coords.get_x(i);
                let y = coords.get_y(i);
                if ordinate_lt(x, xmin) {
                    xmin = x;
                }
                if ordinate_gt(x, xmax) && !ordinate_is_nan(x) {
                    xmax = x;
                }
                if ordinate_lt(y, ymin) {
                    ymin = y;
                }
                if ordinate_gt(y, ymax) && !ordinate_is_nan(y) {
                    ymax = y;
                }
                i += 1;
            }
            assert(xs.subrange(0, i as int) =~= xs);
            assert(ys.subrange(0, i as int) =~= ys);
            ((xmin, ymin), (xmax, ymax))
        },
        CoordBuffer::Separated { buffers } => {
            assert(coords.xs() =~= buffers[0]@);
            assert(coords.ys() =~= buffers[1]@);
            let (xmin, xmax) = separated_min_max(&buffers[0], empty_point_check);
            let (ymin, ymax) = separated_min_max(&buffers[1], empty_point_check);
            ((xmin, ymin), (xmax, ymax))
        },
    }
}

/// The bounds of an interleaved axis are numbers, and every number of the
/// axis lies between them.
pub proof fn lemma_fold_bounds(s: Seq<u64>, k: int)
    requires
        0 <= k < s.len(),
        !is_nan(s[k]),
    ensures
        le(fold_min(s), s[k]),
        le(s[k], fold_max(s)),
    decreases s.len(),
{
    lemma_fold_is_number(s);
    lemma_fold_is_number(s.drop_last());
    if k < s.len() - 1 {
        lemma_fold_bounds(s.drop_last(), k);
    }
}

/// The bounds of an interleaved axis are numbers.
pub proof fn lemma_fold_is_number(s: Seq<u64>)
    ensures
        !is_nan(fold_min(s)),
        !is_nan(fold_max(s)),
    decreases s.len(),
{
    if s.len() > 0 {
        lemma_fold_is_number(s.drop_last());
    }
}

/// Over an axis without patterns that are not numbers, the lowest and the
/// highest pattern in the total order bound every ordinate as doubles
/// compare.
pub proof fn lemma_total_bounds(s: Seq<u64>, skip_nan: bool, k: int)
    requires
        0 <= k < s.len(),
        forall|j: int| 0 <= j < s.len() ==> !is_nan(s[j]),
    ensures
        total_min(s, skip_nan) is Some,
        total_max(s, skip_nan) is Some,
        le(total_min(s, skip_nan)->0, s[k]),
        le(s[k], total_max(s, skip_nan)->0),
    decreases s.len(),
{
    let rest = s.drop_last();
    assert(!is_nan(s.last()));
    if rest.len() > 0 {
        lemma_total_bounds(rest, skip_nan, 0);
        lemma_total_is_member(rest, skip_nan);
        let least = total_min(rest, skip_nan)->0;
        let i = choose|i: int| 0 <= i < rest.len() && rest[i] == least;
        assert(s[i] == least && !is_nan(least));
        let greatest = total_max(rest, skip_nan)->0;
        let j = choose|j: int| 0 <= j < rest.len() && rest[j] == greatest;
        assert(s[j] == greatest && !is_nan(greatest));
        if k < s.len() - 1 {
            lemma_total_bounds(rest, skip_nan, k);
        }
    }
}

/// The lowest and the highest pattern of an axis are patterns of the axis.
pub proof fn lemma_total_is_member(s: Seq<u64>, skip_nan: bool)
    ensures
        total_min(s, skip_nan) is Some ==> s.contains(total_min(s, skip_nan)->0),
        total_max(s, skip_nan) is Some ==> s.contains(total_max(s, skip_nan)->0),
    decreases s.len(),
{
    if s.len() > 0 {
        let rest = s.drop_last();
        lemma_total_is_member(rest, skip_nan);
        assert(s.last() == s[s.len() - 1]);
        if total_min(rest, skip_nan) is Some {
            let m = total_min(rest, skip_nan)->0;
            let i = choose|i: int| 0 <= i < rest.len() && rest[i] == m;
            assert(s[i] == m);
        }
        if total_max(rest, skip_nan) is Some {
            let m = total_max(rest, skip_nan)->0;
            let i = choose|i: int| 0 <= i < rest.len() && rest[i] == m;
            assert(s[i] == m);
        }
    }
}

/// The extent of coordinates contains each of them: on either of the first
/// two axes, an ordinate that is a number lies between the bounds of its
/// axis. In the separated layout this holds of an axis all of whose
/// ordinates are numbers.
pub proof fn lemma_extent_contains(s: Seq<u64>, interleaved: bool, skip_nan: bool, k: int)
    requires
        0 <= k < s.len(),
        !is_nan(s[k]),
        interleaved || forall|j: int| 0 <= j < s.len() ==> !is_nan(s[j]),
    ensures
        le(axis_min(s, interleaved, skip_nan), s[k]),
        le(s[k], axis_max(s, interleaved, skip_nan)),
{
    if interleaved {
        lemma_fold_bounds(s, k);
    } else {
        lemma_total_bounds(s, skip_nan, k);
    }
}

} // verus!
