use datafusion_spatial::array::CoordBuffer;
use datafusion_spatial::compute::min_max_2d;

fn bits(values: &[f64]) -> Vec<u64> {
    values.iter().map(|v| v.to_bits()).collect()
}

fn interleaved(dim: usize, values: &[f64]) -> CoordBuffer {
    CoordBuffer::Interleaved { dim, coords: bits(values) }
}

fn separated(axes: &[&[f64]]) -> CoordBuffer {
    CoordBuffer::Separated { buffers: axes.iter().map(|a| bits(a)).collect() }
}

fn extent(coords: &CoordBuffer, skip: bool) -> ((f64, f64), (f64, f64)) {
    assert!(coords.is_valid());
    let ((xmin, ymin), (xmax, ymax)) = min_max_2d(coords, skip);
    (
        (f64::from_bits(xmin), f64::from_bits(ymin)),
        (f64::from_bits(xmax), f64::from_bits(ymax)),
    )
}

#[test]
fn empty_buffer_gives_the_identity() {
    let identity = ((f64::INFINITY, f64::INFINITY), (f64::NEG_INFINITY, f64::NEG_INFINITY));
    assert_eq!(extent(&interleaved(2, &[]), true), identity);
    assert_eq!(extent(&interleaved(3, &[]), false), identity);
    assert_eq!(extent(&separated(&[&[], &[]]), true), identity);
    assert_eq!(extent(&separated(&[&[], &[], &[]]), false), identity);
}

#[test]
fn interleaved_extent_of_points() {
    let coords = interleaved(2, &[1., 2., 3., 4.]);
    assert_eq!(extent(&coords, true), ((1., 2.), (3., 4.)));
    assert_eq!(extent(&coords, false), ((1., 2.), (3., 4.)));
}

#[test]
fn interleaved_extent_of_one_point() {
    assert_eq!(extent(&interleaved(2, &[1., 2.]), false), ((1., 2.), (1., 2.)));
}

#[test]
fn interleaved_extent_uses_the_first_two_axes_only() {
    let coords = interleaved(3, &[1., 2., 100., 3., -4., -100.]);
    assert_eq!(extent(&coords, false), ((1., -4.), (3., 2.)));
}

#[test]
fn interleaved_extent_passes_over_the_empty_point() {
    let coords = interleaved(2, &[0., 0., f64::NAN, f64::NAN, 10., -5.]);
    assert_eq!(extent(&coords, true), ((0., -5.), (10., 0.)));
    assert_eq!(extent(&coords, false), ((0., -5.), (10., 0.)));
}

#[test]
fn separated_extent_of_points() {
    let coords = separated(&[&[1., 3.], &[2., 4.]]);
    assert_eq!(extent(&coords, true), ((1., 2.), (3., 4.)));
    assert_eq!(extent(&coords, false), ((1., 2.), (3., 4.)));
}

#[test]
fn separated_extent_uses_the_first_two_axes_only() {
    let coords = separated(&[&[1., 3.], &[2., -4.], &[100., -100.]]);
    assert_eq!(extent(&coords, false), ((1., -4.), (3., 2.)));
}

#[test]
fn separated_extent_filters_the_empty_point_when_asked() {
    let coords = separated(&[&[0., f64::NAN, 10.], &[0., f64::NAN, -5.]]);
    assert_eq!(extent(&coords, true), ((0., -5.), (10., 0.)));
}

#[test]
fn separated_extent_filters_each_axis_on_its_own() {
    let coords = separated(&[&[0., f64::NAN, 10.], &[0., 7., -5.]]);
    assert_eq!(extent(&coords, true), ((0., -5.), (10., 7.)));
}

#[test]
fn separated_extent_without_filter_is_the_raw_minimum_and_maximum() {
    let coords = separated(&[&[0., f64::NAN, 10.], &[0., 1., -5.]]);
    let ((xmin, ymin), (xmax, ymax)) = extent(&coords, false);
    assert_eq!(xmin, 0.);
    assert!(xmax.is_nan());
    assert_eq!((ymin, ymax), (-5., 1.));
}

#[test]
fn separated_extent_of_nothing_but_empty_points_is_the_identity() {
    let coords = separated(&[&[f64::NAN], &[f64::NAN]]);
    assert_eq!(
        extent(&coords, true),
        ((f64::INFINITY, f64::INFINITY), (f64::NEG_INFINITY, f64::NEG_INFINITY))
    );
}

#[test]
fn interleaved_extent_keeps_the_first_of_equal_zeros() {
    let coords = interleaved(2, &[0., -0., -0., 0.]);
    let ((xmin, ymin), (xmax, ymax)) = min_max_2d(&coords, false);
    assert_eq!(xmin, 0.0f64.to_bits());
    assert_eq!(xmax, 0.0f64.to_bits());
    assert_eq!(ymin, (-0.0f64).to_bits());
    assert_eq!(ymax, (-0.0f64).to_bits());
}

#[test]
fn validity_of_buffers() {
    assert!(interleaved(2, &[1., 2.]).is_valid());
    assert!(!interleaved(2, &[1., 2., 3.]).is_valid());
    assert!(!interleaved(4, &[1., 2., 3., 4.]).is_valid());
    assert!(separated(&[&[1.], &[2.]]).is_valid());
    assert!(!separated(&[&[1.], &[2., 3.]]).is_valid());
    assert!(!separated(&[&[1.]]).is_valid());
}

#[test]
fn slices_keep_layout_and_values() {
    let coords = interleaved(2, &[1., 2., 3., 4., 5., 6.]);
    assert_eq!(coords.slice(1, 2), interleaved(2, &[3., 4., 5., 6.]));
    assert_eq!(coords.slice(3, 0), interleaved(2, &[]));
    let coords = separated(&[&[1., 3., 5.], &[2., 4., 6.]]);
    assert_eq!(coords.slice(1, 2), separated(&[&[3., 5.], &[4., 6.]]));
    assert_eq!(coords.len(), 3);
    assert_eq!(f64::from_bits(coords.get_x(2)), 5.);
    assert_eq!(f64::from_bits(coords.get_y(0)), 2.);
}
