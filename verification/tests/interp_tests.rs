use rasterizer::interp::{interpolate, interpolate_with_depth, Interp};

/// The rounded interpolation sequence covers every integer step once, in
/// increasing order, and meets both endpoints exactly.
#[test]
fn interpolation_counts_and_endpoints() {
    let vals = interpolate(0, 0, 5, 10);
    assert_eq!(vals.len(), 6);
    for (k, &(i, d)) in vals.iter().enumerate() {
        assert_eq!(i, k as i64);
        assert_eq!(d, 2 * k as i64);
    }
    // The independent variable strictly increases by one.
    for w in vals.windows(2) {
        assert_eq!(w[1].0 - w[0].0, 1);
    }
    // First and last dependent values are the endpoints themselves,
    // well within half a unit of them.
    assert_eq!(vals[0].1, 0);
    assert_eq!(vals[5].1, 10);
}

#[test]
fn interpolation_rounds_half_away_from_zero() {
    let vals = interpolate(0, 0, 4, 2);
    let expect = [(0, 0), (1, 1), (2, 1), (3, 2), (4, 2)];
    assert_eq!(vals.len(), expect.len());
    for (got, want) in vals.iter().zip(expect.iter()) {
        assert_eq!(got, want);
    }
}

#[test]
fn interpolation_single_position() {
    let vals = interpolate(3, 7, 3, 9);
    assert_eq!(vals.len(), 1);
    assert_eq!(vals[0], (3, 7));
}

#[test]
fn interpolation_negative_slope() {
    let vals = interpolate(0, 10, 10, 0);
    assert_eq!(vals.len(), 11);
    for (k, &(i, d)) in vals.iter().enumerate() {
        assert_eq!(i, k as i64);
        assert_eq!(d, 10 - k as i64);
    }
}

#[test]
fn interpolation_with_depth_pairs_channels() {
    let vals = interpolate_with_depth(0, 0, 100, 4, 8, 200);
    assert_eq!(vals.len(), 5);
    for (k, &(i, d, z)) in vals.iter().enumerate() {
        assert_eq!(i, k as i64);
        assert_eq!(d, 2 * k as i64);
        assert_eq!(z, 100 + 25 * k as i64);
    }
}

#[test]
fn pull_interpolation_is_restartable() {
    let mut it = Interp::new(0, 0, 2, 2);
    assert_eq!(it.next(), Some((0, 0)));
    assert_eq!(it.next(), Some((1, 1)));
    assert_eq!(it.next(), Some((2, 2)));
    assert_eq!(it.next(), None);
    it.restart();
    assert_eq!(it.next(), Some((0, 0)));
}

#[test]
fn slope_comparison_without_consuming() {
    let shallow = Interp::new(0, 0, 10, 10);
    let steep = Interp::new(0, 0, 10, 20);
    assert!(shallow.left_of(&steep));
    assert!(!steep.left_of(&shallow));
    // Comparing does not consume any values.
    let mut shallow = shallow;
    assert_eq!(shallow.next(), Some((0, 0)));
}
