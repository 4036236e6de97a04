use chartistry::bounds::Bounds;
use chartistry::projection::{Domain, Projection};

#[test]
fn y_axis_is_inverted() {
    let p = Projection::new(Bounds::from_points(0, 0, 0, 500), Domain::new(0, 100), Domain::new(0, 100));
    assert_eq!(p.y_to_svg(0), 500);
    assert_eq!(p.y_to_svg(100), 0);
    assert_eq!(p.position_to_svg(0, 0).1, 500);
    assert_eq!(p.position_to_svg(0, 100).1, 0);
}

#[test]
fn x_axis_runs_left_to_right() {
    let p = Projection::new(Bounds::from_points(10, 0, 210, 100), Domain::new(0, 100), Domain::new(0, 10));
    assert_eq!(p.x_to_svg(0), 10);
    assert_eq!(p.x_to_svg(100), 210);
    assert_eq!(p.x_to_svg(25), 60);
    assert_eq!(p.x_to_svg(-1), 8);
}

#[test]
fn single_value_domain_maps_to_midpoint() {
    let p = Projection::new(Bounds::from_points(0, 0, 100, 40), Domain::new(7, 7), Domain::new(3, 3));
    for v in [-50, 0, 7, 1000] {
        assert_eq!(p.position_to_svg(v, v), (50, 20));
    }
}

#[test]
fn round_trip_with_enough_pixels() {
    let p = Projection::new(Bounds::from_points(0, 0, 300, 300), Domain::new(-20, 80), Domain::new(0, 7));
    for x in -20..=80 {
        for y in 0..=7 {
            let (px, py) = p.position_to_svg(x, y);
            assert_eq!(p.svg_to_position(px, py), (x, y));
        }
    }
}

#[test]
fn round_trip_with_few_pixels_gives_smallest_value_on_same_pixel() {
    let p = Projection::new(Bounds::from_points(0, 0, 10, 10), Domain::new(0, 100), Domain::new(0, 100));
    let px = p.x_to_svg(37);
    assert_eq!(px, 3);
    let back = p.x_to_position(px);
    assert_eq!(back, 30);
    assert_eq!(p.x_to_svg(back), px);
    assert_eq!(p.x_to_svg(back - 1), px - 1);
}

#[test]
fn zero_width_bounds_map_back_to_minimum() {
    let p = Projection::new(Bounds::from_points(5, 5, 5, 5), Domain::new(2, 9), Domain::new(1, 4));
    assert_eq!(p.svg_to_position(5, 5), (2, 1));
    assert_eq!(p.bounds(), Bounds::from_points(5, 5, 5, 5));
}
