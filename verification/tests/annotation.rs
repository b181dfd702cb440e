use pyro::annotation::constrain_equal_axes;
use pyro::geometry::Point;

fn p(x: i32, y: i32) -> Point {
    Point { x, y }
}

#[test]
fn shift_drag_spans_a_square_on_the_longer_axis() {
    assert_eq!(constrain_equal_axes(p(10, 10), p(15, 8), p(0, 0)), p(15, 5));
    assert_eq!(constrain_equal_axes(p(10, 10), p(7, 30), p(0, 0)), p(-10, 30));
}

#[test]
fn shift_drag_on_one_axis_takes_the_other_direction_from_the_fallback() {
    assert_eq!(constrain_equal_axes(p(10, 10), p(14, 10), p(0, 50)), p(14, 14));
    assert_eq!(constrain_equal_axes(p(10, 10), p(14, 10), p(0, -50)), p(14, 6));
}

#[test]
fn shift_drag_at_the_origin_stays_there() {
    assert_eq!(constrain_equal_axes(p(10, 10), p(10, 10), p(99, 99)), p(10, 10));
}
