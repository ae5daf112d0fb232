use viewport_overlay::geom::{LineSegment, Point2D, Rect, COORD_MAX, UNIT};

fn rect(left: i64, right: i64, bottom: i64, top: i64) -> Rect {
    Rect::from_edges(left, right, bottom, top).expect("edges in order")
}

#[test]
fn unit_is_a_thousandth() {
    assert_eq!(UNIT, 1000);
}

#[test]
fn from_edges_keeps_the_edges() {
    let r = rect(-400_000, 400_000, -300_000, 300_000);
    assert_eq!(r.left(), -400_000);
    assert_eq!(r.right(), 400_000);
    assert_eq!(r.bottom(), -300_000);
    assert_eq!(r.top(), 300_000);
}

#[test]
fn from_edges_refuses_an_empty_extent() {
    assert_eq!(Rect::from_edges(5, 5, 0, 10), None);
    assert_eq!(Rect::from_edges(0, 10, 7, 7), None);
}

#[test]
fn from_edges_refuses_swapped_edges() {
    assert_eq!(Rect::from_edges(10, -10, 0, 10), None);
    assert_eq!(Rect::from_edges(0, 10, 10, -10), None);
}

#[test]
fn from_edges_refuses_edges_out_of_range() {
    assert_eq!(Rect::from_edges(-COORD_MAX - 1, 0, 0, 1), None);
    assert_eq!(Rect::from_edges(0, COORD_MAX + 1, 0, 1), None);
    assert_eq!(Rect::from_edges(0, 1, i64::MIN, 1), None);
    assert_eq!(Rect::from_edges(0, 1, 0, i64::MAX), None);
}

#[test]
fn from_edges_takes_the_whole_range() {
    let r = rect(-COORD_MAX, COORD_MAX, -COORD_MAX, COORD_MAX);
    assert_eq!(r.width(), 8_000_000_000_000_000_000);
    assert_eq!(r.height(), 8_000_000_000_000_000_000);
    assert_eq!(r.center(), Point2D { x: 0, y: 0 });
}

#[test]
fn from_center_reaches_both_ways() {
    let r = Rect::from_center(Point2D { x: 10, y: -20 }, 100, 50).expect("positive extents");
    assert_eq!(r, rect(-90, 110, -70, 30));
}

#[test]
fn from_center_refuses_extents_that_are_not_positive() {
    let origin = Point2D { x: 0, y: 0 };
    assert_eq!(Rect::from_center(origin, 0, 5), None);
    assert_eq!(Rect::from_center(origin, 5, 0), None);
    assert_eq!(Rect::from_center(origin, -5, 5), None);
    assert_eq!(Rect::from_center(origin, 5, i64::MIN), None);
}

#[test]
fn from_center_refuses_what_leaves_the_range() {
    assert_eq!(Rect::from_center(Point2D { x: COORD_MAX, y: 0 }, 1, 1), None);
    assert_eq!(Rect::from_center(Point2D { x: i64::MAX, y: 0 }, i64::MAX, 1), None);
    assert_eq!(Rect::from_center(Point2D { x: 0, y: i64::MIN }, 1, 1), None);
    assert_eq!(Rect::from_center(Point2D { x: 0, y: 0 }, COORD_MAX, COORD_MAX), Some(rect(
        -COORD_MAX, COORD_MAX, -COORD_MAX, COORD_MAX
    )));
}

#[test]
fn width_and_height_are_edge_differences() {
    let r = rect(-400_000, 400_000, -300_000, 300_000);
    assert_eq!(r.width(), 800_000);
    assert_eq!(r.height(), 600_000);
    let s = rect(10, 25, -7, -3);
    assert_eq!(s.width(), 15);
    assert_eq!(s.height(), 4);
}

#[test]
fn center_of_a_centred_rect_is_the_origin() {
    let r = rect(-400_000, 400_000, -300_000, 300_000);
    assert_eq!(r.center(), Point2D { x: 0, y: 0 });
}

#[test]
fn center_rounds_toward_negative_infinity() {
    assert_eq!(rect(-3, 2, 1, 4).center(), Point2D { x: -1, y: 2 });
    assert_eq!(rect(2, 5, -4, -1).center(), Point2D { x: 3, y: -3 });
}

#[test]
fn edge_midpoints() {
    let r = rect(-400_000, 200_000, -300_000, 100_000);
    assert_eq!(r.mid_top(), Point2D { x: -100_000, y: 100_000 });
    assert_eq!(r.mid_right(), Point2D { x: 200_000, y: -100_000 });
    assert_eq!(r.mid_bottom(), Point2D { x: -100_000, y: -300_000 });
    assert_eq!(r.mid_left(), Point2D { x: -400_000, y: -100_000 });
}

#[test]
fn corners() {
    let r = rect(-400_000, 200_000, -300_000, 100_000);
    assert_eq!(r.top_left(), Point2D { x: -400_000, y: 100_000 });
    assert_eq!(r.top_right(), Point2D { x: 200_000, y: 100_000 });
    assert_eq!(r.bottom_left(), Point2D { x: -400_000, y: -300_000 });
    assert_eq!(r.bottom_right(), Point2D { x: 200_000, y: -300_000 });
}

#[test]
fn inset_shrinks_a_wide_extent_at_both_ends() {
    let r = rect(-400_000, 400_000, -300_000, 300_000);
    assert_eq!(r.inset_width(6_000), 788_000);
    assert_eq!(r.inset_height(6_000), 588_000);
    assert_eq!(r.inset_width(0), 800_000);
}

#[test]
fn inset_that_crosses_leaves_the_distance() {
    let r = rect(0, 10_000, 0, 8_000);
    assert_eq!(r.inset_width(6_000), 2_000);
    assert_eq!(r.inset_height(6_000), 4_000);
    assert_eq!(r.inset_width(5_000), 0);
    assert_eq!(r.inset_width(10_000), 10_000);
}

#[test]
fn inset_wider_than_the_extent_leaves_it() {
    let r = rect(0, 4_000, 0, 5_999);
    assert_eq!(r.inset_width(6_000), 4_000);
    assert_eq!(r.inset_height(6_000), 5_999);
}

#[test]
fn inset_below_zero_widens() {
    let r = rect(0, 4_000, 0, 1_000);
    assert_eq!(r.inset_width(-500), 5_000);
    assert_eq!(r.inset_height(-1), 1_002);
}

#[test]
fn line_segments_compare_by_value() {
    let a = LineSegment {
        start: Point2D { x: 1, y: 2 },
        end: Point2D { x: 1, y: 9 },
        weight: 500,
    };
    let b = a;
    assert_eq!(a, b);
    assert_ne!(a, LineSegment { weight: 501, ..a });
}
