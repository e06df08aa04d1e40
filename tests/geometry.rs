use racing_sim::angle::{cos, sin, wrap_angle, FULL_TURN, HALF_TURN, QUARTER_TURN, TRIG_ONE};
use racing_sim::bounding_box::{BoundingBox, Rect};
use racing_sim::frame::{FrameClock, FRAME_STEP};
use racing_sim::geometry::{isqrt, FVec, Line};

// One pixel is a thousand units.
const PX: i64 = 1000;

#[test]
fn test_contains() {
    let bounding_box = BoundingBox::new_with_origin(&Rect { x: 0, y: 0, w: PX, h: PX }, FVec { x: 0, y: 0 });
    let (points, lines) = bounding_box.get_coordinates();
    assert_eq!(4, points.len(), "should have 4 points");
    assert_eq!(4, lines.len());
    assert_eq!(true, bounding_box.contains(&FVec { x: PX / 2, y: PX / 2 }), "not working");
    assert_eq!(false, bounding_box.contains(&FVec { x: 3 * PX / 2, y: 3 * PX / 2 }), "not working");
}

#[test]
fn test_project_on_same_vec() {
    let (v1, v2) = (FVec::new(0, PX), FVec::new(0, PX));
    let projection = v1.project_on(&v2);
    assert_eq!(projection.x, 0, "should equal");
    assert_eq!(projection.y, PX, "should equal");
}

#[test]
fn test_project_on_0_2_0_1() {
    let (v1, v2) = (FVec::new(0, 2 * PX), FVec::new(0, PX));
    let projection = v1.project_on(&v2);
    assert_eq!(projection.x, 0, "should equal");
    assert_eq!(projection.y, 2 * PX, "should equal");
}

#[test]
fn test_project_on_0_2_1_0() {
    let (v1, v2) = (FVec::new(0, 2 * PX), FVec::new(PX, 0));
    let projection = v1.project_on(&v2);
    assert_eq!(projection.x, 0, "should equal");
    assert_eq!(projection.y, 0, "should equal");
}

#[test]
fn test_project_on_1_1_1_0() {
    let (v1, v2) = (FVec::new(PX, PX), FVec::new(PX, 0));
    let mut projection = v1.project_on(&v2);
    assert_eq!(projection.x, PX, "should equal");
    assert_eq!(projection.y, 0, "should equal");

    projection = v2.project_on(&v1);
    assert_eq!(projection.x, PX / 2, "should equal");
    assert_eq!(projection.y, PX / 2, "should equal");
}

#[test]
fn test_project_on_opposite_dir() {
    let (v1, v2) = (FVec::new(PX, PX), FVec::new(-PX, 0));
    let projection = v1.project_on(&v2);
    assert_eq!(projection.x, PX, "should equal");
    assert_eq!(projection.y, 0, "should equal");
}

#[test]
fn project_on_zero_vector_gives_zero() {
    let p = FVec::new(3, 4).project_on(&FVec::new(0, 0));
    assert_eq!(p, FVec::new(0, 0));
}

#[test]
fn parallel_lines_do_not_intersect() {
    let a = Line::new(0, 0, PX, 0);
    let b = Line::new(0, PX, PX, PX);
    assert_eq!(a.intersect(&b), None);
    assert_eq!(a.distance(&b), None);
}

#[test]
fn crossing_lines_meet_in_the_middle() {
    let a = Line::new(0, 0, 2 * PX, 2 * PX);
    let b = Line::new(0, 2 * PX, 2 * PX, 0);
    assert_eq!(a.intersect(&b), Some(FVec::new(PX, PX)));
    // 1414.2 units from the start, rounded down
    assert_eq!(a.distance(&b), Some(1414));
}

#[test]
fn segments_that_would_cross_beyond_their_ends_do_not_meet() {
    let a = Line::new(0, 0, PX, 0);
    let b = Line::new(2 * PX, -PX, 2 * PX, PX);
    assert_eq!(a.intersect(&b), None);
}

#[test]
fn degenerate_lines_resolve_quietly() {
    let dot = Line::new(5, 5, 5, 5);
    let other = Line::new(0, 0, 10, 10);
    assert_eq!(dot.intersect(&other), None);
    assert_eq!(dot.projection(&FVec::new(1, 2)), Some(FVec::new(0, 0)));
}

#[test]
fn projection_onto_segment() {
    let l = Line::new(0, 0, 10 * PX, 0);
    assert_eq!(l.projection(&FVec::new(3 * PX, 7 * PX)), Some(FVec::new(3 * PX, 0)));
    assert_eq!(l.projection(&FVec::new(-PX, 0)), None);
    assert_eq!(l.projection(&FVec::new(11 * PX, 0)), None);
}

#[test]
fn distance_between_points() {
    assert_eq!(FVec::new(0, 0).distance(&FVec::new(3 * PX, 4 * PX)), 5 * PX);
    assert_eq!(FVec::new(1, 1).distance(&FVec::new(2, 2)), 1);
}

#[test]
fn integer_square_roots() {
    assert_eq!(isqrt(0), 0);
    assert_eq!(isqrt(15), 3);
    assert_eq!(isqrt(16), 4);
    assert_eq!(isqrt(1_000_000_000_000), 1_000_000);
}

#[test]
fn vector_arithmetic() {
    let a = FVec::new(3, -4);
    let b = FVec::new(0, 7);
    assert_eq!(a.add(b), FVec::new(3, 3));
    assert_eq!(a.sub(b), FVec::new(3, -11));
    assert_eq!(a.dot(&b), -28);
}

#[test]
fn trig_is_exact_at_quarter_turns() {
    assert_eq!(sin(0), 0);
    assert_eq!(cos(0), TRIG_ONE);
    assert_eq!(sin(QUARTER_TURN), TRIG_ONE);
    assert_eq!(cos(QUARTER_TURN), 0);
    assert_eq!(sin(HALF_TURN), 0);
    assert_eq!(cos(HALF_TURN), -TRIG_ONE);
    assert_eq!(sin(3 * QUARTER_TURN), -TRIG_ONE);
}

#[test]
fn trig_stays_close_to_the_true_values() {
    // a sixth of a turn: sin = 0.866, cos = 0.5
    let a = FULL_TURN / 6;
    assert!((sin(a) - 866_025).abs() < 2_000);
    assert!((cos(a) - 500_000).abs() < 2_000);
}

#[test]
fn angles_wrap_into_one_turn() {
    assert_eq!(wrap_angle(-1), FULL_TURN as i64 - 1);
    assert_eq!(wrap_angle(FULL_TURN as i128), 0);
    assert_eq!(wrap_angle(3 * FULL_TURN as i128 + 5), 5);
}

#[test]
fn turning_keeps_rotation_in_range() {
    let mut b = BoundingBox::new(&Rect { x: 0, y: 0, w: 10 * PX, h: 10 * PX });
    for delta in [-7_000_000i64, 1_000_000, -1, 12_000_000, -FULL_TURN, i64::MIN, i64::MAX] {
        b.turn_at(delta);
        assert!(0 <= b.rotate && b.rotate < FULL_TURN);
        assert_eq!(b.points.len(), 4);
        assert_eq!(b.lines.len(), 4);
    }
    let mut c = BoundingBox::new(&Rect { x: 0, y: 0, w: 10 * PX, h: 10 * PX });
    c.turn_at(-QUARTER_TURN);
    assert_eq!(c.rotate, 3 * QUARTER_TURN);
}

#[test]
fn a_quarter_turn_rotates_the_corners_about_the_pivot() {
    let mut b = BoundingBox::new(&Rect { x: 0, y: 0, w: 2 * PX, h: PX });
    b.turn_at(QUARTER_TURN);
    assert_eq!(b.points[0], FVec::new(0, 0));
    assert_eq!(b.points[1], FVec::new(0, 2 * PX));
    assert_eq!(b.points[2], FVec::new(-PX, 2 * PX));
    assert_eq!(b.points[3], FVec::new(-PX, 0));
    assert_eq!(b.lines[3], Line { start: b.points[3], end: b.points[0] });
    assert_eq!(b.get_center(), Some(FVec::new(-PX / 2, PX)));
}

#[test]
fn moving_follows_the_heading() {
    let mut b = BoundingBox::new(&Rect { x: 0, y: 0, w: PX, h: PX });
    b.move_at(5 * PX);
    assert_eq!((b.rect.x, b.rect.y), (5 * PX, 0));
    b.turn_at(QUARTER_TURN);
    b.move_at(2 * PX);
    assert_eq!((b.rect.x, b.rect.y), (5 * PX, 2 * PX));
    b.reset_to(&FVec::new(-PX, -PX), -HALF_TURN);
    assert_eq!((b.rect.x, b.rect.y, b.rotate), (-PX, -PX, HALF_TURN));
}

#[test]
fn frame_clock_gives_whole_steps_and_carries_the_rest() {
    let mut clock = FrameClock::new();
    clock.restart(1_000_000);
    assert_eq!(clock.advance(1_010_000), 0);
    assert_eq!(clock.accumulated_delta, 10_000);
    assert_eq!(clock.advance(1_050_000), 2);
    assert_eq!(clock.accumulated_delta, 50_000 - 2 * FRAME_STEP);
    // a step's worth exactly waits for more time
    let mut c = FrameClock::new();
    c.restart(0);
    assert_eq!(c.advance(FRAME_STEP), 0);
    // a clock that goes back adds nothing
    assert_eq!(c.advance(-5), 0);
    assert_eq!(c.accumulated_delta, FRAME_STEP);
}
