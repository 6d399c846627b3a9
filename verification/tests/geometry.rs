use pong_core::utils::{ball_collision, Collision, Vec2};

fn v(x: i64, y: i64) -> Vec2 {
    Vec2::new(x, y)
}

#[test]
fn circle_inside_box_reports_a_side() {
    // A circle entirely inside the box still reports a side, never "no
    // contact"; with a zero offset the classification falls to Bottom.
    let r = ball_collision(v(0, 0), 2, v(0, 0), v(10, 10));
    assert_eq!(r, Some(Collision::Bottom));
}

#[test]
fn circle_inside_box_off_center() {
    // Center inside the box, closest point is the center itself.
    let r = ball_collision(v(3, 2), 1, v(0, 0), v(10, 10));
    assert!(r.is_some());
}

#[test]
fn far_circle_reports_nothing() {
    let r = ball_collision(v(1000, 1000), 1, v(0, 0), v(10, 10));
    assert_eq!(r, None);
}

#[test]
fn side_boundary_classifies_top() {
    // Center (0, 11), radius 2, box center (0, 0), half-extents (10, 10):
    // closest point (0, 10), offset (0, 1), so the side is Top.
    let r = ball_collision(v(0, 11), 2, v(0, 0), v(10, 10));
    assert_eq!(r, Some(Collision::Top));
}

#[test]
fn side_boundary_classifies_bottom() {
    let r = ball_collision(v(0, -11), 2, v(0, 0), v(10, 10));
    assert_eq!(r, Some(Collision::Bottom));
}

#[test]
fn side_boundary_classifies_left_and_right() {
    assert_eq!(ball_collision(v(-11, 0), 2, v(0, 0), v(10, 10)), Some(Collision::Left));
    assert_eq!(ball_collision(v(11, 0), 2, v(0, 0), v(10, 10)), Some(Collision::Right));
}

#[test]
fn equal_offsets_fall_to_vertical_classification() {
    // The horizontal branch needs a strictly dominating horizontal offset;
    // on an exact tie the vertical classification decides.
    assert_eq!(ball_collision(v(13, 13), 5, v(0, 0), v(10, 10)), Some(Collision::Top));
    assert_eq!(ball_collision(v(13, -13), 5, v(0, 0), v(10, 10)), Some(Collision::Bottom));
}

#[test]
fn contact_at_exact_radius_counts() {
    // Distance to the closest point equals the radius: still a collision.
    let r = ball_collision(v(0, 12), 2, v(0, 0), v(10, 10));
    assert_eq!(r, Some(Collision::Top));
}

#[test]
fn separation_just_beyond_radius_does_not_count() {
    let r = ball_collision(v(0, 13), 2, v(0, 0), v(10, 10));
    assert_eq!(r, None);
}
