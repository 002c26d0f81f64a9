//! Scenario tests for the elastic response resolver.  Coordinates use a
//! grid of 100 units per world unit; velocities are grid units per tick.

use pongi_collision::geom::{Point, Rect, Vec2};
use pongi_collision::mesh::{field_border_rects, CollisionMesh};
use pongi_collision::resolve::{
    move_sphere_with_full_elastic_collision, CollisionError, COLLISION_SAFETY_MARGIN,
};

fn mesh_with(walls: &[(&str, Rect)]) -> CollisionMesh {
    let mut mesh = CollisionMesh::new(String::from("play_field"));
    for (name, rect) in walls {
        mesh.add_rect(String::from(*name), *rect);
    }
    mesh
}

/// A square arena with zero-thickness walls at +-50 world units (+-5000
/// grid units), in registration order left, right, top, bottom.
fn square_arena() -> CollisionMesh {
    mesh_with(&[
        ("left_wall", Rect::from_bounds(-5000, -5000, -5000, 5000)),
        ("right_wall", Rect::from_bounds(5000, 5000, -5000, 5000)),
        ("top_wall", Rect::from_bounds(-5000, 5000, 5000, 5000)),
        ("bottom_wall", Rect::from_bounds(-5000, 5000, -5000, -5000)),
    ])
}

#[test]
fn square_arena_head_on_bounce_scenario() {
    // Body of radius 5 at (40, 0) moving (100, 0) world units per second,
    // stepped 0.2 s (2 ticks of 0.1 s): nominal travel 20 units, touching
    // the expanded wall plane at x = 50 - 5 = 45.
    let mesh = square_arena();
    let (pos, vel) = move_sphere_with_full_elastic_collision(
        &mesh,
        Point::new(4000, 0),
        Vec2::new(1000, 0),
        500,
        2,
    )
    .expect("resolves");
    // Velocity is reflected exactly.
    assert_eq!(vel, Vec2::new(-1000, 0));
    // The body stopped the safety margin short of x = 4500 (that is,
    // x = 4484) and spent the remaining travel moving left.
    assert_eq!(COLLISION_SAFETY_MARGIN, 16);
    assert_eq!(pos, Point::new(2968, 0));
}

#[test]
fn head_on_reflection_negates_velocity() {
    let mesh = mesh_with(&[("wall", Rect::from_bounds(5000, 5000, -5000, 5000))]);
    let (pos, vel) = move_sphere_with_full_elastic_collision(
        &mesh,
        Point::new(4000, 0),
        Vec2::new(1000, 0),
        500,
        1,
    )
    .expect("resolves");
    assert_eq!(vel, Vec2::new(-1000, 0));
    // Stop at 4500 - 16 = 4484, then travel the remaining 516 leftward.
    assert_eq!(pos, Point::new(3968, 0));
}

#[test]
fn pass_through_when_clear_is_exact() {
    let mesh = square_arena();
    let (pos, vel) = move_sphere_with_full_elastic_collision(
        &mesh,
        Point::new(0, 0),
        Vec2::new(100, 50),
        500,
        2,
    )
    .expect("resolves");
    assert_eq!(pos, Point::new(200, 100));
    assert_eq!(vel, Vec2::new(100, 50));
}

#[test]
fn diagonal_bounce_conserves_squared_speed() {
    let mesh = square_arena();
    let vel_in = Vec2::new(1000, 700);
    let (pos, vel) = move_sphere_with_full_elastic_collision(
        &mesh,
        Point::new(4000, 1000),
        vel_in,
        500,
        2,
    )
    .expect("resolves");
    assert_eq!(vel, Vec2::new(-1000, 700));
    assert_eq!(
        vel.magnitude_squared(),
        vel_in.magnitude_squared()
    );
    // One reflection at x = 4484 after 484 of 2000 x-travel; the y advance
    // rounds toward the start: 484 * 1400 / 2000 = 338.
    assert_eq!(pos, Point::new(2968, 2400));
}

#[test]
fn trapped_body_returns_overflow_error() {
    // Three walls meeting around a pocket: a narrow channel with an end
    // cap.  A fast body inside bounces wall to wall more than twice within
    // one step.
    let mesh = mesh_with(&[
        ("channel_left", Rect::from_bounds(0, 0, -1000, 1000)),
        ("channel_right", Rect::from_bounds(100, 100, -1000, 1000)),
        ("channel_cap", Rect::from_bounds(0, 100, 1000, 1000)),
    ]);
    let err = move_sphere_with_full_elastic_collision(
        &mesh,
        Point::new(50, 0),
        Vec2::new(10000, 0),
        10,
        1,
    )
    .expect_err("must overflow");
    assert_eq!(err, CollisionError::ResolutionOverflow);
    assert_eq!(
        err.message(),
        "collision loop exceeded its iteration limit within one frame"
    );
}

#[test]
fn body_closer_than_the_margin_does_not_move_backward() {
    let mesh = mesh_with(&[("wall", Rect::from_bounds(5000, 5000, -5000, 5000))]);
    // 10 grid units from the expanded plane at 4500: closer than the
    // margin of 16, so the reflection happens without any forward move.
    let (pos, vel) = move_sphere_with_full_elastic_collision(
        &mesh,
        Point::new(4490, 0),
        Vec2::new(1000, 0),
        500,
        1,
    )
    .expect("resolves");
    assert_eq!(vel, Vec2::new(-1000, 0));
    assert_eq!(pos, Point::new(3490, 0));
}

#[test]
fn zero_delta_time_is_a_no_op() {
    let mesh = square_arena();
    let (pos, vel) = move_sphere_with_full_elastic_collision(
        &mesh,
        Point::new(4000, 0),
        Vec2::new(1000, 0),
        500,
        0,
    )
    .expect("resolves");
    assert_eq!(pos, Point::new(4000, 0));
    assert_eq!(vel, Vec2::new(1000, 0));
}

#[test]
fn zero_velocity_stays_put() {
    let mesh = square_arena();
    let (pos, vel) = move_sphere_with_full_elastic_collision(
        &mesh,
        Point::new(4000, 0),
        Vec2::new(0, 0),
        500,
        7,
    )
    .expect("resolves");
    assert_eq!(pos, Point::new(4000, 0));
    assert_eq!(vel, Vec2::new(0, 0));
}

#[test]
fn field_border_rects_fence_the_bounds() {
    let bounds = Rect::from_bounds(-3200, 3200, -1920, 1920);
    let (left, right, top, bottom) = field_border_rects(bounds, 160);
    assert_eq!(left, Rect::from_bounds(-3360, -3200, -1920, 1920));
    assert_eq!(right, Rect::from_bounds(3200, 3360, -1920, 1920));
    assert_eq!(top, Rect::from_bounds(-3360, 3360, 1920, 2080));
    assert_eq!(bottom, Rect::from_bounds(-3360, 3360, -2080, -1920));
}

#[test]
fn bounces_resolve_in_chronological_order() {
    // Walls on both sides; the nearer one (right) is struck first even
    // though the left wall is registered first.
    let mesh = mesh_with(&[
        ("left_wall", Rect::from_bounds(-10000, -10000, -5000, 5000)),
        ("right_wall", Rect::from_bounds(1000, 1000, -5000, 5000)),
    ]);
    let (pos, vel) = move_sphere_with_full_elastic_collision(
        &mesh,
        Point::new(0, 0),
        Vec2::new(1000, 0),
        100,
        1,
    )
    .expect("resolves");
    // The right wall's expanded plane at x = 900 is struck first: stop at
    // 884, reflect, and spend the remaining 116 units moving left.
    assert_eq!(vel, Vec2::new(-1000, 0));
    assert_eq!(pos, Point::new(768, 0));
}
