use pongi_collision::geom::{Line, Point, Rect, Vec2};

#[test]
fn vec2_constructors_and_arithmetic() {
    let a = Vec2::new(3, -4);
    let b = Vec2::new(10, 2);
    assert_eq!(a.plus(b), Vec2::new(13, -2));
    assert_eq!(a.minus(b), Vec2::new(-7, -6));
    assert_eq!(a.negated(), Vec2::new(-3, 4));
    assert_eq!(a.scaled(5), Vec2::new(15, -20));
    assert_eq!(Vec2::zero(), Vec2::new(0, 0));
}

#[test]
fn vec2_dot_and_distances() {
    let a = Vec2::new(3, -4);
    let b = Vec2::new(10, 2);
    assert_eq!(Vec2::dot(a, b), 22);
    assert_eq!(Vec2::distance_squared(a, b), 49 + 36);
    assert_eq!(a.magnitude_squared(), 25);
}

#[test]
fn vec2_reflection_negates_the_normal_axis() {
    let v = Vec2::new(7, -3);
    assert_eq!(v.reflected_on_normal(Vec2::new(1, 0)), Vec2::new(-7, -3));
    assert_eq!(v.reflected_on_normal(Vec2::new(-1, 0)), Vec2::new(-7, -3));
    assert_eq!(v.reflected_on_normal(Vec2::new(0, 1)), Vec2::new(7, 3));
    assert_eq!(v.reflected_on_normal(Vec2::new(0, -1)), Vec2::new(7, 3));
}

#[test]
fn rect_constructors_agree() {
    let r = Rect::from_xy_width_height(2, 3, 10, 20);
    assert_eq!(r, Rect::from_bounds(2, 12, 3, 23));
    assert_eq!(Rect::from_width_height(10, 20), Rect::from_bounds(0, 10, 0, 20));
    assert_eq!(
        Rect::from_point(Point::new(2, 3), 10, 20),
        Rect::from_bounds(2, 12, 3, 23)
    );
    assert_eq!(Rect::from_dimension(Vec2::new(4, 5)), Rect::from_bounds(0, 4, 0, 5));
    assert_eq!(
        Rect::from_point_dimension(Point::new(1, 1), Vec2::new(4, 5)),
        Rect::from_bounds(1, 5, 1, 6)
    );
    let z = Rect::zero();
    assert_eq!((z.left, z.right, z.bottom, z.top), (0, 0, 0, 0));
}

#[test]
fn rect_accessors() {
    let r = Rect::from_bounds(2, 12, 3, 23);
    assert_eq!(r.pos(), Point::new(2, 3));
    assert_eq!(r.dim(), Vec2::new(10, 20));
    assert_eq!(r.width(), 10);
    assert_eq!(r.height(), 20);
    assert_eq!(r.center(), Point::new(7, 13));
    // Odd extents round the midpoint down to the grid.
    assert_eq!(Rect::from_bounds(0, 5, 0, 3).center(), Point::new(2, 1));
}

#[test]
fn rect_translation_and_centering() {
    let r = Rect::from_bounds(2, 12, 3, 23);
    assert_eq!(r.translated_by(Vec2::new(5, -3)), Rect::from_bounds(7, 17, 0, 20));
    assert_eq!(r.translated_to_origin(), Rect::from_bounds(0, 10, 0, 20));
    assert_eq!(
        r.translated_to_pos(Point::new(100, 200)),
        Rect::from_bounds(100, 110, 200, 220)
    );
    assert_eq!(Rect::from_bounds(0, 10, 0, 20).centered(), Rect::from_bounds(-5, 5, -10, 10));
    assert_eq!(r.scaled_from_origin(2, 3), Rect::from_bounds(4, 24, 9, 69));
}

#[test]
fn border_lines_come_in_fixed_order() {
    let r = Rect::from_bounds(0, 10, 0, 20);
    let lines = r.to_border_lines();
    assert_eq!(lines.len(), 4);
    // bottom, right, top, left: counter-clockwise with y up.
    assert_eq!(lines[0], Line::new(Point::new(0, 0), Point::new(10, 0)));
    assert_eq!(lines[1], Line::new(Point::new(10, 0), Point::new(10, 20)));
    assert_eq!(lines[2], Line::new(Point::new(10, 20), Point::new(0, 20)));
    assert_eq!(lines[3], Line::new(Point::new(0, 20), Point::new(0, 0)));
}

#[test]
fn degenerate_rect_is_tolerated() {
    let r = Rect::from_bounds(5, 5, -3, -3);
    assert_eq!(r.width(), 0);
    assert_eq!(r.height(), 0);
    assert_eq!(r.center(), Point::new(5, -3));
    let lines = r.to_border_lines();
    assert_eq!(lines[0], Line::new(Point::new(5, -3), Point::new(5, -3)));
}
