use pongi_collision::geom::{Line, Point, Rect, Vec2};
use pongi_collision::shape::RectSphereSum;

#[test]
fn expanded_segments_offset_each_edge_by_the_radius() {
    let rect = Rect::from_bounds(0, 100, 0, 50);
    let sum = RectSphereSum::new(&rect, 10);
    let segs = sum.segments();
    assert_eq!(segs.len(), 4);

    // bottom edge pushed down, tagged with the bottom normal
    assert_eq!(segs[0].line, Line::new(Point::new(-10, -10), Point::new(110, -10)));
    assert_eq!(segs[0].normal, Vec2::new(0, -1));
    // right edge pushed right
    assert_eq!(segs[1].line, Line::new(Point::new(110, -10), Point::new(110, 60)));
    assert_eq!(segs[1].normal, Vec2::new(1, 0));
    // top edge pushed up
    assert_eq!(segs[2].line, Line::new(Point::new(110, 60), Point::new(-10, 60)));
    assert_eq!(segs[2].normal, Vec2::new(0, 1));
    // left edge pushed left
    assert_eq!(segs[3].line, Line::new(Point::new(-10, 60), Point::new(-10, -10)));
    assert_eq!(segs[3].normal, Vec2::new(-1, 0));
}

#[test]
fn to_lines_matches_the_segments() {
    let rect = Rect::from_bounds(0, 100, 0, 50);
    let sum = RectSphereSum::new(&rect, 10);
    let segs = sum.segments();
    let lines = sum.to_lines();
    assert_eq!(lines.len(), 4);
    for j in 0..4 {
        assert_eq!(lines[j], segs[j].line);
    }
}

#[test]
fn degenerate_wall_expands_to_twice_the_radius() {
    // A zero-thickness vertical wall still grows into a band 2r wide.
    let rect = Rect::from_bounds(5, 5, -20, 20);
    let sum = RectSphereSum::new(&rect, 7);
    let lines = sum.to_lines();
    assert_eq!(lines[3], Line::new(Point::new(-2, 27), Point::new(-2, -27)));
    assert_eq!(lines[1], Line::new(Point::new(12, -27), Point::new(12, 27)));
}
