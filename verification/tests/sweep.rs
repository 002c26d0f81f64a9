use pongi_collision::geom::{Line, Point, Rect, Vec2};
use pongi_collision::mesh::CollisionMesh;

fn mesh_with(walls: &[(&str, Rect)]) -> CollisionMesh {
    let mut mesh = CollisionMesh::new(String::from("test_field"));
    for (name, rect) in walls {
        mesh.add_rect(String::from(*name), *rect);
    }
    mesh
}

#[test]
fn sweep_misses_when_the_ray_stops_short() {
    let mesh = mesh_with(&[("wall", Rect::from_bounds(100, 100, -50, 50))]);
    // Expanded left plane sits at x = 90; the ray ends at x = 80.
    let ray = Line::new(Point::new(0, 0), Point::new(80, 0));
    assert!(mesh.sweepcast_sphere(ray, 10).is_none());
}

#[test]
fn sweep_parallel_ray_never_hits() {
    let mesh = mesh_with(&[("wall", Rect::from_bounds(100, 100, -50, 50))]);
    // Vertical motion parallel to a vertical wall, outside its band.
    let ray = Line::new(Point::new(0, -200), Point::new(0, 200));
    assert!(mesh.sweepcast_sphere(ray, 10).is_none());
}

#[test]
fn sweep_reports_exact_contact_and_normal() {
    let mesh = mesh_with(&[("wall", Rect::from_bounds(100, 100, -50, 50))]);
    let ray = Line::new(Point::new(0, 0), Point::new(100, 33));
    let hit = mesh.sweepcast_sphere(ray, 50).expect("must hit");
    assert_eq!(hit.shape_index, 0);
    // The struck segment is the wall's left expanded face.
    assert_eq!(hit.segment_index, 3);
    assert_eq!((hit.t_num, hit.t_den), (50, 100));
    assert_eq!(hit.intersection.normal, Vec2::new(-1, 0));
    // Exact on the wall axis, rounded toward the ray start on the other.
    assert_eq!(hit.intersection.point, Point::new(50, 16));
}

#[test]
fn sweep_hit_exactly_at_ray_end_counts() {
    let mesh = mesh_with(&[("wall", Rect::from_bounds(100, 100, -50, 50))]);
    let ray = Line::new(Point::new(0, 0), Point::new(90, 0));
    let hit = mesh.sweepcast_sphere(ray, 10).expect("touching at the end is a hit");
    assert_eq!((hit.t_num, hit.t_den), (90, 90));
}

#[test]
fn sweep_picks_the_nearest_of_several_shapes() {
    let far = Rect::from_bounds(200, 200, -50, 50);
    let near = Rect::from_bounds(100, 100, -50, 50);
    let mesh = mesh_with(&[("far", far), ("near", near)]);
    let ray = Line::new(Point::new(0, 0), Point::new(300, 0));
    let hit = mesh.sweepcast_sphere(ray, 10).expect("must hit");
    assert_eq!(hit.shape_index, 1);
    assert_eq!(hit.intersection.point, Point::new(90, 0));
}

#[test]
fn sweep_tie_break_goes_to_the_first_registered() {
    // Two distinct walls whose expanded boundaries are crossed at exactly
    // the same ray parameter.
    let a = Rect::from_bounds(100, 100, -50, 50);
    let b = Rect::from_bounds(100, 100, -60, 60);
    let mesh = mesh_with(&[("a", a), ("b", b)]);
    let ray = Line::new(Point::new(0, 0), Point::new(200, 0));
    let hit = mesh.sweepcast_sphere(ray, 10).expect("must hit");
    assert_eq!(hit.shape_index, 0);

    // Deterministic: the same query resolves the same way every time.
    let again = mesh.sweepcast_sphere(ray, 10).expect("must hit");
    assert_eq!(hit, again);

    // Registering the walls in the other order flips the winner.
    let swapped = mesh_with(&[("b", b), ("a", a)]);
    let hit2 = swapped.sweepcast_sphere(ray, 10).expect("must hit");
    assert_eq!(hit2.shape_index, 0);
    assert_eq!(hit2.intersection.point, hit.intersection.point);
}

#[test]
fn mesh_keeps_registration_order() {
    let mesh = mesh_with(&[
        ("left_wall", Rect::from_bounds(-10, 0, 0, 100)),
        ("right_wall", Rect::from_bounds(200, 210, 0, 100)),
    ]);
    assert_eq!(mesh.shape_count(), 2);
    assert_eq!(mesh.shapes[0].name, "left_wall");
    assert_eq!(mesh.shapes[1].name, "right_wall");
    assert_eq!(mesh.name, "test_field");
}
