use overlay_select::geometry::{keep_mouse_in_window, normalize, Point, SelectionRect};

fn rect(x: i32, y: i32, width: u32, height: u32) -> SelectionRect {
    SelectionRect { x, y, width, height }
}

#[test]
fn normalize_takes_the_smaller_corner() {
    let r = normalize(Point { x: 100, y: 100 }, Point { x: 300, y: 50 });
    assert_eq!(r, rect(100, 50, 200, 50));
}

#[test]
fn normalize_is_symmetric() {
    let a = Point { x: -7, y: 12 };
    let b = Point { x: 40, y: -3 };
    assert_eq!(normalize(a, b), normalize(b, a));
    assert_eq!(normalize(a, b), rect(-7, -3, 47, 15));
}

#[test]
fn normalize_without_movement_is_one_by_one() {
    let p = Point { x: 17, y: 23 };
    assert_eq!(normalize(p, p), rect(17, 23, 1, 1));
}

#[test]
fn normalize_floors_each_side_on_its_own() {
    let r = normalize(Point { x: 5, y: 9 }, Point { x: 5, y: 2 });
    assert_eq!(r, rect(5, 2, 1, 7));
}

#[test]
fn normalize_spans_the_whole_coordinate_range() {
    let r = normalize(Point { x: i32::MIN, y: i32::MAX }, Point { x: i32::MAX, y: i32::MIN });
    assert_eq!(r, rect(i32::MIN, i32::MIN, u32::MAX, u32::MAX));
}

#[test]
fn clamp_moves_a_negative_coordinate_to_zero() {
    let p = keep_mouse_in_window(Point { x: -20, y: 40 }, 1920, 1080);
    assert_eq!(p, Point { x: 0, y: 40 });
}

#[test]
fn clamp_moves_a_large_coordinate_to_the_edge() {
    let p = keep_mouse_in_window(Point { x: 5000, y: 1081 }, 1920, 1080);
    assert_eq!(p, Point { x: 1920, y: 1080 });
}

#[test]
fn clamp_keeps_a_position_inside() {
    let p = Point { x: 1920, y: 0 };
    assert_eq!(keep_mouse_in_window(p, 1920, 1080), p);
    let q = Point { x: 3, y: 1079 };
    assert_eq!(keep_mouse_in_window(q, 1920, 1080), q);
}

#[test]
fn clamp_with_a_bound_past_the_coordinate_range() {
    let p = keep_mouse_in_window(Point { x: i32::MAX, y: i32::MIN }, u32::MAX, u32::MAX);
    assert_eq!(p, Point { x: i32::MAX, y: 0 });
}

#[test]
fn clip_cuts_off_what_lies_outside() {
    assert_eq!(rect(-5, -5, 10, 10).clip(100, 100), Some(rect(0, 0, 5, 5)));
    assert_eq!(rect(95, 90, 10, 20).clip(100, 100), Some(rect(95, 90, 5, 10)));
    assert_eq!(rect(10, 20, 30, 40).clip(100, 100), Some(rect(10, 20, 30, 40)));
}

#[test]
fn clip_rejects_a_rectangle_outside() {
    assert_eq!(rect(100, 0, 1, 1).clip(100, 100), None);
    assert_eq!(rect(-10, 0, 10, 5).clip(100, 100), None);
    assert_eq!(rect(0, 0, 5, 5).clip(0, 10), None);
}

#[test]
fn outline_is_the_border_of_the_rectangle() {
    let r = rect(2, 3, 4, 3);
    assert!(r.is_on_outline(2, 3));
    assert!(r.is_on_outline(5, 5));
    assert!(r.is_on_outline(3, 3));
    assert!(r.is_on_outline(2, 4));
    assert!(!r.is_on_outline(3, 4));
    assert!(!r.is_on_outline(4, 4));
    assert!(!r.is_on_outline(6, 3));
    assert!(!r.is_on_outline(1, 3));
    assert!(!r.is_on_outline(2, 6));
}
