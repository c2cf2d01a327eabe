use uiexplore::geometry::{Point, Rect};
use uiexplore::rectangle::{get_point_bounding_rect, is_inside_rectancle};
use uiexplore::uiexplore::{sort_elements, RawElement, UIElementProps, ROOT_Z_ORDER};

fn descriptor(name: &str, rect: (i32, i32, i32, i32), z_order: usize) -> UIElementProps {
    let (l, t, r, b) = rect;
    UIElementProps::new(
        RawElement {
            name: Some(name.to_string()),
            classname: None,
            control_type: None,
            localized_control_type: None,
            framework_id: None,
            runtime_id: None,
            bounding_rect: Some(Rect { left: l, top: t, right: r, bottom: b }),
        },
        0,
        z_order,
    )
}

#[test]
fn boundary_points_are_inside() {
    let rect = Rect { left: 10, top: 20, right: 110, bottom: 220 };
    assert!(is_inside_rectancle(&rect, 110, 100)); // x == right
    assert!(is_inside_rectancle(&rect, 10, 100)); // x == left
    assert!(is_inside_rectancle(&rect, 50, 20)); // y == top
    assert!(is_inside_rectancle(&rect, 50, 220)); // y == bottom
    assert!(is_inside_rectancle(&rect, 10, 20)); // corner
    assert!(!is_inside_rectancle(&rect, 111, 100));
    assert!(!is_inside_rectancle(&rect, 50, 221));
    assert!(!is_inside_rectancle(&rect, 9, 100));
}

#[test]
fn geometry_and_rectangle_tests_agree() {
    let rect = Rect { left: 0, top: 0, right: 5, bottom: 5 };
    for (x, y) in [(0, 0), (5, 5), (6, 5), (-1, 0), (3, 2)] {
        assert_eq!(
            uiexplore::geometry::is_inside_rectancle(&rect, x, y),
            is_inside_rectancle(&rect, x, y)
        );
    }
}

#[test]
fn first_match_wins_in_list_order() {
    let v = vec![
        descriptor("small-late-bucket", (0, 0, 500, 500), 1),
        descriptor("big-early-bucket", (0, 0, 1000, 1000), 0),
    ];
    // unsorted list: the scan is strictly first-match
    let hit = get_point_bounding_rect(&Point { x: 10, y: 10 }, &v).unwrap();
    assert_eq!(hit.name, "small-late-bucket");
}

#[test]
fn lower_bucket_wins_after_sorting() {
    let mut v = vec![
        descriptor("small-late-bucket", (0, 0, 500, 500), 1),
        descriptor("big-early-bucket", (0, 0, 1000, 1000), 0),
    ];
    sort_elements(&mut v);
    let hit = get_point_bounding_rect(&Point { x: 10, y: 10 }, &v).unwrap();
    assert_eq!(hit.name, "big-early-bucket");
}

#[test]
fn smaller_area_wins_within_one_bucket() {
    let mut v = vec![
        descriptor("outer", (0, 0, 1000, 1000), 3),
        descriptor("inner", (0, 0, 400, 400), 3),
    ];
    sort_elements(&mut v);
    let hit = get_point_bounding_rect(&Point { x: 10, y: 10 }, &v).unwrap();
    assert_eq!(hit.name, "inner");
    // outside the inner rectangle, the outer one still answers
    let hit = get_point_bounding_rect(&Point { x: 600, y: 600 }, &v).unwrap();
    assert_eq!(hit.name, "outer");
}

#[test]
fn sentinel_root_answers_only_as_last_resort() {
    let mut v = vec![
        descriptor("desktop", (0, 0, 2000, 2000), ROOT_Z_ORDER),
        descriptor("window-a", (0, 0, 500, 500), 0),
        descriptor("window-b", (0, 0, 1000, 1000), 1),
    ];
    sort_elements(&mut v);
    // inside both windows: the lowest bucket wins, area notwithstanding
    let hit = get_point_bounding_rect(&Point { x: 10, y: 10 }, &v).unwrap();
    assert_eq!(hit.name, "window-a");
    // inside window-b only
    let hit = get_point_bounding_rect(&Point { x: 700, y: 700 }, &v).unwrap();
    assert_eq!(hit.name, "window-b");
    // over neither window, the sentinel-bucket desktop still answers
    let hit = get_point_bounding_rect(&Point { x: 1500, y: 1500 }, &v).unwrap();
    assert_eq!(hit.name, "desktop");
}

#[test]
fn no_match_returns_none() {
    let mut v = vec![
        descriptor("a", (0, 0, 100, 100), 0),
        descriptor("b", (200, 200, 300, 300), 1),
    ];
    sort_elements(&mut v);
    assert!(get_point_bounding_rect(&Point { x: 150, y: 150 }, &v).is_none());
    assert!(get_point_bounding_rect(&Point { x: -1, y: 0 }, &v).is_none());
    let empty: Vec<UIElementProps> = Vec::new();
    assert!(get_point_bounding_rect(&Point { x: 0, y: 0 }, &empty).is_none());
}

#[test]
fn sort_orders_by_bucket_then_area() {
    let mut v = vec![
        descriptor("c", (0, 0, 30, 30), 2),
        descriptor("a-big", (0, 0, 100, 100), 0),
        descriptor("b", (0, 0, 50, 50), 1),
        descriptor("a-small", (0, 0, 10, 10), 0),
    ];
    sort_elements(&mut v);
    let names: Vec<&str> = v.iter().map(|e| e.name.as_str()).collect();
    assert_eq!(names, vec!["a-small", "a-big", "b", "c"]);
}
