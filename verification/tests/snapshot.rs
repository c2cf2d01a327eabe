use uiexplore::builder::{BuildStep, SnapshotBuilder};
use uiexplore::geometry::{Point, Rect};
use uiexplore::uiexplore::{RawElement, UIElementProps, UITree, ROOT_Z_ORDER};

/// One node of a scripted accessibility tree used to drive the builder.
struct FakeNode {
    name: &'static str,
    rect: (i32, i32, i32, i32),
    children: Vec<usize>,
}

fn fake_raw(node: &FakeNode) -> RawElement {
    let (l, t, r, b) = node.rect;
    RawElement {
        name: Some(node.name.to_string()),
        classname: Some(format!("{}Class", node.name)),
        control_type: Some("Pane".to_string()),
        localized_control_type: Some("pane".to_string()),
        framework_id: Some("Win32".to_string()),
        runtime_id: Some(vec![7, 42]),
        bounding_rect: Some(Rect { left: l, top: t, right: r, bottom: b }),
    }
}

fn parent_of(nodes: &[FakeNode], id: usize) -> Option<usize> {
    for (p, n) in nodes.iter().enumerate() {
        if n.children.contains(&id) {
            return Some(p);
        }
    }
    None
}

/// Walk the scripted tree exactly as a live provider would be walked:
/// perform the call the builder asks for and feed back the answer.
fn drive(nodes: &[FakeNode], max_depth: Option<usize>) -> UITree {
    let mut b = SnapshotBuilder::new(fake_raw(&nodes[0]), max_depth);
    // arena handle -> scripted node id
    let mut src: Vec<usize> = vec![0];
    loop {
        match b.pending() {
            BuildStep::AskFirstChild(h) => {
                let fid = src[h];
                match nodes[fid].children.first() {
                    Some(&cid) => {
                        b.step(Some(fake_raw(&nodes[cid])));
                        src.push(cid);
                    }
                    None => b.step(None),
                }
            }
            BuildStep::AskNextSibling(h) => {
                let fid = src[h];
                let p = parent_of(nodes, fid).expect("non-root node has a parent");
                let pos = nodes[p].children.iter().position(|&c| c == fid).unwrap();
                match nodes[p].children.get(pos + 1) {
                    Some(&sid) => {
                        b.step(Some(fake_raw(&nodes[sid])));
                        src.push(sid);
                    }
                    None => b.step(None),
                }
            }
            BuildStep::Finished => break,
        }
    }
    b.finish()
}

/// Desktop with two windows; window A has two children, window B one,
/// and A's first child has one grandchild.
fn sample_tree() -> Vec<FakeNode> {
    vec![
        FakeNode { name: "Desktop", rect: (0, 0, 1000, 1000), children: vec![1, 2] },
        FakeNode { name: "WindowA", rect: (0, 0, 500, 500), children: vec![3, 4] },
        FakeNode { name: "WindowB", rect: (100, 100, 900, 900), children: vec![5] },
        FakeNode { name: "A1", rect: (0, 0, 200, 200), children: vec![6] },
        FakeNode { name: "A2", rect: (200, 200, 400, 400), children: vec![] },
        FakeNode { name: "B1", rect: (150, 150, 300, 300), children: vec![] },
        FakeNode { name: "A1a", rect: (0, 0, 100, 100), children: vec![] },
    ]
}

fn node_named<'a>(tree: &'a UITree, name: &str) -> (usize, &'a UIElementProps) {
    for i in 0..tree.get_tree().len() {
        let (_, props) = tree.node(i);
        if props.name == name {
            return (i, props);
        }
    }
    panic!("no node named {}", name);
}

#[test]
fn structure_follows_enumeration_order() {
    let tree = drive(&sample_tree(), None);
    assert_eq!(tree.get_tree().len(), 7);
    assert_eq!(tree.root(), 0);

    let (a, _) = node_named(&tree, "WindowA");
    let (bw, _) = node_named(&tree, "WindowB");
    let (a1, _) = node_named(&tree, "A1");
    let (a2, _) = node_named(&tree, "A2");
    let (b1, _) = node_named(&tree, "B1");
    let (a1a, _) = node_named(&tree, "A1a");

    // sibling order is exactly the provider's enumeration order
    assert_eq!(tree.children(0), &[a, bw]);
    assert_eq!(tree.children(a), &[a1, a2]);
    assert_eq!(tree.children(bw), &[b1]);
    assert_eq!(tree.children(a1), &[a1a]);
    assert_eq!(tree.children(a2), &[] as &[usize]);
}

#[test]
fn every_non_root_node_has_exactly_one_parent() {
    let tree = drive(&sample_tree(), None);
    let n = tree.get_tree().len();
    for i in 1..n {
        let mut occurrences = 0;
        for p in 0..n {
            occurrences += tree.children(p).iter().filter(|&&c| c == i).count();
        }
        assert_eq!(occurrences, 1, "node {} must sit in exactly one child list", i);
    }
    // the root sits in no child list
    for p in 0..n {
        assert!(!tree.children(p).contains(&0));
    }
}

#[test]
fn levels_count_distance_from_root() {
    let tree = drive(&sample_tree(), None);
    assert_eq!(node_named(&tree, "Desktop").1.level, 0);
    assert_eq!(node_named(&tree, "WindowA").1.level, 1);
    assert_eq!(node_named(&tree, "WindowB").1.level, 1);
    assert_eq!(node_named(&tree, "A1").1.level, 2);
    assert_eq!(node_named(&tree, "A1a").1.level, 3);
}

#[test]
fn paint_order_buckets_increase_and_inherit() {
    let tree = drive(&sample_tree(), None);
    // the root is pinned to the sentinel bucket
    assert_eq!(node_named(&tree, "Desktop").1.z_order, ROOT_Z_ORDER);
    // direct children of the root get strictly increasing buckets
    assert_eq!(node_named(&tree, "WindowA").1.z_order, 0);
    assert_eq!(node_named(&tree, "WindowB").1.z_order, 1);
    // every descendant carries its top-level ancestor's bucket
    assert_eq!(node_named(&tree, "A1").1.z_order, 0);
    assert_eq!(node_named(&tree, "A2").1.z_order, 0);
    assert_eq!(node_named(&tree, "A1a").1.z_order, 0);
    assert_eq!(node_named(&tree, "B1").1.z_order, 1);
}

#[test]
fn depth_zero_keeps_only_the_root() {
    let tree = drive(&sample_tree(), Some(0));
    assert_eq!(tree.get_tree().len(), 1);
    assert_eq!(tree.get_elements().len(), 1);
    assert_eq!(tree.node(0).1.name, "Desktop");
}

#[test]
fn depth_one_keeps_root_and_top_level_windows() {
    let tree = drive(&sample_tree(), Some(1));
    assert_eq!(tree.get_tree().len(), 3);
    let names: Vec<&str> = (0..3).map(|i| tree.node(i).1.name.as_str()).collect();
    assert!(names.contains(&"Desktop"));
    assert!(names.contains(&"WindowA"));
    assert!(names.contains(&"WindowB"));
}

#[test]
fn published_list_is_sorted_by_bucket_then_area() {
    let tree = drive(&sample_tree(), None);
    let elems = tree.get_elements();
    assert_eq!(elems.len(), 7);
    for w in elems.windows(2) {
        assert!(
            w[0].z_order < w[1].z_order
                || (w[0].z_order == w[1].z_order
                    && w[0].bounding_rect_size <= w[1].bounding_rect_size),
            "published order must be ascending (bucket, area)"
        );
    }
}

#[test]
fn derived_area_is_the_exact_product() {
    let raw = RawElement {
        name: None,
        classname: None,
        control_type: None,
        localized_control_type: None,
        framework_id: None,
        runtime_id: None,
        bounding_rect: Some(Rect { left: 100, top: 200, right: 600, bottom: 450 }),
    };
    let props = UIElementProps::new(raw, 0, 0);
    assert_eq!(props.bounding_rect_size, 500 * 250);
}

#[test]
fn missing_properties_fall_back_to_documented_defaults() {
    let raw = RawElement {
        name: None,
        classname: None,
        control_type: None,
        localized_control_type: None,
        framework_id: None,
        runtime_id: None,
        bounding_rect: None,
    };
    let props = UIElementProps::new(raw, 2, 5);
    assert_eq!(props.name, "");
    assert_eq!(props.classname, "");
    assert_eq!(props.control_type, "");
    assert_eq!(props.localized_control_type, "");
    assert_eq!(props.framework_id, "");
    assert_eq!(props.runtime_id, Vec::<i32>::new());
    assert_eq!(props.bounding_rect, Rect { left: 0, top: 0, right: 0, bottom: 0 });
    assert_eq!(props.bounding_rect_size, 0);
    assert_eq!(props.level, 2);
    assert_eq!(props.z_order, 5);
}

#[test]
fn node_labels_show_the_descriptor() {
    let raw = RawElement {
        name: Some("Button1".to_string()),
        classname: Some("XButton".to_string()),
        control_type: Some("Button".to_string()),
        localized_control_type: Some("button".to_string()),
        framework_id: Some("Win32".to_string()),
        runtime_id: Some(vec![42, -7, 0]),
        bounding_rect: Some(Rect { left: 0, top: 0, right: 10, bottom: 10 }),
    };
    let b = SnapshotBuilder::new(raw, Some(0));
    let tree = b.finish();
    let (label, _) = tree.node(0);
    assert_eq!(label, "'Button1' button (XButton | Win32 | 42--7-0)");
}

#[test]
fn label_of_defaulted_node_is_mostly_blank() {
    let raw = RawElement {
        name: None,
        classname: None,
        control_type: None,
        localized_control_type: None,
        framework_id: None,
        runtime_id: None,
        bounding_rect: None,
    };
    let b = SnapshotBuilder::new(raw, Some(0));
    let tree = b.finish();
    let (label, _) = tree.node(0);
    assert_eq!(label, "''  ( |  | )");
}

#[test]
fn for_each_visits_every_node_in_handle_order() {
    let tree = drive(&sample_tree(), None);
    let mut seen: Vec<usize> = Vec::new();
    tree.for_each(|i, _props| seen.push(i));
    assert_eq!(seen, vec![0, 1, 2, 3, 4, 5, 6]);
}

#[test]
fn find_at_prefers_topmost_then_smallest() {
    let tree = drive(&sample_tree(), None);
    // bucket 0 covers the point; its smallest covering rectangle answers
    let hit = tree.find_at(&Point { x: 60, y: 60 }).unwrap();
    assert_eq!(hit.name, "A1a");
    // both buckets cover the point; the lower bucket answers even though
    // the other bucket holds a smaller covering rectangle
    let hit = tree.find_at(&Point { x: 160, y: 160 }).unwrap();
    assert_eq!(hit.name, "A1");
    // only the sentinel-bucket root covers the point
    let hit = tree.find_at(&Point { x: 950, y: 950 }).unwrap();
    assert_eq!(hit.name, "Desktop");
    // no rectangle covers the point
    assert!(tree.find_at(&Point { x: 1500, y: 0 }).is_none());
}

#[test]
fn rescan_builds_an_independent_snapshot() {
    let first = drive(&sample_tree(), None);
    let second = drive(&sample_tree(), Some(1));
    // the old snapshot is untouched by the new walk
    assert_eq!(first.get_tree().len(), 7);
    assert_eq!(second.get_tree().len(), 3);
}
