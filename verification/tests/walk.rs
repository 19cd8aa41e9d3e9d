use raxis::visit::VisitFrame;
use raxis::walk::{depth_first_walk, reverse_breadth_first_walk};

/// Node 0 has children 1 and 2; node 1 has 3 and 4; node 2 has 5.
fn sample_tree() -> Vec<Vec<u64>> {
    vec![vec![1, 2], vec![3, 4], vec![5], vec![], vec![], vec![]]
}

fn events(frames: &[VisitFrame]) -> Vec<(char, u64)> {
    frames.iter().map(|f| (if f.exit { 'x' } else { 'e' }, f.element)).collect()
}

#[test]
fn depth_first_walk_visits_in_pre_order_and_leaves_after_descendants() {
    let tree = sample_tree();
    let frames = depth_first_walk(&tree, 0, &vec![false; 6]);
    assert_eq!(
        events(&frames),
        vec![
            ('e', 0),
            ('e', 1),
            ('e', 3),
            ('x', 3),
            ('e', 4),
            ('x', 4),
            ('x', 1),
            ('e', 2),
            ('e', 5),
            ('x', 5),
            ('x', 2),
            ('x', 0),
        ]
    );
    assert_eq!(frames[0].parent, None);
    assert_eq!(frames[2].parent, Some(1));
    assert_eq!(frames[8].parent, Some(2));
}

#[test]
fn depth_first_walk_stops_right_after_an_exit() {
    let tree = sample_tree();
    let mut stops = vec![false; 6];
    stops[4] = true;
    let frames = depth_first_walk(&tree, 0, &stops);
    assert_eq!(events(&frames), vec![('e', 0), ('e', 1), ('e', 3), ('x', 3), ('e', 4)]);
}

#[test]
fn depth_first_walk_of_a_subtree() {
    let tree = sample_tree();
    let frames = depth_first_walk(&tree, 2, &vec![false; 6]);
    assert_eq!(events(&frames), vec![('e', 2), ('e', 5), ('x', 5), ('x', 2)]);
    assert_eq!(frames[0].parent, None);
    assert_eq!(frames[1].parent, Some(2));
}

#[test]
fn reverse_breadth_first_walk_ends_at_the_root() {
    let tree = sample_tree();
    let order = reverse_breadth_first_walk(&tree, 0);
    assert_eq!(
        order,
        vec![(5, Some(2)), (4, Some(1)), (3, Some(1)), (2, Some(0)), (1, Some(0)), (0, None)]
    );
}

#[test]
fn reverse_breadth_first_walk_of_a_leaf() {
    let tree = sample_tree();
    assert_eq!(reverse_breadth_first_walk(&tree, 3), vec![(3, None)]);
}
