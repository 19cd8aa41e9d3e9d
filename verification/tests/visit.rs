use raxis::visit::{BreadthFirst, DepthFirst, ReverseBreadthFirst, VisitAction, VisitFrame};

fn children(node: u64) -> Vec<u64> {
    match node {
        1 => vec![2, 3],
        2 => vec![4, 5],
        3 => vec![6],
        _ => vec![],
    }
}

/// Enter/exit order of a deferring depth-first walk: `defer` decides per node.
fn dfs_events(defer: impl Fn(u64) -> bool) -> Vec<(char, u64)> {
    let mut dfs = DepthFirst::new(1);
    let mut events = Vec::new();
    let mut deferred_once = std::collections::HashSet::new();
    loop {
        while let Some(frame) = dfs.next() {
            if frame.exit {
                events.push(('x', frame.element));
                continue;
            }
            if defer(frame.element) && deferred_once.insert(frame.element) {
                dfs.defer(frame);
                continue;
            }
            events.push(('e', frame.element));
            dfs.enter(frame, &children(frame.element));
        }
        if !dfs.start_next_pass() {
            break;
        }
    }
    events
}

#[test]
fn depth_first_enters_children_in_order_and_exits_after_them() {
    assert_eq!(
        dfs_events(|_| false),
        vec![('e', 1), ('e', 2), ('e', 4), ('x', 4), ('e', 5), ('x', 5), ('x', 2), ('e', 3), ('e', 6), ('x', 6), ('x', 3), ('x', 1)]
    );
}

#[test]
fn deferred_subtrees_are_walked_in_a_later_pass() {
    assert_eq!(
        dfs_events(|n| n == 2),
        vec![('e', 1), ('e', 3), ('e', 6), ('x', 6), ('x', 3), ('x', 1), ('e', 2), ('e', 4), ('x', 4), ('e', 5), ('x', 5), ('x', 2)]
    );
}

#[test]
fn later_deferred_frames_come_first_in_the_next_pass() {
    let mut dfs = DepthFirst::new(1);
    let root = dfs.next().unwrap();
    dfs.enter(root, &[2, 3]);
    let a = dfs.next().unwrap();
    dfs.defer(a);
    let b = dfs.next().unwrap();
    dfs.defer(b);
    assert_eq!(dfs.deferred().len(), 2);
    assert_eq!(dfs.next(), Some(VisitFrame { element: 1, parent: None, exit: true }));
    assert!(dfs.start_next_pass());
    assert_eq!(dfs.next().map(|f| f.element), Some(3));
    assert_eq!(dfs.next().map(|f| f.element), Some(2));
    assert!(!dfs.start_next_pass());
}

#[test]
fn breadth_first_takes_children_in_reverse() {
    let mut bfs = BreadthFirst::new(1);
    let mut order = Vec::new();
    while let Some((node, parent)) = bfs.next() {
        order.push((node, parent));
        bfs.enqueue_children(node, &children(node));
    }
    assert_eq!(
        order,
        vec![(1, None), (3, Some(1)), (2, Some(1)), (6, Some(3)), (5, Some(2)), (4, Some(2))]
    );
    assert!(!bfs.start_next_pass());
}

#[test]
fn breadth_first_deferral() {
    let mut bfs = BreadthFirst::new(1);
    let mut order = Vec::new();
    let mut passes = 0;
    loop {
        while let Some((node, parent)) = bfs.next() {
            if node == 3 && passes == 0 {
                bfs.defer((node, parent));
                continue;
            }
            order.push(node);
            bfs.enqueue_children(node, &children(node));
        }
        passes += 1;
        if !bfs.start_next_pass() {
            break;
        }
    }
    assert_eq!(order, vec![1, 2, 5, 4, 3, 6]);
}

#[test]
fn reverse_breadth_first_visits_leaves_before_the_root() {
    let mut rbfs = ReverseBreadthFirst::new(1);
    while let Some((node, _)) = rbfs.next_to_expand() {
        rbfs.expand(node, &children(node));
    }
    let order: Vec<u64> = rbfs.into_visit_order().into_iter().map(|(n, _)| n).collect();
    assert_eq!(order, vec![6, 5, 4, 3, 2, 1]);
}

#[test]
fn visit_actions() {
    assert!(VisitAction::from(false).is_exit());
    assert!(!VisitAction::from(true).is_exit());
    assert!(!VisitAction::from(()).is_exit());
}
