use raxis::model::Axis;
use raxis::paint::{defers_paint, enter_ops, exit_ops, next_paint_layer, ElementPaint, PaintOp};

fn plain() -> ElementPaint {
    ElementPaint {
        translucent: false,
        owns_contents: true,
        shadows: vec![],
        background: false,
        style_rounded: false,
        border: false,
        scrolls: false,
        rounded_clip: false,
        widget: false,
    }
}

#[test]
fn elements_above_the_layer_are_deferred() {
    assert!(!defers_paint(None, 0));
    assert!(defers_paint(Some(1), 0));
    assert!(!defers_paint(Some(0), 0));
    assert!(!defers_paint(Some(-5), 0));
    assert!(defers_paint(None, -1));
    assert!(!defers_paint(Some(3), 3));
}

#[test]
fn next_layer_is_the_lowest_deferred_z_index() {
    assert_eq!(next_paint_layer(&[Some(5), Some(2), Some(9)], 0), 2);
    assert_eq!(next_paint_layer(&[None, Some(4)], -3), 0);
    assert_eq!(next_paint_layer(&[], 7), 7);
    assert_eq!(next_paint_layer(&[Some(i32::MAX)], 10), i32::MAX);
}

#[test]
fn box_is_painted_shadows_background_inset_border() {
    let e = ElementPaint {
        shadows: vec![false, true, false],
        background: true,
        style_rounded: true,
        border: true,
        ..plain()
    };
    assert_eq!(
        enter_ops(&e),
        vec![
            PaintOp::Shadow { index: 0 },
            PaintOp::Shadow { index: 2 },
            PaintOp::Background { rounded: true },
            PaintOp::Shadow { index: 1 },
            PaintOp::Border,
        ]
    );
    assert_eq!(exit_ops(&e, Some(true), Some(true)), vec![]);
}

#[test]
fn widget_owned_box_skips_the_element_box() {
    let e = ElementPaint {
        owns_contents: false,
        shadows: vec![false],
        background: true,
        widget: true,
        ..plain()
    };
    assert_eq!(enter_ops(&e), vec![PaintOp::Widget]);
}

#[test]
fn translucent_scrolling_element_opens_and_closes_scopes() {
    let e = ElementPaint {
        translucent: true,
        scrolls: true,
        rounded_clip: true,
        background: true,
        widget: true,
        ..plain()
    };
    assert_eq!(
        enter_ops(&e),
        vec![
            PaintOp::PushLayer,
            PaintOp::Background { rounded: false },
            PaintOp::PushClip { rounded: true },
            PaintOp::Widget,
        ]
    );
    assert_eq!(
        exit_ops(&e, Some(true), None),
        vec![
            PaintOp::PushTrackClip { axis: Axis::X },
            PaintOp::Track { axis: Axis::X },
            PaintOp::Thumb { axis: Axis::X },
            PaintOp::PopTrackClip { axis: Axis::X },
            PaintOp::PopClip { rounded: true },
            PaintOp::PopLayer,
        ]
    );
    assert_eq!(
        exit_ops(&ElementPaint { translucent: false, rounded_clip: false, ..e }, None, Some(false)),
        vec![
            PaintOp::Track { axis: Axis::Y },
            PaintOp::Thumb { axis: Axis::Y },
            PaintOp::PopClip { rounded: false },
        ]
    );
}

use raxis::paint::{paint_layers, record_pass, PaintNode, PaintStep};

fn node(paint: ElementPaint, children: Vec<usize>, z_index: Option<i32>) -> PaintNode {
    PaintNode { paint, children, tracks: (None, None), z_index }
}

fn steps(v: &[(u64, PaintOp)]) -> Vec<PaintStep> {
    v.iter().map(|&(element, op)| PaintStep { element, op }).collect()
}

#[test]
fn layers_are_painted_lowest_first_each_subtree_whole() {
    let widget = ElementPaint { widget: true, ..plain() };
    let layer = ElementPaint { translucent: true, ..plain() };
    let nodes = vec![
        node(ElementPaint { background: true, ..plain() }, vec![1, 2], None),
        node(layer, vec![3], Some(5)),
        node(widget, vec![], None),
        node(ElementPaint { widget: true, ..plain() }, vec![], Some(2)),
    ];
    let r = paint_layers(&nodes, 0, nodes.len());
    assert_eq!(
        r,
        steps(&[
            (0, PaintOp::Background { rounded: false }),
            (2, PaintOp::Widget),
            (1, PaintOp::PushLayer),
            (3, PaintOp::Widget),
            (1, PaintOp::PopLayer),
        ])
    );
}

#[test]
fn deferred_elements_come_in_the_order_met_and_passes_take_the_last_root_first() {
    let w = || ElementPaint { widget: true, ..plain() };
    let nodes = vec![
        node(w(), vec![1, 2, 3], None),
        node(w(), vec![], Some(1)),
        node(w(), vec![], Some(1)),
        node(w(), vec![], Some(3)),
    ];
    let flags = vec![false, true, true, true];
    let (ops, later) = record_pass(&nodes, &vec![0], &flags, 4);
    assert_eq!(ops, steps(&[(0, PaintOp::Widget)]));
    assert_eq!(later, vec![1, 2, 3]);
    let (ops, later) = record_pass(&nodes, &vec![1, 2], &vec![false; 4], 4);
    assert_eq!(ops, steps(&[(2, PaintOp::Widget), (1, PaintOp::Widget)]));
    assert!(later.is_empty());
    let all = paint_layers(&nodes, 0, 4);
    let order: Vec<u64> = all.iter().map(|s| s.element).collect();
    assert_eq!(order, vec![0, 2, 1, 3]);
}

#[test]
fn a_deferred_root_is_painted_in_its_own_layer() {
    let nodes = vec![node(ElementPaint { widget: true, ..plain() }, vec![], Some(4))];
    assert_eq!(paint_layers(&nodes, 0, 1), steps(&[(0, PaintOp::Widget)]));
    assert_eq!(paint_layers(&nodes, 0, 0), vec![]);
}

#[test]
fn the_arena_size_is_depth_enough_for_a_chain() {
    let w = || ElementPaint { widget: true, ..plain() };
    let nodes = vec![
        node(w(), vec![1], None),
        node(w(), vec![2], Some(1)),
        node(w(), vec![3], None),
        node(w(), vec![], None),
    ];
    let whole = paint_layers(&nodes, 0, nodes.len());
    assert_eq!(whole, paint_layers(&nodes, 0, 40));
    let order: Vec<u64> = whole.iter().map(|s| s.element).collect();
    assert_eq!(order, vec![0, 1, 2, 3]);
    assert_eq!(paint_layers(&nodes, 0, 1), steps(&[(0, PaintOp::Widget)]));
}
