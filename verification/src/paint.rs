//! The painter's decisions: which drawing operations an element records, in
//! which order, and in which z-index pass it is painted.
use crate::model::Axis;
use vstd::prelude::*;

verus! {

// ---------------------------------------------------------------------------
// Z-index passes
// ---------------------------------------------------------------------------

/// An element's z-index; elements without one sit at 0.
pub open spec fn z_of(z_index: Option<i32>) -> i32 {
    match z_index {
        Some(z) => z,
        None => 0,
    }
}

/// Whether an element is left for a later pass: its z-index lies above the
/// layer being painted.
pub fn defers_paint(z_index: Option<i32>, current: i32) -> (r: bool)
    ensures
        r == (z_of(z_index) > current),
{
    let z = match z_index {
        Some(z) => z,
        None => 0,
    };
    z > current
}

/// The lowest z-index among `zs` (`i32::MAX` for none).
pub open spec fn lowest_layer(zs: Seq<Option<i32>>) -> i32
    decreases zs.len(),
{
    if zs.len() == 0 {
        i32::MAX
    } else {
        let rest = lowest_layer(zs.drop_last());
        let z = z_of(zs.last());
        if z < rest {
            z
        } else {
            rest
        }
    }
}

/// The layer of the next pass: the lowest z-index among the deferred
/// elements; with nothing deferred the layer stays.
pub fn next_paint_layer(deferred: &[Option<i32>], current: i32) -> (r: i32)
    ensures
        deferred@.len() == 0 ==> r == current,
        deferred@.len() > 0 ==> r == lowest_layer(deferred@),
{
    if deferred.len() == 0 {
        return current;
    }
    let mut next: i32 = i32::MAX;
    let mut i: usize = 0;
    while i < deferred.len()
        invariant
            i <= deferred@.len(),
            next == lowest_layer(deferred@.subrange(0, i as int)),
        decreases deferred@.len() - i,
    {
        assert(deferred@.subrange(0, (i + 1) as int).drop_last() =~= deferred@.subrange(0, i as int));
        let z = match deferred[i] {
            Some(z) => z,
            None => 0,
        };
        if z < next {
            next = z;
        }
        i += 1;
    }
    assert(deferred@.subrange(0, deferred@.len() as int) =~= deferred@);
    next
}

proof fn lemma_lowest_layer_bounds(zs: Seq<Option<i32>>)
    requires
        zs.len() > 0,
    ensures
        forall|i: int| 0 <= i < zs.len() ==> lowest_layer(zs) <= z_of(#[trigger] zs[i]),
        exists|i: int| 0 <= i < zs.len() && lowest_layer(zs) == z_of(#[trigger] zs[i]),
    decreases zs.len(),
{
    let rest = zs.drop_last();
    if rest.len() == 0 {
        assert(lowest_layer(rest) == i32::MAX);
        assert(lowest_layer(zs) == z_of(zs[0]));
    } else {
        lemma_lowest_layer_bounds(rest);
        assert forall|i: int| 0 <= i < zs.len() implies lowest_layer(zs) <= z_of(#[trigger] zs[i]) by {
            if i < rest.len() {
                assert(zs[i] == rest[i]);
            }
        }
        if z_of(zs.last()) < lowest_layer(rest) {
            assert(lowest_layer(zs) == z_of(zs[zs.len() - 1]));
        } else {
            let j = choose|j: int| 0 <= j < rest.len() && lowest_layer(rest) == z_of(#[trigger] rest[j]);
            assert(zs[j] == rest[j]);
        }
    }
}

/// Each pass paints a strictly higher layer than the one before: every
/// deferred element lies above the current layer, so the next layer does
/// too; no deferred element lies below it, and some element lies on it, so
/// that pass paints at least one element.
pub proof fn lemma_passes_climb(deferred: Seq<Option<i32>>, current: i32)
    requires
        deferred.len() > 0,
        forall|i: int| 0 <= i < deferred.len() ==> z_of(#[trigger] deferred[i]) > current,
    ensures
        lowest_layer(deferred) > current,
        forall|i: int| 0 <= i < deferred.len() ==> lowest_layer(deferred) <= z_of(#[trigger] deferred[i]),
        exists|i: int|
            0 <= i < deferred.len() && !(z_of(#[trigger] deferred[i]) > lowest_layer(deferred)),
{
    lemma_lowest_layer_bounds(deferred);
    let j = choose|j: int| 0 <= j < deferred.len() && lowest_layer(deferred) == z_of(#[trigger] deferred[j]);
    assert(z_of(deferred[j]) > current);
}

// ---------------------------------------------------------------------------
// Drawing operations of one element
// ---------------------------------------------------------------------------

/// A drawing operation the painter records for an element.
#[derive(Debug, Clone, Copy, PartialEq, Eq, Structural)]
pub enum PaintOp {
    /// Start a translucent layer.
    PushLayer,
    /// End the translucent layer.
    PopLayer,
    /// The drop shadow at this index of the element's shadows.
    Shadow { index: usize },
    /// The background fill, rounded or square.
    Background { rounded: bool },
    /// The border.
    Border,
    /// Clip scrolled contents to the element, rounded or axis-aligned.
    PushClip { rounded: bool },
    /// End the element's clip.
    PopClip { rounded: bool },
    /// The widget draws its contents.
    Widget,
    /// Clip a scrollbar's thumb to its rounded track.
    PushTrackClip { axis: Axis },
    /// A scrollbar track.
    Track { axis: Axis },
    /// A scrollbar thumb.
    Thumb { axis: Axis },
    /// End the track clip.
    PopTrackClip { axis: Axis },
}

/// What the painter reads of an element, as plain values.
pub struct ElementPaint {
    /// The element has an opacity below 1.
    pub translucent: bool,
    /// The element paints its own box (the widget, if any, does not).
    pub owns_contents: bool,
    /// The element's drop shadows, in order: `true` for an inset shadow.
    pub shadows: Vec<bool>,
    /// The element's style has a background colour.
    pub background: bool,
    /// The element's style has a border radius.
    pub style_rounded: bool,
    /// The element has a border.
    pub border: bool,
    /// The element scrolls along some axis.
    pub scrolls: bool,
    /// The element's clip has rounded corners.
    pub rounded_clip: bool,
    /// The element holds a widget.
    pub widget: bool,
}

/// The shadows whose inset flag is `inset`, as operations, in order.
pub open spec fn shadow_ops(shadows: Seq<bool>, inset: bool) -> Seq<PaintOp>
    decreases shadows.len(),
{
    if shadows.len() == 0 {
        Seq::empty()
    } else {
        shadow_ops(shadows.drop_last(), inset) + if shadows.last() == inset {
            seq![PaintOp::Shadow { index: (shadows.len() - 1) as usize }]
        } else {
            Seq::empty()
        }
    }
}

/// `op` when `cond` holds, else nothing.
pub open spec fn op_if(cond: bool, op: PaintOp) -> Seq<PaintOp> {
    if cond {
        seq![op]
    } else {
        Seq::empty()
    }
}

/// The background fill of an element: where its style has a background
/// colour, rounded exactly when the style has a border radius.
pub open spec fn background_of(background: bool, style_rounded: bool) -> Option<bool> {
    if background {
        Some(style_rounded)
    } else {
        None
    }
}

/// The element's own box: outset shadows, background, inset shadows, border.
pub open spec fn box_ops(shadows: Seq<bool>, background: Option<bool>, border: bool) -> Seq<PaintOp> {
    shadow_ops(shadows, false) + match background {
        Some(rounded) => seq![PaintOp::Background { rounded }],
        None => Seq::empty(),
    } + shadow_ops(shadows, true) + op_if(border, PaintOp::Border)
}

/// The operations recorded when the painter enters an element, before its
/// children: the layer, the element's box (when it paints its own box), the
/// scroll clip, the widget.
pub open spec fn enter_ops_of(
    translucent: bool,
    owns_contents: bool,
    shadows: Seq<bool>,
    background: Option<bool>,
    border: bool,
    scrolls: bool,
    rounded_clip: bool,
    widget: bool,
) -> Seq<PaintOp> {
    op_if(translucent, PaintOp::PushLayer) + (if owns_contents {
        box_ops(shadows, background, border)
    } else {
        Seq::empty()
    }) + op_if(scrolls, PaintOp::PushClip { rounded: rounded_clip }) + op_if(widget, PaintOp::Widget)
}

/// `enter_ops_of` for an element.
pub open spec fn enter_spec(e: ElementPaint) -> Seq<PaintOp> {
    enter_ops_of(
        e.translucent,
        e.owns_contents,
        e.shadows@,
        background_of(e.background, e.style_rounded),
        e.border,
        e.scrolls,
        e.rounded_clip,
        e.widget,
    )
}

/// A scrollbar along `axis`: nothing without a geometry; else the track and
/// the thumb, clipped to the track when `Some(true)`.
pub open spec fn track_ops(axis: Axis, geometry: Option<bool>) -> Seq<PaintOp> {
    match geometry {
        None => Seq::empty(),
        Some(clip) => op_if(clip, PaintOp::PushTrackClip { axis }) + seq![
            PaintOp::Track { axis },
            PaintOp::Thumb { axis },
        ] + op_if(clip, PaintOp::PopTrackClip { axis }),
    }
}

/// The operations recorded when the painter leaves an element, after its
/// children: for a scrolling element its scrollbars and the end of its clip;
/// then the end of its layer.
pub open spec fn exit_ops_of(
    translucent: bool,
    scrolls: bool,
    rounded_clip: bool,
    x_track: Option<bool>,
    y_track: Option<bool>,
) -> Seq<PaintOp> {
    (if scrolls {
        track_ops(Axis::X, x_track) + track_ops(Axis::Y, y_track) + seq![
            PaintOp::PopClip { rounded: rounded_clip },
        ]
    } else {
        Seq::empty()
    }) + op_if(translucent, PaintOp::PopLayer)
}

/// `exit_ops_of` for an element.
pub open spec fn exit_spec(e: ElementPaint, x_track: Option<bool>, y_track: Option<bool>) -> Seq<
    PaintOp,
> {
    exit_ops_of(e.translucent, e.scrolls, e.rounded_clip, x_track, y_track)
}

fn push_op_if(ops: &mut Vec<PaintOp>, cond: bool, op: PaintOp)
    ensures
        final(ops)@ == old(ops)@ + op_if(cond, op),
{
    if cond {
        ops.push(op);
    }
    assert(final(ops)@ =~= old(ops)@ + op_if(cond, op));
}

fn push_shadows(ops: &mut Vec<PaintOp>, shadows: &Vec<bool>, inset: bool)
    ensures
        final(ops)@ == old(ops)@ + shadow_ops(shadows@, inset),
{
    let ghost start = ops@;
    let mut i: usize = 0;
    while i < shadows.len()
        invariant
            i <= shadows@.len(),
            ops@ == start + shadow_ops(shadows@.subrange(0, i as int), inset),
        decreases shadows@.len() - i,
    {
        let ghost before = ops@;
        assert(shadows@.subrange(0, (i + 1) as int).drop_last() =~= shadows@.subrange(0, i as int));
        if shadows[i] == inset {
            ops.push(PaintOp::Shadow { index: i });
        }
        proof {
            let prefix = shadows@.subrange(0, (i + 1) as int);
            assert(prefix.last() == shadows@[i as int]);
            assert(ops@ =~= before + op_if(shadows@[i as int] == inset, PaintOp::Shadow { index: i }));
            assert(shadow_ops(prefix, inset) =~= shadow_ops(shadows@.subrange(0, i as int), inset)
                + op_if(shadows@[i as int] == inset, PaintOp::Shadow { index: i }));
            assert(ops@ =~= start + shadow_ops(prefix, inset));
        }
        i += 1;
    }
    assert(shadows@.subrange(0, shadows@.len() as int) =~= shadows@);
}

/// The operations recorded when the painter enters `e`.
pub fn enter_ops(e: &ElementPaint) -> (r: Vec<PaintOp>)
    ensures
        r@ == enter_spec(*e),
{
    let mut ops: Vec<PaintOp> = Vec::new();
    push_op_if(&mut ops, e.translucent, PaintOp::PushLayer);
    let ghost after_layer = ops@;
    if e.owns_contents {
        push_shadows(&mut ops, &e.shadows, false);
        if e.background {
            ops.push(PaintOp::Background { rounded: e.style_rounded });
        }
        push_shadows(&mut ops, &e.shadows, true);
        push_op_if(&mut ops, e.border, PaintOp::Border);
        assert(ops@ =~= after_layer + box_ops(e.shadows@, background_of(e.background, e.style_rounded), e.border));
    }
    push_op_if(&mut ops, e.scrolls, PaintOp::PushClip { rounded: e.rounded_clip });
    push_op_if(&mut ops, e.widget, PaintOp::Widget);
    assert(ops@ =~= enter_spec(*e));
    ops
}

fn push_track(ops: &mut Vec<PaintOp>, axis: Axis, geometry: Option<bool>)
    ensures
        final(ops)@ == old(ops)@ + track_ops(axis, geometry),
{
    match geometry {
        None => {},
        Some(clip) => {
            push_op_if(ops, clip, PaintOp::PushTrackClip { axis });
            ops.push(PaintOp::Track { axis });
            ops.push(PaintOp::Thumb { axis });
            push_op_if(ops, clip, PaintOp::PopTrackClip { axis });
        },
    }
    assert(final(ops)@ =~= old(ops)@ + track_ops(axis, geometry));
}

/// The operations recorded when the painter leaves `e`; `x_track` and
/// `y_track` say whether each scrollbar has a geometry and whether its thumb
/// needs clipping to the track.
pub fn exit_ops(e: &ElementPaint, x_track: Option<bool>, y_track: Option<bool>) -> (r: Vec<PaintOp>)
    ensures
        r@ == exit_spec(*e, x_track, y_track),
{
    let mut ops: Vec<PaintOp> = Vec::new();
    if e.scrolls {
        push_track(&mut ops, Axis::X, x_track);
        push_track(&mut ops, Axis::Y, y_track);
        ops.push(PaintOp::PopClip { rounded: e.rounded_clip });
    }
    push_op_if(&mut ops, e.translucent, PaintOp::PopLayer);
    assert(ops@ =~= exit_spec(*e, x_track, y_track));
    ops
}

// ---------------------------------------------------------------------------
// Balanced scopes
// ---------------------------------------------------------------------------

/// What a push opens and a pop must close: the recorder ends a layer, a
/// rounded clip (a layer with a geometric mask) and an axis-aligned clip with
/// three different calls.
#[derive(Debug, Clone, Copy, PartialEq, Eq, Structural)]
pub enum PaintScope {
    Layer,
    RoundedClip,
    AxisClip,
}

pub open spec fn opens(op: PaintOp) -> Option<PaintScope> {
    match op {
        PaintOp::PushLayer => Some(PaintScope::Layer),
        PaintOp::PushClip { rounded } => Some(
            if rounded {
                PaintScope::RoundedClip
            } else {
                PaintScope::AxisClip
            },
        ),
        PaintOp::PushTrackClip { .. } => Some(PaintScope::RoundedClip),
        _ => None,
    }
}

pub open spec fn closes(op: PaintOp) -> Option<PaintScope> {
    match op {
        PaintOp::PopLayer => Some(PaintScope::Layer),
        PaintOp::PopClip { rounded } => Some(
            if rounded {
                PaintScope::RoundedClip
            } else {
                PaintScope::AxisClip
            },
        ),
        PaintOp::PopTrackClip { .. } => Some(PaintScope::RoundedClip),
        _ => None,
    }
}

/// The open scopes after recording `op` with the open scopes `stack`, or
/// `None` when it ends a scope that is not the innermost open one.
pub open spec fn scope_step(stack: Seq<PaintScope>, op: PaintOp) -> Option<Seq<PaintScope>> {
    match opens(op) {
        Some(s) => Some(stack.push(s)),
        None => match closes(op) {
            Some(s) => if stack.len() > 0 && stack.last() == s {
                Some(stack.drop_last())
            } else {
                None
            },
            None => Some(stack),
        },
    }
}

/// The open scopes after recording `ops` from the open scopes `stack`, or
/// `None` when an operation ends a scope that is not the innermost open one.
pub open spec fn scopes_after(stack: Seq<PaintScope>, ops: Seq<PaintOp>) -> Option<Seq<PaintScope>>
    decreases ops.len(),
{
    if ops.len() == 0 {
        Some(stack)
    } else {
        match scope_step(stack, ops[0]) {
            Some(st) => scopes_after(st, ops.skip(1)),
            None => None,
        }
    }
}

/// Recording one operation changes the open scopes as `scope_step` says,
/// and recording nothing leaves them as they are.
pub proof fn lemma_scopes_one(stack: Seq<PaintScope>, op: PaintOp)
    ensures
        scopes_after(stack, seq![op]) == scope_step(stack, op),
        scopes_after(stack, Seq::<PaintOp>::empty()) == Some(stack),
{
    assert(seq![op].skip(1) =~= Seq::<PaintOp>::empty());
}

/// Every scope the operations open they close again, innermost first.
pub open spec fn balanced(ops: Seq<PaintOp>) -> bool {
    scopes_after(Seq::empty(), ops) == Some(Seq::<PaintScope>::empty())
}

/// Recording `a` then `b` is recording `b` from the scopes `a` leaves open.
pub proof fn lemma_scopes_concat(stack: Seq<PaintScope>, a: Seq<PaintOp>, b: Seq<PaintOp>)
    ensures
        scopes_after(stack, a + b) == match scopes_after(stack, a) {
            Some(st) => scopes_after(st, b),
            None => None,
        },
    decreases a.len(),
{
    if a.len() == 0 {
        assert(a + b =~= b);
    } else {
        assert((a + b)[0] == a[0]);
        assert((a + b).skip(1) =~= a.skip(1) + b);
        match scope_step(stack, a[0]) {
            Some(st) => {
                lemma_scopes_concat(st, a.skip(1), b);
            },
            None => {},
        }
    }
}

proof fn lemma_scopes_under(outer: Seq<PaintScope>, stack: Seq<PaintScope>, ops: Seq<PaintOp>)
    requires
        scopes_after(stack, ops) is Some,
    ensures
        scopes_after(outer + stack, ops) == Some(outer + scopes_after(stack, ops)->0),
    decreases ops.len(),
{
    if ops.len() > 0 {
        let op = ops[0];
        match opens(op) {
            Some(s) => {
                assert((outer + stack).push(s) =~= outer + stack.push(s));
                lemma_scopes_under(outer, stack.push(s), ops.skip(1));
            },
            None => match closes(op) {
                Some(s) => {
                    assert(stack.len() > 0 && stack.last() == s);
                    assert((outer + stack).last() == s);
                    assert((outer + stack).drop_last() =~= outer + stack.drop_last());
                    lemma_scopes_under(outer, stack.drop_last(), ops.skip(1));
                },
                None => {
                    lemma_scopes_under(outer, stack, ops.skip(1));
                },
            },
        }
    } else {
        assert(outer + stack =~= outer + stack);
    }
}

/// Balanced operations recorded inside open scopes leave them open as they
/// were.
proof fn lemma_balanced_under(outer: Seq<PaintScope>, ops: Seq<PaintOp>)
    requires
        balanced(ops),
    ensures
        scopes_after(outer, ops) == Some(outer),
{
    lemma_scopes_under(outer, Seq::empty(), ops);
    assert(outer + Seq::<PaintScope>::empty() =~= outer);
}

/// Painting one element after another keeps the recording balanced.
pub proof fn lemma_siblings_balanced(a: Seq<PaintOp>, b: Seq<PaintOp>)
    requires
        balanced(a),
        balanced(b),
    ensures
        balanced(a + b),
{
    lemma_scopes_concat(Seq::empty(), a, b);
}

proof fn lemma_scope_free(stack: Seq<PaintScope>, ops: Seq<PaintOp>)
    requires
        forall|i: int| 0 <= i < ops.len() ==> opens(#[trigger] ops[i]) is None && closes(ops[i]) is None,
    ensures
        scopes_after(stack, ops) == Some(stack),
    decreases ops.len(),
{
    if ops.len() > 0 {
        assert(opens(ops[0]) is None && closes(ops[0]) is None);
        assert forall|i: int| 0 <= i < ops.skip(1).len() implies opens(#[trigger] ops.skip(1)[i]) is None
            && closes(ops.skip(1)[i]) is None by {
            assert(ops.skip(1)[i] == ops[i + 1]);
        }
        lemma_scope_free(stack, ops.skip(1));
    }
}

proof fn lemma_shadow_ops_scope_free(shadows: Seq<bool>, inset: bool)
    ensures
        forall|i: int|
            0 <= i < shadow_ops(shadows, inset).len() ==> opens(#[trigger] shadow_ops(shadows, inset)[i])
                is None && closes(shadow_ops(shadows, inset)[i]) is None,
    decreases shadows.len(),
{
    if shadows.len() > 0 {
        lemma_shadow_ops_scope_free(shadows.drop_last(), inset);
        let rest = shadow_ops(shadows.drop_last(), inset);
        let all = shadow_ops(shadows, inset);
        assert forall|i: int| 0 <= i < all.len() implies opens(#[trigger] all[i]) is None
            && closes(all[i]) is None by {
            if i < rest.len() {
                assert(all[i] == rest[i]);
            }
        }
    }
}

proof fn lemma_track_balanced(stack: Seq<PaintScope>, axis: Axis, geometry: Option<bool>)
    ensures
        scopes_after(stack, track_ops(axis, geometry)) == Some(stack),
{
    lemma_scopes_one(stack, PaintOp::Track { axis });
    match geometry {
        None => {},
        Some(clip) => {
            let bars = seq![PaintOp::Track { axis }, PaintOp::Thumb { axis }];
            assert(bars =~= seq![PaintOp::Track { axis }] + seq![PaintOp::Thumb { axis }]);
            lemma_scopes_one(stack, PaintOp::Thumb { axis });
            lemma_scopes_concat(stack, seq![PaintOp::Track { axis }], seq![PaintOp::Thumb { axis }]);
            if clip {
                let inner = stack.push(PaintScope::RoundedClip);
                lemma_scopes_one(stack, PaintOp::PushTrackClip { axis });
                lemma_scopes_one(inner, PaintOp::Track { axis });
                lemma_scopes_one(inner, PaintOp::Thumb { axis });
                lemma_scopes_concat(inner, seq![PaintOp::Track { axis }], seq![PaintOp::Thumb { axis }]);
                lemma_scopes_one(inner, PaintOp::PopTrackClip { axis });
                assert(inner.drop_last() =~= stack);
                let push = seq![PaintOp::PushTrackClip { axis }];
                let pop = seq![PaintOp::PopTrackClip { axis }];
                lemma_scopes_concat(stack, push, bars);
                lemma_scopes_concat(stack, push + bars, pop);
                assert(track_ops(axis, geometry) =~= push + bars + pop);
            } else {
                assert(track_ops(axis, geometry) =~= bars);
            }
        },
    }
}

/// An element's recording is balanced around any balanced recording of its
/// children: whatever its enter operations open, its exit operations close
/// again, innermost first.
pub proof fn lemma_element_balanced(
    e: ElementPaint,
    x_track: Option<bool>,
    y_track: Option<bool>,
    children: Seq<PaintOp>,
)
    requires
        balanced(children),
    ensures
        balanced(enter_spec(e) + children + exit_spec(e, x_track, y_track)),
{
    let empty = Seq::<PaintScope>::empty();
    let layer = op_if(e.translucent, PaintOp::PushLayer);
    let body = if e.owns_contents {
        box_ops(e.shadows@, background_of(e.background, e.style_rounded), e.border)
    } else {
        Seq::empty()
    };
    let clip = op_if(e.scrolls, PaintOp::PushClip { rounded: e.rounded_clip });
    let widget = op_if(e.widget, PaintOp::Widget);
    let s0 = if e.translucent {
        empty.push(PaintScope::Layer)
    } else {
        empty
    };
    let clip_scope = if e.rounded_clip {
        PaintScope::RoundedClip
    } else {
        PaintScope::AxisClip
    };
    let s1 = if e.scrolls {
        s0.push(clip_scope)
    } else {
        s0
    };
    // enter: layer, body, clip, widget
    lemma_scopes_one(empty, PaintOp::PushLayer);
    assert(scopes_after(empty, layer) == Some(s0));
    lemma_shadow_ops_scope_free(e.shadows@, false);
    lemma_shadow_ops_scope_free(e.shadows@, true);
    let bg = match background_of(e.background, e.style_rounded) {
        Some(rounded) => seq![PaintOp::Background { rounded }],
        None => Seq::<PaintOp>::empty(),
    };
    let bd = op_if(e.border, PaintOp::Border);
    assert forall|i: int| 0 <= i < body.len() implies opens(#[trigger] body[i]) is None
        && closes(body[i]) is None by {
        if e.owns_contents {
            let a = shadow_ops(e.shadows@, false);
            let b = shadow_ops(e.shadows@, true);
            assert(body =~= a + bg + b + bd);
            if i < a.len() {
                assert(body[i] == a[i]);
            } else if i < a.len() + bg.len() {
                assert(body[i] == bg[i - a.len()]);
            } else if i < a.len() + bg.len() + b.len() {
                assert(body[i] == b[i - a.len() - bg.len()]);
            } else {
                assert(body[i] == bd[i - a.len() - bg.len() - b.len()]);
            }
        }
    }
    lemma_scope_free(s0, body);
    lemma_scopes_one(s0, PaintOp::PushClip { rounded: e.rounded_clip });
    assert(scopes_after(s0, clip) == Some(s1));
    assert forall|i: int| 0 <= i < widget.len() implies opens(#[trigger] widget[i]) is None
        && closes(widget[i]) is None by {}
    lemma_scope_free(s1, widget);
    let enter = enter_spec(e);
    assert(enter =~= layer + body + clip + widget);
    lemma_scopes_concat(empty, layer, body);
    lemma_scopes_concat(empty, layer + body, clip);
    lemma_scopes_concat(empty, layer + body + clip, widget);
    assert(scopes_after(empty, enter) == Some(s1));
    // children
    lemma_balanced_under(s1, children);
    lemma_scopes_concat(empty, enter, children);
    // exit
    let exit = exit_spec(e, x_track, y_track);
    let tracks = if e.scrolls {
        track_ops(Axis::X, x_track) + track_ops(Axis::Y, y_track) + seq![
            PaintOp::PopClip { rounded: e.rounded_clip },
        ]
    } else {
        Seq::empty()
    };
    let pop_layer = op_if(e.translucent, PaintOp::PopLayer);
    assert(exit =~= tracks + pop_layer);
    if e.scrolls {
        lemma_track_balanced(s1, Axis::X, x_track);
        lemma_track_balanced(s1, Axis::Y, y_track);
        lemma_scopes_concat(s1, track_ops(Axis::X, x_track), track_ops(Axis::Y, y_track));
        let pop = seq![PaintOp::PopClip { rounded: e.rounded_clip }];
        lemma_scopes_one(s1, PaintOp::PopClip { rounded: e.rounded_clip });
        assert(s1.drop_last() =~= s0);
        assert(scopes_after(s1, pop) == Some(s0));
        lemma_scopes_concat(
            s1,
            track_ops(Axis::X, x_track) + track_ops(Axis::Y, y_track),
            pop,
        );
    }
    assert(scopes_after(s1, tracks) == Some(s0));
    lemma_scopes_one(s0, PaintOp::PopLayer);
    if e.translucent {
        assert(s0.drop_last() =~= empty);
    }
    assert(scopes_after(s0, pop_layer) == Some(empty));
    lemma_scopes_concat(s1, tracks, pop_layer);
    lemma_scopes_concat(empty, enter + children, exit);
}

// ---------------------------------------------------------------------------
// Whole passes
// ---------------------------------------------------------------------------

/// The operations one depth-first paint pass records for the subtree of
/// `node`: nothing for an element left for a later pass, else its enter
/// operations, its children's, and its exit operations. `paint` describes
/// each element, `children` lists its children, `tracks` gives its scrollbar
/// geometries; `depth` bounds the depth walked.
pub open spec fn pass_ops(
    paint: spec_fn(u64) -> ElementPaint,
    children: spec_fn(u64) -> Seq<u64>,
    tracks: spec_fn(u64) -> (Option<bool>, Option<bool>),
    deferred: spec_fn(u64) -> bool,
    node: u64,
    depth: nat,
) -> Seq<PaintOp>
    decreases depth, 0nat,
{
    if depth == 0 || deferred(node) {
        Seq::empty()
    } else {
        enter_spec(paint(node)) + children_ops(
            paint,
            children,
            tracks,
            deferred,
            children(node),
            (depth - 1) as nat,
        ) + exit_spec(paint(node), tracks(node).0, tracks(node).1)
    }
}

/// The operations of the subtrees of `nodes`, one after another.
pub open spec fn children_ops(
    paint: spec_fn(u64) -> ElementPaint,
    children: spec_fn(u64) -> Seq<u64>,
    tracks: spec_fn(u64) -> (Option<bool>, Option<bool>),
    deferred: spec_fn(u64) -> bool,
    nodes: Seq<u64>,
    depth: nat,
) -> Seq<PaintOp>
    decreases depth, nodes.len(),
{
    if nodes.len() == 0 {
        Seq::empty()
    } else {
        children_ops(paint, children, tracks, deferred, nodes.drop_last(), depth) + pass_ops(
            paint,
            children,
            tracks,
            deferred,
            nodes.last(),
            depth,
        )
    }
}

proof fn lemma_empty_balanced()
    ensures
        balanced(Seq::<PaintOp>::empty()),
{
}

/// Every paint pass records balanced operations, whatever the tree and
/// whatever is left for later passes: each layer and clip it opens it
/// closes again, innermost first.
pub proof fn lemma_pass_balanced(
    paint: spec_fn(u64) -> ElementPaint,
    children: spec_fn(u64) -> Seq<u64>,
    tracks: spec_fn(u64) -> (Option<bool>, Option<bool>),
    deferred: spec_fn(u64) -> bool,
    node: u64,
    depth: nat,
)
    ensures
        balanced(pass_ops(paint, children, tracks, deferred, node, depth)),
    decreases depth, 0nat,
{
    if depth == 0 || deferred(node) {
        lemma_empty_balanced();
    } else {
        lemma_children_pass_balanced(paint, children, tracks, deferred, children(node), (depth - 1) as nat);
        lemma_element_balanced(
            paint(node),
            tracks(node).0,
            tracks(node).1,
            children_ops(paint, children, tracks, deferred, children(node), (depth - 1) as nat),
        );
    }
}

proof fn lemma_children_pass_balanced(
    paint: spec_fn(u64) -> ElementPaint,
    children: spec_fn(u64) -> Seq<u64>,
    tracks: spec_fn(u64) -> (Option<bool>, Option<bool>),
    deferred: spec_fn(u64) -> bool,
    nodes: Seq<u64>,
    depth: nat,
)
    ensures
        balanced(children_ops(paint, children, tracks, deferred, nodes, depth)),
    decreases depth, nodes.len(),
{
    if nodes.len() == 0 {
        lemma_empty_balanced();
    } else {
        lemma_children_pass_balanced(paint, children, tracks, deferred, nodes.drop_last(), depth);
        lemma_pass_balanced(paint, children, tracks, deferred, nodes.last(), depth);
        lemma_siblings_balanced(
            children_ops(paint, children, tracks, deferred, nodes.drop_last(), depth),
            pass_ops(paint, children, tracks, deferred, nodes.last(), depth),
        );
    }
}

// ---------------------------------------------------------------------------
// Recording passes over an element arena
// ---------------------------------------------------------------------------

/// An element as the painter sees it in the arena: its paint description,
/// its children (arena indices), its scrollbar geometries and its z-index.
pub struct PaintNode {
    pub paint: ElementPaint,
    pub children: Vec<usize>,
    pub tracks: (Option<bool>, Option<bool>),
    pub z_index: Option<i32>,
}

pub open spec fn arena_paint(nodes: Seq<PaintNode>) -> spec_fn(u64) -> ElementPaint {
    |id: u64| nodes[id as int].paint
}

pub open spec fn arena_children(nodes: Seq<PaintNode>) -> spec_fn(u64) -> Seq<u64> {
    |id: u64| nodes[id as int].children@.map_values(|c: usize| c as u64)
}

pub open spec fn arena_tracks(nodes: Seq<PaintNode>) -> spec_fn(u64) -> (Option<bool>, Option<bool>) {
    |id: u64| nodes[id as int].tracks
}

pub open spec fn arena_deferred(flags: Seq<bool>) -> spec_fn(u64) -> bool {
    |id: u64| flags[id as int]
}

/// Every child index names an element of the arena.
pub open spec fn arena_wf(nodes: Seq<PaintNode>) -> bool {
    forall|i: int, k: int|
        0 <= i < nodes.len() && 0 <= k < nodes[i].children@.len() ==> #[trigger] nodes[i].children@[k]
            < nodes.len()
}

/// The elements one pass leaves for later, in the order it meets them.
pub open spec fn pass_deferred(
    children: spec_fn(u64) -> Seq<u64>,
    deferred: spec_fn(u64) -> bool,
    node: u64,
    depth: nat,
) -> Seq<u64>
    decreases depth, 0nat,
{
    if depth == 0 {
        Seq::empty()
    } else if deferred(node) {
        seq![node]
    } else {
        children_deferred(children, deferred, children(node), (depth - 1) as nat)
    }
}

pub open spec fn children_deferred(
    children: spec_fn(u64) -> Seq<u64>,
    deferred: spec_fn(u64) -> bool,
    nodes: Seq<u64>,
    depth: nat,
) -> Seq<u64>
    decreases depth, nodes.len(),
{
    if nodes.len() == 0 {
        Seq::empty()
    } else {
        children_deferred(children, deferred, nodes.drop_last(), depth) + pass_deferred(
            children,
            deferred,
            nodes.last(),
            depth,
        )
    }
}

/// The operations of a pass over the subtrees of `roots`, the last root
/// first (a pass takes its roots from a stack).
pub open spec fn roots_ops(
    paint: spec_fn(u64) -> ElementPaint,
    children: spec_fn(u64) -> Seq<u64>,
    tracks: spec_fn(u64) -> (Option<bool>, Option<bool>),
    deferred: spec_fn(u64) -> bool,
    roots: Seq<u64>,
    depth: nat,
) -> Seq<PaintOp>
    decreases roots.len(),
{
    if roots.len() == 0 {
        Seq::empty()
    } else {
        pass_ops(paint, children, tracks, deferred, roots.last(), depth) + roots_ops(
            paint,
            children,
            tracks,
            deferred,
            roots.drop_last(),
            depth,
        )
    }
}

/// The elements a pass over `roots` leaves for later, in the order it meets
/// them.
pub open spec fn roots_deferred(
    children: spec_fn(u64) -> Seq<u64>,
    deferred: spec_fn(u64) -> bool,
    roots: Seq<u64>,
    depth: nat,
) -> Seq<u64>
    decreases roots.len(),
{
    if roots.len() == 0 {
        Seq::empty()
    } else {
        pass_deferred(children, deferred, roots.last(), depth) + roots_deferred(
            children,
            deferred,
            roots.drop_last(),
            depth,
        )
    }
}

/// An operation recorded for an element.
#[derive(Debug, Clone, Copy, PartialEq, Eq, Structural)]
pub struct PaintStep {
    pub element: u64,
    pub op: PaintOp,
}

/// The operations `ops`, each recorded for `element`.
pub open spec fn steps_of(element: u64, ops: Seq<PaintOp>) -> Seq<PaintStep> {
    ops.map_values(|op: PaintOp| PaintStep { element, op })
}

/// The operations of the steps, in order.
pub open spec fn ops_of(steps: Seq<PaintStep>) -> Seq<PaintOp> {
    steps.map_values(|s: PaintStep| s.op)
}

/// `pass_ops`, with the element each operation is recorded for.
pub open spec fn pass_steps(
    paint: spec_fn(u64) -> ElementPaint,
    children: spec_fn(u64) -> Seq<u64>,
    tracks: spec_fn(u64) -> (Option<bool>, Option<bool>),
    deferred: spec_fn(u64) -> bool,
    node: u64,
    depth: nat,
) -> Seq<PaintStep>
    decreases depth, 0nat,
{
    if depth == 0 || deferred(node) {
        Seq::empty()
    } else {
        steps_of(node, enter_spec(paint(node))) + children_steps(
            paint,
            children,
            tracks,
            deferred,
            children(node),
            (depth - 1) as nat,
        ) + steps_of(node, exit_spec(paint(node), tracks(node).0, tracks(node).1))
    }
}

/// `children_ops`, with the element each operation is recorded for.
pub open spec fn children_steps(
    paint: spec_fn(u64) -> ElementPaint,
    children: spec_fn(u64) -> Seq<u64>,
    tracks: spec_fn(u64) -> (Option<bool>, Option<bool>),
    deferred: spec_fn(u64) -> bool,
    nodes: Seq<u64>,
    depth: nat,
) -> Seq<PaintStep>
    decreases depth, nodes.len(),
{
    if nodes.len() == 0 {
        Seq::empty()
    } else {
        children_steps(paint, children, tracks, deferred, nodes.drop_last(), depth) + pass_steps(
            paint,
            children,
            tracks,
            deferred,
            nodes.last(),
            depth,
        )
    }
}

/// `roots_ops`, with the element each operation is recorded for.
pub open spec fn roots_steps(
    paint: spec_fn(u64) -> ElementPaint,
    children: spec_fn(u64) -> Seq<u64>,
    tracks: spec_fn(u64) -> (Option<bool>, Option<bool>),
    deferred: spec_fn(u64) -> bool,
    roots: Seq<u64>,
    depth: nat,
) -> Seq<PaintStep>
    decreases roots.len(),
{
    if roots.len() == 0 {
        Seq::empty()
    } else {
        pass_steps(paint, children, tracks, deferred, roots.last(), depth) + roots_steps(
            paint,
            children,
            tracks,
            deferred,
            roots.drop_last(),
            depth,
        )
    }
}

proof fn lemma_ops_of_concat(a: Seq<PaintStep>, b: Seq<PaintStep>)
    ensures
        ops_of(a + b) == ops_of(a) + ops_of(b),
{
    assert(ops_of(a + b) =~= ops_of(a) + ops_of(b));
}

proof fn lemma_ops_of_steps(element: u64, ops: Seq<PaintOp>)
    ensures
        ops_of(steps_of(element, ops)) == ops,
{
    assert(ops_of(steps_of(element, ops)) =~= ops);
}

proof fn lemma_pass_steps_ops(
    paint: spec_fn(u64) -> ElementPaint,
    children: spec_fn(u64) -> Seq<u64>,
    tracks: spec_fn(u64) -> (Option<bool>, Option<bool>),
    deferred: spec_fn(u64) -> bool,
    node: u64,
    depth: nat,
)
    ensures
        ops_of(pass_steps(paint, children, tracks, deferred, node, depth)) == pass_ops(
            paint,
            children,
            tracks,
            deferred,
            node,
            depth,
        ),
    decreases depth, 0nat,
{
    if depth == 0 || deferred(node) {
        assert(ops_of(Seq::<PaintStep>::empty()) =~= Seq::<PaintOp>::empty());
    } else {
        let enter = steps_of(node, enter_spec(paint(node)));
        let kids = children_steps(paint, children, tracks, deferred, children(node), (depth - 1) as nat);
        let exit = steps_of(node, exit_spec(paint(node), tracks(node).0, tracks(node).1));
        lemma_children_steps_ops(paint, children, tracks, deferred, children(node), (depth - 1) as nat);
        lemma_ops_of_steps(node, enter_spec(paint(node)));
        lemma_ops_of_steps(node, exit_spec(paint(node), tracks(node).0, tracks(node).1));
        lemma_ops_of_concat(enter, kids);
        lemma_ops_of_concat(enter + kids, exit);
    }
}

proof fn lemma_children_steps_ops(
    paint: spec_fn(u64) -> ElementPaint,
    children: spec_fn(u64) -> Seq<u64>,
    tracks: spec_fn(u64) -> (Option<bool>, Option<bool>),
    deferred: spec_fn(u64) -> bool,
    nodes: Seq<u64>,
    depth: nat,
)
    ensures
        ops_of(children_steps(paint, children, tracks, deferred, nodes, depth)) == children_ops(
            paint,
            children,
            tracks,
            deferred,
            nodes,
            depth,
        ),
    decreases depth, nodes.len(),
{
    if nodes.len() == 0 {
        assert(ops_of(Seq::<PaintStep>::empty()) =~= Seq::<PaintOp>::empty());
    } else {
        lemma_children_steps_ops(paint, children, tracks, deferred, nodes.drop_last(), depth);
        lemma_pass_steps_ops(paint, children, tracks, deferred, nodes.last(), depth);
        lemma_ops_of_concat(
            children_steps(paint, children, tracks, deferred, nodes.drop_last(), depth),
            pass_steps(paint, children, tracks, deferred, nodes.last(), depth),
        );
    }
}

proof fn lemma_roots_steps_ops(
    paint: spec_fn(u64) -> ElementPaint,
    children: spec_fn(u64) -> Seq<u64>,
    tracks: spec_fn(u64) -> (Option<bool>, Option<bool>),
    deferred: spec_fn(u64) -> bool,
    roots: Seq<u64>,
    depth: nat,
)
    ensures
        ops_of(roots_steps(paint, children, tracks, deferred, roots, depth)) == roots_ops(
            paint,
            children,
            tracks,
            deferred,
            roots,
            depth,
        ),
    decreases roots.len(),
{
    if roots.len() == 0 {
        assert(ops_of(Seq::<PaintStep>::empty()) =~= Seq::<PaintOp>::empty());
    } else {
        lemma_pass_steps_ops(paint, children, tracks, deferred, roots.last(), depth);
        lemma_roots_steps_ops(paint, children, tracks, deferred, roots.drop_last(), depth);
        lemma_ops_of_concat(
            pass_steps(paint, children, tracks, deferred, roots.last(), depth),
            roots_steps(paint, children, tracks, deferred, roots.drop_last(), depth),
        );
    }
}

fn append_steps(out: &mut Vec<PaintStep>, element: u64, ops: Vec<PaintOp>)
    ensures
        final(out)@ == old(out)@ + steps_of(element, ops@),
{
    let mut k: usize = 0;
    while k < ops.len()
        invariant
            k <= ops@.len(),
            out@ == old(out)@ + steps_of(element, ops@.take(k as int)),
        decreases ops@.len() - k,
    {
        out.push(PaintStep { element, op: ops[k] });
        assert(steps_of(element, ops@.take(k + 1)) =~= steps_of(element, ops@.take(k as int)).push(
            PaintStep { element, op: ops@[k as int] },
        ));
        k += 1;
    }
    assert(ops@.take(ops@.len() as int) =~= ops@);
}

fn record_subtree(
    nodes: &Vec<PaintNode>,
    flags: &Vec<bool>,
    node: usize,
    depth: usize,
    out: &mut Vec<PaintStep>,
    later: &mut Vec<u64>,
)
    requires
        arena_wf(nodes@),
        flags@.len() == nodes@.len(),
        node < nodes@.len(),
    ensures
        final(out)@ == old(out)@ + pass_steps(
            arena_paint(nodes@),
            arena_children(nodes@),
            arena_tracks(nodes@),
            arena_deferred(flags@),
            node as u64,
            depth as nat,
        ),
        final(later)@ == old(later)@ + pass_deferred(
            arena_children(nodes@),
            arena_deferred(flags@),
            node as u64,
            depth as nat,
        ),
    decreases depth, 0nat,
{
    let ghost paint = arena_paint(nodes@);
    let ghost children = arena_children(nodes@);
    let ghost tracks = arena_tracks(nodes@);
    let ghost deferred = arena_deferred(flags@);
    assert((node as u64) as int == node as int);
    if depth == 0 {
        assert(old(out)@ + Seq::<PaintStep>::empty() =~= old(out)@);
        assert(old(later)@ + Seq::<u64>::empty() =~= old(later)@);
        return;
    }
    if flags[node] {
        later.push(node as u64);
        assert(old(out)@ + Seq::<PaintStep>::empty() =~= old(out)@);
        return;
    }
    let e = &nodes[node].paint;
    append_steps(out, node as u64, enter_ops(e));
    let ghost start = out@;
    let ghost later_start = later@;
    let kids = &nodes[node].children;
    let ghost kid_ids = kids@.map_values(|c: usize| c as u64);
    assert(children(node as u64) == kid_ids);
    let mut k: usize = 0;
    while k < kids.len()
        invariant
            arena_wf(nodes@),
            flags@.len() == nodes@.len(),
            node < nodes@.len(),
            kids == &nodes@[node as int].children,
            kid_ids == kids@.map_values(|c: usize| c as u64),
            paint == arena_paint(nodes@),
            children == arena_children(nodes@),
            tracks == arena_tracks(nodes@),
            deferred == arena_deferred(flags@),
            depth > 0,
            k <= kids@.len(),
            out@ == start + children_steps(paint, children, tracks, deferred, kid_ids.take(k as int), (depth - 1) as nat),
            later@ == later_start + children_deferred(children, deferred, kid_ids.take(k as int), (depth - 1) as nat),
        decreases kids@.len() - k,
    {
        let c = kids[k];
        assert(c < nodes@.len()) by {
            assert(nodes@[node as int].children@[k as int] == c);
        }
        record_subtree(nodes, flags, c, depth - 1, out, later);
        proof {
            let t1 = kid_ids.take(k + 1);
            assert(t1.drop_last() =~= kid_ids.take(k as int));
            assert(t1.last() == c as u64);
            assert(out@ =~= start + children_steps(paint, children, tracks, deferred, t1, (depth - 1) as nat));
            assert(later@ =~= later_start + children_deferred(children, deferred, t1, (depth - 1) as nat));
        }
        k += 1;
    }
    assert(kid_ids.take(kids@.len() as int) =~= kid_ids);
    append_steps(out, node as u64, exit_ops(e, nodes[node].tracks.0, nodes[node].tracks.1));
    proof {
        assert(out@ =~= old(out)@ + pass_steps(paint, children, tracks, deferred, node as u64, depth as nat));
        assert(later@ =~= old(later)@ + pass_deferred(children, deferred, node as u64, depth as nat));
    }
}

/// Records one paint pass over the arena `nodes`: the subtrees of `roots`,
/// the last root first, skipping (and listing, in the order met) the
/// elements `flags` leaves for later. `depth` bounds the depth walked.
pub fn record_pass(nodes: &Vec<PaintNode>, roots: &Vec<usize>, flags: &Vec<bool>, depth: usize) -> (r: (
    Vec<PaintStep>,
    Vec<u64>,
))
    requires
        arena_wf(nodes@),
        flags@.len() == nodes@.len(),
        forall|k: int| 0 <= k < roots@.len() ==> #[trigger] roots@[k] < nodes@.len(),
    ensures
        r.0@ == roots_steps(
            arena_paint(nodes@),
            arena_children(nodes@),
            arena_tracks(nodes@),
            arena_deferred(flags@),
            roots@.map_values(|c: usize| c as u64),
            depth as nat,
        ),
        r.1@ == roots_deferred(
            arena_children(nodes@),
            arena_deferred(flags@),
            roots@.map_values(|c: usize| c as u64),
            depth as nat,
        ),
        balanced(ops_of(r.0@)),
{
    let ghost paint = arena_paint(nodes@);
    let ghost children = arena_children(nodes@);
    let ghost tracks = arena_tracks(nodes@);
    let ghost deferred = arena_deferred(flags@);
    let ghost ids = roots@.map_values(|c: usize| c as u64);
    let mut out: Vec<PaintStep> = Vec::new();
    let mut later: Vec<u64> = Vec::new();
    let mut k: usize = roots.len();
    proof {
        assert(ids.take(roots@.len() as int) =~= ids);
        let all_ops = roots_steps(paint, children, tracks, deferred, ids, depth as nat);
        let all_later = roots_deferred(children, deferred, ids, depth as nat);
        assert(out@ + all_ops =~= all_ops);
        assert(later@ + all_later =~= all_later);
    }
    while k > 0
        invariant
            arena_wf(nodes@),
            flags@.len() == nodes@.len(),
            forall|m: int| 0 <= m < roots@.len() ==> #[trigger] roots@[m] < nodes@.len(),
            ids == roots@.map_values(|c: usize| c as u64),
            paint == arena_paint(nodes@),
            children == arena_children(nodes@),
            tracks == arena_tracks(nodes@),
            deferred == arena_deferred(flags@),
            k <= roots@.len(),
            out@ + roots_steps(paint, children, tracks, deferred, ids.take(k as int), depth as nat)
                == roots_steps(paint, children, tracks, deferred, ids, depth as nat),
            later@ + roots_deferred(children, deferred, ids.take(k as int), depth as nat)
                == roots_deferred(children, deferred, ids, depth as nat),
        decreases k,
    {
        let ghost before_out = out@;
        let ghost before_later = later@;
        k -= 1;
        let r = roots[k];
        record_subtree(nodes, flags, r, depth, &mut out, &mut later);
        proof {
            let t1 = ids.take(k + 1);
            assert(t1.drop_last() =~= ids.take(k as int));
            assert(t1.last() == r as u64);
            assert(roots_steps(paint, children, tracks, deferred, t1, depth as nat) == pass_steps(
                paint,
                children,
                tracks,
                deferred,
                r as u64,
                depth as nat,
            ) + roots_steps(paint, children, tracks, deferred, ids.take(k as int), depth as nat));
            assert(out@ + roots_steps(paint, children, tracks, deferred, ids.take(k as int), depth as nat)
                =~= before_out + roots_steps(paint, children, tracks, deferred, t1, depth as nat));
            assert(later@ + roots_deferred(children, deferred, ids.take(k as int), depth as nat)
                =~= before_later + roots_deferred(children, deferred, t1, depth as nat));
        }
    }
    proof {
        assert(ids.take(0) =~= Seq::<u64>::empty());
        assert(out@ + Seq::<PaintStep>::empty() =~= out@);
        assert(later@ + Seq::<u64>::empty() =~= later@);
        lemma_roots_balanced(paint, children, tracks, deferred, ids, depth as nat);
        lemma_roots_steps_ops(paint, children, tracks, deferred, ids, depth as nat);
    }
    (out, later)
}

/// A pass over several roots records balanced operations too.
pub proof fn lemma_roots_balanced(
    paint: spec_fn(u64) -> ElementPaint,
    children: spec_fn(u64) -> Seq<u64>,
    tracks: spec_fn(u64) -> (Option<bool>, Option<bool>),
    deferred: spec_fn(u64) -> bool,
    roots: Seq<u64>,
    depth: nat,
)
    ensures
        balanced(roots_ops(paint, children, tracks, deferred, roots, depth)),
    decreases roots.len(),
{
    if roots.len() == 0 {
        lemma_empty_balanced();
    } else {
        lemma_pass_balanced(paint, children, tracks, deferred, roots.last(), depth);
        lemma_roots_balanced(paint, children, tracks, deferred, roots.drop_last(), depth);
        lemma_siblings_balanced(
            pass_ops(paint, children, tracks, deferred, roots.last(), depth),
            roots_ops(paint, children, tracks, deferred, roots.drop_last(), depth),
        );
    }
}

// ---------------------------------------------------------------------------
// All passes, by z-index
// ---------------------------------------------------------------------------

/// Which elements a pass at layer `current` leaves for later: those above it.
pub open spec fn layer_flags(nodes: Seq<PaintNode>, current: i32) -> Seq<bool> {
    Seq::new(nodes.len(), |i: int| z_of(nodes[i].z_index) > current)
}

/// The z-indices of the elements `ids`.
pub open spec fn z_indices(nodes: Seq<PaintNode>, ids: Seq<u64>) -> Seq<Option<i32>> {
    ids.map_values(|id: u64| nodes[id as int].z_index)
}

/// The operations of all passes from the pass over `roots` at layer
/// `current`: each pass leaves the elements above its layer for the next,
/// which paints the lowest layer among them.
pub open spec fn layered_ops(nodes: Seq<PaintNode>, roots: Seq<u64>, current: i32, depth: nat) -> Seq<
    PaintOp,
>
    decreases i32::MAX - current,
{
    let deferred = arena_deferred(layer_flags(nodes, current));
    let ops = roots_ops(arena_paint(nodes), arena_children(nodes), arena_tracks(nodes), deferred, roots, depth);
    let later = roots_deferred(arena_children(nodes), deferred, roots, depth);
    if later.len() == 0 {
        ops
    } else {
        let next = lowest_layer(z_indices(nodes, later));
        if next > current {
            ops + layered_ops(nodes, later, next, depth)
        } else {
            ops
        }
    }
}

/// `layered_ops`, with the element each operation is recorded for.
pub open spec fn layered_steps(nodes: Seq<PaintNode>, roots: Seq<u64>, current: i32, depth: nat) -> Seq<
    PaintStep,
>
    decreases i32::MAX - current,
{
    let deferred = arena_deferred(layer_flags(nodes, current));
    let steps = roots_steps(arena_paint(nodes), arena_children(nodes), arena_tracks(nodes), deferred, roots, depth);
    let later = roots_deferred(arena_children(nodes), deferred, roots, depth);
    if later.len() == 0 {
        steps
    } else {
        let next = lowest_layer(z_indices(nodes, later));
        if next > current {
            steps + layered_steps(nodes, later, next, depth)
        } else {
            steps
        }
    }
}

proof fn lemma_layered_steps_ops(nodes: Seq<PaintNode>, roots: Seq<u64>, current: i32, depth: nat)
    ensures
        ops_of(layered_steps(nodes, roots, current, depth)) == layered_ops(nodes, roots, current, depth),
    decreases i32::MAX - current,
{
    let deferred = arena_deferred(layer_flags(nodes, current));
    lemma_roots_steps_ops(arena_paint(nodes), arena_children(nodes), arena_tracks(nodes), deferred, roots, depth);
    let steps = roots_steps(arena_paint(nodes), arena_children(nodes), arena_tracks(nodes), deferred, roots, depth);
    let later = roots_deferred(arena_children(nodes), deferred, roots, depth);
    if later.len() > 0 {
        let next = lowest_layer(z_indices(nodes, later));
        if next > current {
            lemma_layered_steps_ops(nodes, later, next, depth);
            lemma_ops_of_concat(steps, layered_steps(nodes, later, next, depth));
        }
    }
}

/// Every element a pass leaves for later is an element of the arena that
/// the pass's flags defer.
proof fn lemma_pass_deferred_listed(
    nodes: Seq<PaintNode>,
    flags: Seq<bool>,
    node: u64,
    depth: nat,
)
    requires
        arena_wf(nodes),
        flags.len() == nodes.len(),
        node < nodes.len(),
    ensures
        forall|k: int|
            0 <= k < pass_deferred(arena_children(nodes), arena_deferred(flags), node, depth).len() ==> {
                let x = #[trigger] pass_deferred(arena_children(nodes), arena_deferred(flags), node, depth)[k];
                x < nodes.len() && flags[x as int]
            },
    decreases depth, 0nat,
{
    let listed = pass_deferred(arena_children(nodes), arena_deferred(flags), node, depth);
    if depth == 0 {
        assert(listed.len() == 0);
    } else if flags[node as int] {
        assert(arena_deferred(flags)(node) == flags[node as int]);
        assert(listed =~= seq![node]);
        assert forall|k: int| 0 <= k < listed.len() implies {
            let x = #[trigger] listed[k];
            x < nodes.len() && flags[x as int]
        } by {
            assert(listed[k] == node);
        }
    } else {
        assert(arena_deferred(flags)(node) == flags[node as int]);
        let kids = nodes[node as int].children@.map_values(|c: usize| c as u64);
        assert(arena_children(nodes)(node) == kids);
        assert forall|k: int| 0 <= k < kids.len() implies #[trigger] kids[k] < nodes.len() by {
            assert(nodes[node as int].children@[k] < nodes.len());
        }
        lemma_children_deferred_listed(nodes, flags, kids, (depth - 1) as nat);
        assert(listed == children_deferred(
            arena_children(nodes),
            arena_deferred(flags),
            kids,
            (depth - 1) as nat,
        ));
    }
}

proof fn lemma_children_deferred_listed(
    nodes: Seq<PaintNode>,
    flags: Seq<bool>,
    ids: Seq<u64>,
    depth: nat,
)
    requires
        arena_wf(nodes),
        flags.len() == nodes.len(),
        forall|k: int| 0 <= k < ids.len() ==> #[trigger] ids[k] < nodes.len(),
    ensures
        forall|k: int|
            0 <= k < children_deferred(arena_children(nodes), arena_deferred(flags), ids, depth).len() ==> {
                let x = #[trigger] children_deferred(arena_children(nodes), arena_deferred(flags), ids, depth)[k];
                x < nodes.len() && flags[x as int]
            },
    decreases depth, ids.len(),
{
    if ids.len() > 0 {
        let init = ids.drop_last();
        assert forall|k: int| 0 <= k < init.len() implies #[trigger] init[k] < nodes.len() by {
            assert(init[k] == ids[k]);
        }
        lemma_children_deferred_listed(nodes, flags, init, depth);
        lemma_pass_deferred_listed(nodes, flags, ids.last(), depth);
        let a = children_deferred(arena_children(nodes), arena_deferred(flags), init, depth);
        let b = pass_deferred(arena_children(nodes), arena_deferred(flags), ids.last(), depth);
        assert forall|k: int| 0 <= k < (a + b).len() implies {
            let x = #[trigger] (a + b)[k];
            x < nodes.len() && flags[x as int]
        } by {
            if k < a.len() {
                assert((a + b)[k] == a[k]);
            } else {
                assert((a + b)[k] == b[k - a.len()]);
            }
        }
    }
}

proof fn lemma_roots_deferred_listed(
    nodes: Seq<PaintNode>,
    flags: Seq<bool>,
    roots: Seq<u64>,
    depth: nat,
)
    requires
        arena_wf(nodes),
        flags.len() == nodes.len(),
        forall|k: int| 0 <= k < roots.len() ==> #[trigger] roots[k] < nodes.len(),
    ensures
        forall|k: int|
            0 <= k < roots_deferred(arena_children(nodes), arena_deferred(flags), roots, depth).len() ==> {
                let x = #[trigger] roots_deferred(arena_children(nodes), arena_deferred(flags), roots, depth)[k];
                x < nodes.len() && flags[x as int]
            },
    decreases roots.len(),
{
    if roots.len() > 0 {
        let init = roots.drop_last();
        assert forall|k: int| 0 <= k < init.len() implies #[trigger] init[k] < nodes.len() by {
            assert(init[k] == roots[k]);
        }
        lemma_roots_deferred_listed(nodes, flags, init, depth);
        lemma_pass_deferred_listed(nodes, flags, roots.last(), depth);
        let a = pass_deferred(arena_children(nodes), arena_deferred(flags), roots.last(), depth);
        let b = roots_deferred(arena_children(nodes), arena_deferred(flags), init, depth);
        assert forall|k: int| 0 <= k < (a + b).len() implies {
            let x = #[trigger] (a + b)[k];
            x < nodes.len() && flags[x as int]
        } by {
            if k < a.len() {
                assert((a + b)[k] == a[k]);
            } else {
                assert((a + b)[k] == b[k - a.len()]);
            }
        }
    }
}

/// Records every paint pass of the arena `nodes` from `root`: the first pass
/// paints layer 0 and leaves the elements above it; each later pass paints
/// the lowest layer left, from the elements the pass before left. Each
/// operation comes with the element it is recorded for; the operations are
/// balanced. `depth` bounds how deep a pass walks; with the arena's size as
/// `depth`, an arena of trees is painted whole (`lemma_arena_depth_suffices`).
pub fn paint_layers(nodes: &Vec<PaintNode>, root: usize, depth: usize) -> (r: Vec<PaintStep>)
    requires
        arena_wf(nodes@),
        root < nodes@.len(),
    ensures
        r@ == layered_steps(nodes@, seq![root as u64], 0, depth as nat),
        ops_of(r@) == layered_ops(nodes@, seq![root as u64], 0, depth as nat),
        balanced(ops_of(r@)),
{
    let mut all: Vec<PaintStep> = Vec::new();
    let mut roots: Vec<usize> = vec![root];
    let mut current: i32 = 0;
    proof {
        assert(roots@.map_values(|c: usize| c as u64) =~= seq![root as u64]);
        assert(all@ + layered_steps(nodes@, seq![root as u64], 0, depth as nat) =~= layered_steps(
            nodes@,
            seq![root as u64],
            0,
            depth as nat,
        ));
        assert(ops_of(all@) =~= Seq::<PaintOp>::empty());
        lemma_empty_balanced();
    }
    loop
        invariant
            arena_wf(nodes@),
            root < nodes@.len(),
            forall|k: int| 0 <= k < roots@.len() ==> #[trigger] roots@[k] < nodes@.len(),
            all@ + layered_steps(nodes@, roots@.map_values(|c: usize| c as u64), current, depth as nat)
                == layered_steps(nodes@, seq![root as u64], 0, depth as nat),
            balanced(ops_of(all@)),
        decreases i32::MAX - current,
    {
        let mut flags: Vec<bool> = Vec::new();
        let mut i: usize = 0;
        while i < nodes.len()
            invariant
                i <= nodes@.len(),
                flags@ == layer_flags(nodes@, current).take(i as int),
            decreases nodes@.len() - i,
        {
            flags.push(defers_paint(nodes[i].z_index, current));
            assert(flags@ =~= layer_flags(nodes@, current).take(i + 1));
            i += 1;
        }
        assert(flags@ =~= layer_flags(nodes@, current));
        let ghost ids = roots@.map_values(|c: usize| c as u64);
        let (steps, later) = record_pass(nodes, &roots, &flags, depth);
        let ghost pass = steps@;
        let ghost prev = all@;
        let mut steps = steps;
        all.append(&mut steps);
        proof {
            assert(all@ == prev + pass);
            lemma_ops_of_concat(prev, pass);
            lemma_siblings_balanced(ops_of(prev), ops_of(pass));
            lemma_roots_deferred_listed(nodes@, flags@, ids, depth as nat);
        }
        if later.len() == 0 {
            proof {
                assert(all@ + Seq::<PaintStep>::empty() =~= all@);
                lemma_layered_steps_ops(nodes@, seq![root as u64], 0, depth as nat);
            }
            return all;
        }
        let mut zs: Vec<Option<i32>> = Vec::new();
        let mut next_roots: Vec<usize> = Vec::new();
        let mut j: usize = 0;
        while j < later.len()
            invariant
                j <= later@.len(),
                forall|k: int| 0 <= k < later@.len() ==> {
                    let x = #[trigger] later@[k];
                    x < nodes@.len() && flags@[x as int]
                },
                zs@ == z_indices(nodes@, later@.take(j as int)),
                next_roots@.map_values(|c: usize| c as u64) == later@.take(j as int),
                forall|k: int| 0 <= k < next_roots@.len() ==> #[trigger] next_roots@[k] < nodes@.len(),
            decreases later@.len() - j,
        {
            let x = later[j];
            assert(later@[j as int] == x);
            assert(x < nodes@.len() && flags@[x as int]);
            assert(x < nodes.len());
            let xi = x as usize;
            assert(xi as int == x as int);
            assert(xi as u64 == x);
            zs.push(nodes[xi].z_index);
            next_roots.push(xi);
            assert(zs@ =~= z_indices(nodes@, later@.take(j + 1)));
            assert(next_roots@.map_values(|c: usize| c as u64) =~= later@.take(j + 1));
            j += 1;
        }
        assert(later@.take(later@.len() as int) =~= later@);
        let next = next_paint_layer(&zs, current);
        proof {
            assert forall|k: int| 0 <= k < zs@.len() implies z_of(#[trigger] zs@[k]) > current by {
                let x = later@[k];
                assert(zs@[k] == nodes@[x as int].z_index);
                assert(flags@[x as int] == layer_flags(nodes@, current)[x as int]);
            }
            lemma_passes_climb(zs@, current);
            assert(layered_steps(nodes@, ids, current, depth as nat) == pass + layered_steps(
                nodes@,
                later@,
                next,
                depth as nat,
            ));
            assert(all@ + layered_steps(nodes@, later@, next, depth as nat) =~= prev + layered_steps(
                nodes@,
                ids,
                current,
                depth as nat,
            ));
        }
        roots = next_roots;
        current = next;
    }
}

// ---------------------------------------------------------------------------
// The depth bound of a whole arena
// ---------------------------------------------------------------------------

/// `node` reaches `target` going `k` steps down from parent to child.
pub open spec fn reaches(children: spec_fn(u64) -> Seq<u64>, node: u64, target: u64, k: nat) -> bool
    decreases k,
{
    if k == 0 {
        node == target
    } else {
        exists|i: int|
            0 <= i < children(node).len() && reaches(children, #[trigger] children(node)[i], target, (k - 1) as nat)
    }
}

/// No element of the arena lies below itself: the arena holds trees.
pub open spec fn arena_acyclic(nodes: Seq<PaintNode>) -> bool {
    forall|x: u64, k: nat| x < nodes.len() && k > 0 ==> !#[trigger] reaches(arena_children(nodes), x, x, k)
}

/// Every path down from `node` has fewer than `d` elements.
pub open spec fn depth_below(children: spec_fn(u64) -> Seq<u64>, node: u64, d: nat) -> bool
    decreases d,
{
    if d == 0 {
        false
    } else {
        forall|k: int| 0 <= k < children(node).len() ==> depth_below(children, #[trigger] children(node)[k], (d - 1) as nat)
    }
}

proof fn lemma_reaches_child(children: spec_fn(u64) -> Seq<u64>, a: u64, x: u64, k: nat, i: int)
    requires
        reaches(children, a, x, k),
        0 <= i < children(x).len(),
    ensures
        reaches(children, a, children(x)[i], k + 1),
    decreases k,
{
    let y = children(x)[i];
    if k == 0 {
        assert(reaches(children, children(a)[i], y, 0));
    } else {
        let j = choose|j: int|
            0 <= j < children(a).len() && reaches(children, #[trigger] children(a)[j], x, (k - 1) as nat);
        lemma_reaches_child(children, children(a)[j], x, (k - 1) as nat, i);
        assert(reaches(children, children(a)[j], y, k));
    }
}

proof fn lemma_arena_child_in_range(nodes: Seq<PaintNode>, x: u64, k: int)
    requires
        arena_wf(nodes),
        x < nodes.len(),
        0 <= k < arena_children(nodes)(x).len(),
    ensures
        arena_children(nodes)(x)[k] < nodes.len(),
{
    assert(nodes[x as int].children@[k] < nodes.len());
}

proof fn lemma_depth_below_ancestors(nodes: Seq<PaintNode>, x: u64, above: Set<int>)
    requires
        arena_wf(nodes),
        arena_acyclic(nodes),
        x < nodes.len(),
        above.finite(),
        forall|a: int| #[trigger] above.contains(a) ==> 0 <= a < nodes.len(),
        !above.contains(x as int),
        forall|a: int|
            #[trigger] above.contains(a) ==> exists|k: nat| k > 0 && #[trigger] reaches(arena_children(nodes), a as u64, x, k),
    ensures
        above.len() < nodes.len(),
        depth_below(arena_children(nodes), x, (nodes.len() - above.len()) as nat),
    decreases nodes.len() - above.len(),
{
    let c = arena_children(nodes);
    let n = nodes.len();
    let next = above.insert(x as int);
    vstd::set_lib::lemma_int_range(0, n as int);
    assert(next.subset_of(vstd::set_lib::set_int_range(0, n as int)));
    vstd::set_lib::lemma_len_subset(next, vstd::set_lib::set_int_range(0, n as int));
    assert(next.len() == above.len() + 1);
    let d = (n - above.len()) as nat;
    assert forall|k: int| 0 <= k < c(x).len() implies depth_below(c, #[trigger] c(x)[k], (d - 1) as nat) by {
        let y = c(x)[k];
        lemma_arena_child_in_range(nodes, x, k);
        assert(reaches(c, x, x, 0));
        lemma_reaches_child(c, x, x, 0, k);
        if y == x {
            assert(reaches(c, x, x, 1));
        }
        if above.contains(y as int) {
            let m = choose|m: nat| m > 0 && #[trigger] reaches(c, (y as int) as u64, x, m);
            assert((y as int) as u64 == y);
            lemma_reaches_child(c, y, x, m, k);
            assert(reaches(c, y, y, m + 1));
        }
        assert forall|a: int| #[trigger] next.contains(a) implies exists|m: nat|
            m > 0 && #[trigger] reaches(c, a as u64, y, m) by {
            if a == x as int {
                assert(a as u64 == x);
                assert(reaches(c, a as u64, y, 1));
            } else {
                assert(above.contains(a));
                let m = choose|m: nat| m > 0 && #[trigger] reaches(c, a as u64, x, m);
                lemma_reaches_child(c, a as u64, x, m, k);
                assert(reaches(c, a as u64, y, m + 1));
            }
        }
        lemma_depth_below_ancestors(nodes, y, next);
    }
}

/// In an arena of trees, every path down from an element has fewer
/// elements than the arena.
pub proof fn lemma_arena_depth(nodes: Seq<PaintNode>, x: u64)
    requires
        arena_wf(nodes),
        arena_acyclic(nodes),
        x < nodes.len(),
    ensures
        depth_below(arena_children(nodes), x, nodes.len()),
{
    lemma_depth_below_ancestors(nodes, x, Set::<int>::empty());
}

proof fn lemma_depth_below_more(children: spec_fn(u64) -> Seq<u64>, x: u64, b: nat, d: nat)
    requires
        depth_below(children, x, b),
        b <= d,
    ensures
        depth_below(children, x, d),
    decreases b,
{
    assert forall|k: int| 0 <= k < children(x).len() implies depth_below(children, #[trigger] children(x)[k], (d - 1) as nat) by {
        lemma_depth_below_more(children, children(x)[k], (b - 1) as nat, (d - 1) as nat);
    }
}

proof fn lemma_pass_depth(
    paint: spec_fn(u64) -> ElementPaint,
    children: spec_fn(u64) -> Seq<u64>,
    tracks: spec_fn(u64) -> (Option<bool>, Option<bool>),
    deferred: spec_fn(u64) -> bool,
    node: u64,
    b: nat,
    d1: nat,
    d2: nat,
)
    requires
        depth_below(children, node, b),
        b <= d1,
        b <= d2,
    ensures
        pass_steps(paint, children, tracks, deferred, node, d1) == pass_steps(paint, children, tracks, deferred, node, d2),
        pass_deferred(children, deferred, node, d1) == pass_deferred(children, deferred, node, d2),
    decreases b, 0nat,
{
    if !deferred(node) {
        lemma_children_depth(paint, children, tracks, deferred, children(node), (b - 1) as nat, (d1 - 1) as nat, (d2 - 1) as nat);
    }
}

proof fn lemma_children_depth(
    paint: spec_fn(u64) -> ElementPaint,
    children: spec_fn(u64) -> Seq<u64>,
    tracks: spec_fn(u64) -> (Option<bool>, Option<bool>),
    deferred: spec_fn(u64) -> bool,
    nodes: Seq<u64>,
    b: nat,
    d1: nat,
    d2: nat,
)
    requires
        forall|k: int| 0 <= k < nodes.len() ==> depth_below(children, #[trigger] nodes[k], b),
        b <= d1,
        b <= d2,
    ensures
        children_steps(paint, children, tracks, deferred, nodes, d1) == children_steps(paint, children, tracks, deferred, nodes, d2),
        children_deferred(children, deferred, nodes, d1) == children_deferred(children, deferred, nodes, d2),
    decreases b, nodes.len(),
{
    if nodes.len() > 0 {
        let init = nodes.drop_last();
        assert forall|k: int| 0 <= k < init.len() implies depth_below(children, #[trigger] init[k], b) by {
            assert(init[k] == nodes[k]);
        }
        lemma_children_depth(paint, children, tracks, deferred, init, b, d1, d2);
        assert(depth_below(children, nodes[nodes.len() - 1], b));
        lemma_pass_depth(paint, children, tracks, deferred, nodes.last(), b, d1, d2);
    }
}

proof fn lemma_roots_depth(
    paint: spec_fn(u64) -> ElementPaint,
    children: spec_fn(u64) -> Seq<u64>,
    tracks: spec_fn(u64) -> (Option<bool>, Option<bool>),
    deferred: spec_fn(u64) -> bool,
    roots: Seq<u64>,
    b: nat,
    d1: nat,
    d2: nat,
)
    requires
        forall|k: int| 0 <= k < roots.len() ==> depth_below(children, #[trigger] roots[k], b),
        b <= d1,
        b <= d2,
    ensures
        roots_steps(paint, children, tracks, deferred, roots, d1) == roots_steps(paint, children, tracks, deferred, roots, d2),
        roots_deferred(children, deferred, roots, d1) == roots_deferred(children, deferred, roots, d2),
    decreases roots.len(),
{
    if roots.len() > 0 {
        let init = roots.drop_last();
        assert forall|k: int| 0 <= k < init.len() implies depth_below(children, #[trigger] init[k], b) by {
            assert(init[k] == roots[k]);
        }
        lemma_roots_depth(paint, children, tracks, deferred, init, b, d1, d2);
        assert(depth_below(children, roots[roots.len() - 1], b));
        lemma_pass_depth(paint, children, tracks, deferred, roots.last(), b, d1, d2);
    }
}

/// In an arena of trees, painting with the arena's size as the depth bound
/// paints every element below the roots: no larger bound changes a single
/// recorded step.
pub proof fn lemma_arena_depth_suffices(nodes: Seq<PaintNode>, roots: Seq<u64>, current: i32, depth: nat)
    requires
        arena_wf(nodes),
        arena_acyclic(nodes),
        forall|k: int| 0 <= k < roots.len() ==> #[trigger] roots[k] < nodes.len(),
        depth >= nodes.len(),
    ensures
        layered_steps(nodes, roots, current, depth) == layered_steps(nodes, roots, current, nodes.len()),
        layered_ops(nodes, roots, current, depth) == layered_ops(nodes, roots, current, nodes.len()),
    decreases i32::MAX - current,
{
    let n = nodes.len();
    let c = arena_children(nodes);
    let flags = layer_flags(nodes, current);
    let deferred = arena_deferred(flags);
    assert forall|k: int| 0 <= k < roots.len() implies depth_below(c, #[trigger] roots[k], n) by {
        lemma_arena_depth(nodes, roots[k]);
    }
    lemma_roots_depth(arena_paint(nodes), c, arena_tracks(nodes), deferred, roots, n, depth, n);
    let later = roots_deferred(c, deferred, roots, n);
    if later.len() > 0 {
        let next = lowest_layer(z_indices(nodes, later));
        if next > current {
            lemma_roots_deferred_listed(nodes, flags, roots, n);
            assert forall|k: int| 0 <= k < later.len() implies #[trigger] later[k] < nodes.len() by {
                assert(later[k] < nodes.len() && flags[later[k] as int]);
            }
            lemma_arena_depth_suffices(nodes, later, next, depth);
        }
    }
    lemma_layered_steps_ops(nodes, roots, current, depth);
    lemma_layered_steps_ops(nodes, roots, current, n);
}

} // verus!
