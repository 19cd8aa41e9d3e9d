//! Turning a list of path commands into the calls made on a geometry sink.
//!
//! Consecutive line commands are batched into one `AddLines` call; every other
//! segment flushes the pending lines first. A move closes the open figure (as
//! an open figure) and begins a new one; a close command ends the figure as a
//! closed one. The plan refers to commands by their index.
use vstd::prelude::*;

verus! {

/// The kind of one path command.
#[derive(Clone, Copy, Debug, PartialEq, Eq, Structural)]
pub enum PathKind {
    MoveTo,
    LineTo,
    ClosePath,
    Arc,
    CubicBezier,
    QuadraticBezier,
}

/// One call on the geometry sink.
#[derive(Clone, Copy, Debug, PartialEq, Eq, Structural)]
pub enum SinkOp {
    /// Begin a filled figure at the end point of command `index`.
    BeginFigure(usize),
    /// Add the line end points `points[first..first + count]`.
    AddLines { first: usize, count: usize },
    /// Add the arc of command `index`.
    AddArc(usize),
    /// Add the cubic Bézier segment of command `index`.
    AddBezier(usize),
    /// Add the quadratic Bézier segment of command `index`.
    AddQuadraticBezier(usize),
    /// End the current figure, closed or open.
    EndFigure { closed: bool },
}

/// The calls to make, and the line commands whose end points `AddLines` refers to.
pub struct GeometryPlan {
    pub ops: Vec<SinkOp>,
    pub points: Vec<usize>,
}

/// The planner's state after a prefix of the commands.
pub struct PlanState {
    pub ops: Seq<SinkOp>,
    pub points: Seq<usize>,
    /// How many of the last `points` are not yet added.
    pub pending: nat,
    /// Whether a figure is open.
    pub begun: bool,
}

pub open spec fn initial_state() -> PlanState {
    PlanState { ops: Seq::empty(), points: Seq::empty(), pending: 0, begun: false }
}

/// Adds the pending line points, if any.
pub open spec fn flush(st: PlanState) -> PlanState {
    if st.pending > 0 {
        PlanState {
            ops: st.ops.push(
                SinkOp::AddLines {
                    first: (st.points.len() - st.pending) as usize,
                    count: st.pending as usize,
                },
            ),
            pending: 0,
            ..st
        }
    } else {
        st
    }
}

/// The effect of command `i` of kind `k`.
pub open spec fn step(st: PlanState, i: int, k: PathKind) -> PlanState {
    match k {
        PathKind::MoveTo => {
            let st1 = if st.begun {
                let f = flush(st);
                PlanState { ops: f.ops.push(SinkOp::EndFigure { closed: false }), ..f }
            } else {
                st
            };
            PlanState { ops: st1.ops.push(SinkOp::BeginFigure(i as usize)), begun: true, ..st1 }
        },
        PathKind::LineTo => PlanState {
            points: st.points.push(i as usize),
            pending: st.pending + 1,
            ..st
        },
        PathKind::Arc => {
            let f = flush(st);
            PlanState { ops: f.ops.push(SinkOp::AddArc(i as usize)), ..f }
        },
        PathKind::CubicBezier => {
            let f = flush(st);
            PlanState { ops: f.ops.push(SinkOp::AddBezier(i as usize)), ..f }
        },
        PathKind::QuadraticBezier => {
            let f = flush(st);
            PlanState { ops: f.ops.push(SinkOp::AddQuadraticBezier(i as usize)), ..f }
        },
        PathKind::ClosePath => {
            let f = flush(st);
            PlanState { ops: f.ops.push(SinkOp::EndFigure { closed: true }), begun: false, ..f }
        },
    }
}

/// The state after the first `n` commands.
pub open spec fn plan_prefix(kinds: Seq<PathKind>, n: int) -> PlanState
    decreases n,
{
    if n <= 0 {
        initial_state()
    } else {
        step(plan_prefix(kinds, n - 1), n - 1, kinds[n - 1])
    }
}

/// The final state: pending lines are added and an open figure is ended open.
pub open spec fn finish(st: PlanState) -> PlanState {
    let f = flush(st);
    if f.begun {
        PlanState { ops: f.ops.push(SinkOp::EndFigure { closed: false }), ..f }
    } else {
        f
    }
}

/// The complete plan for `kinds`.
pub open spec fn plan_spec(kinds: Seq<PathKind>) -> PlanState {
    finish(plan_prefix(kinds, kinds.len() as int))
}

/// Plans the sink calls that draw the path whose commands have kinds `kinds`.
pub fn plan_geometry(kinds: &Vec<PathKind>) -> (plan: GeometryPlan)
    ensures
        plan.ops@ == plan_spec(kinds@).ops,
        plan.points@ == plan_spec(kinds@).points,
{
    let mut ops: Vec<SinkOp> = Vec::new();
    let mut points: Vec<usize> = Vec::new();
    let mut pending: usize = 0;
    let mut begun = false;
    let mut i: usize = 0;
    while i < kinds.len()
        invariant
            i <= kinds.len(),
            pending <= points.len(),
            points.len() <= i,
            ({
                let st = plan_prefix(kinds@, i as int);
                &&& st.ops == ops@
                &&& st.points == points@
                &&& st.pending == pending
                &&& st.begun == begun
            }),
        decreases kinds.len() - i,
    {
        let k = kinds[i];
        match k {
            PathKind::LineTo => {
                points.push(i);
                pending += 1;
            },
            _ => {
                let ends_figure = match k {
                    PathKind::MoveTo => begun,
                    _ => true,
                };
                if ends_figure && pending > 0 {
                    ops.push(SinkOp::AddLines { first: points.len() - pending, count: pending });
                    pending = 0;
                }
                match k {
                    PathKind::MoveTo => {
                        if begun {
                            ops.push(SinkOp::EndFigure { closed: false });
                        }
                        ops.push(SinkOp::BeginFigure(i));
                        begun = true;
                    },
                    PathKind::Arc => ops.push(SinkOp::AddArc(i)),
                    PathKind::CubicBezier => ops.push(SinkOp::AddBezier(i)),
                    PathKind::QuadraticBezier => ops.push(SinkOp::AddQuadraticBezier(i)),
                    _ => {
                        ops.push(SinkOp::EndFigure { closed: true });
                        begun = false;
                    },
                }
            },
        }
        i += 1;
    }
    if pending > 0 {
        ops.push(SinkOp::AddLines { first: points.len() - pending, count: pending });
    }
    if begun {
        ops.push(SinkOp::EndFigure { closed: false });
    }
    GeometryPlan { ops, points }
}

// ---------------------------------------------------------------------------
// Every line command is drawn exactly once, in order
// ---------------------------------------------------------------------------

/// The positions of the line commands among the first `n` commands.
pub open spec fn line_indices(kinds: Seq<PathKind>, n: int) -> Seq<usize>
    decreases n,
{
    if n <= 0 {
        Seq::empty()
    } else if kinds[n - 1] == PathKind::LineTo {
        line_indices(kinds, n - 1).push((n - 1) as usize)
    } else {
        line_indices(kinds, n - 1)
    }
}

/// How many line points the `AddLines` calls in `ops` add.
pub open spec fn lines_added(ops: Seq<SinkOp>) -> nat
    decreases ops.len(),
{
    if ops.len() == 0 {
        0
    } else {
        lines_added(ops.drop_last()) + match ops.last() {
            SinkOp::AddLines { first, count } => count as nat,
            _ => 0,
        }
    }
}

/// Each `AddLines` call starts where the previous ones stopped.
pub open spec fn lines_contiguous(ops: Seq<SinkOp>) -> bool {
    forall|j: int|
        0 <= j < ops.len() ==> match #[trigger] ops[j] {
            SinkOp::AddLines { first, count } => first == lines_added(ops.take(j)) && count > 0,
            _ => true,
        }
}

proof fn lemma_prefix_invariant(kinds: Seq<PathKind>, n: int)
    requires
        0 <= n <= kinds.len(),
        kinds.len() < usize::MAX,
    ensures
        ({
            let st = plan_prefix(kinds, n);
            &&& st.points == line_indices(kinds, n)
            &&& st.points.len() <= n
            &&& st.pending <= st.points.len()
            &&& lines_added(st.ops) + st.pending == st.points.len()
            &&& lines_contiguous(st.ops)
        }),
    decreases n,
{
    if n > 0 {
        lemma_prefix_invariant(kinds, n - 1);
        let st = plan_prefix(kinds, n - 1);
        lemma_flush(st);
        let f = flush(st);
        let k = kinds[n - 1];
        let st2 = plan_prefix(kinds, n);
        if k == PathKind::MoveTo && st.begun {
            lemma_push_other(f.ops, SinkOp::EndFigure { closed: false });
            lemma_push_other(f.ops.push(SinkOp::EndFigure { closed: false }), SinkOp::BeginFigure((n - 1) as usize));
        } else if k == PathKind::MoveTo {
            lemma_push_other(st.ops, SinkOp::BeginFigure((n - 1) as usize));
        } else if k == PathKind::Arc {
            lemma_push_other(f.ops, SinkOp::AddArc((n - 1) as usize));
        } else if k == PathKind::CubicBezier {
            lemma_push_other(f.ops, SinkOp::AddBezier((n - 1) as usize));
        } else if k == PathKind::QuadraticBezier {
            lemma_push_other(f.ops, SinkOp::AddQuadraticBezier((n - 1) as usize));
        } else if k == PathKind::ClosePath {
            lemma_push_other(f.ops, SinkOp::EndFigure { closed: true });
        }
    }
}

proof fn lemma_push_other(ops: Seq<SinkOp>, op: SinkOp)
    requires
        lines_contiguous(ops),
        !(op is AddLines),
    ensures
        lines_added(ops.push(op)) == lines_added(ops),
        lines_contiguous(ops.push(op)),
{
    let ops2 = ops.push(op);
    assert(ops2.drop_last() =~= ops);
    assert forall|j: int| 0 <= j < ops2.len() implies match #[trigger] ops2[j] {
        SinkOp::AddLines { first, count } => first == lines_added(ops2.take(j)) && count > 0,
        _ => true,
    } by {
        if j < ops.len() {
            assert(ops2.take(j) =~= ops.take(j));
            assert(ops2[j] == ops[j]);
        }
    }
}

proof fn lemma_flush(st: PlanState)
    requires
        st.pending <= st.points.len(),
        lines_added(st.ops) + st.pending == st.points.len(),
        lines_contiguous(st.ops),
        st.points.len() <= usize::MAX,
    ensures
        flush(st).points == st.points,
        flush(st).pending == 0,
        flush(st).begun == st.begun,
        lines_added(flush(st).ops) == st.points.len(),
        lines_contiguous(flush(st).ops),
{
    if st.pending > 0 {
        let op = SinkOp::AddLines {
            first: (st.points.len() - st.pending) as usize,
            count: st.pending as usize,
        };
        let ops2 = st.ops.push(op);
        assert(ops2.drop_last() =~= st.ops);
        assert forall|j: int| 0 <= j < ops2.len() implies match #[trigger] ops2[j] {
            SinkOp::AddLines { first, count } => first == lines_added(ops2.take(j)) && count > 0,
            _ => true,
        } by {
            if j < st.ops.len() {
                assert(ops2.take(j) =~= st.ops.take(j));
                assert(ops2[j] == st.ops[j]);
            } else {
                assert(ops2.take(j) =~= st.ops);
            }
        }
    }
}

/// Every line command of the path is added exactly once and in order: the
/// plan's points are the positions of the line commands, and its `AddLines`
/// calls cover them one after another without gap or overlap.
pub proof fn lemma_every_line_drawn_once(kinds: Seq<PathKind>)
    requires
        kinds.len() < usize::MAX,
    ensures
        plan_spec(kinds).points == line_indices(kinds, kinds.len() as int),
        lines_added(plan_spec(kinds).ops) == plan_spec(kinds).points.len(),
        lines_contiguous(plan_spec(kinds).ops),
{
    let n = kinds.len() as int;
    lemma_prefix_invariant(kinds, n);
    let st = plan_prefix(kinds, n);
    lemma_flush(st);
    let f = flush(st);
    if f.begun {
        lemma_push_other(f.ops, SinkOp::EndFigure { closed: false });
    }
}

} // verus!
