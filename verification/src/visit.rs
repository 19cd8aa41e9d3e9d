//! Traversal orders over the UI tree.
//!
//! Each traversal is a small state machine over element keys: the caller asks
//! for the next frame, runs its visitor on it, and hands back the children of
//! an element it chose to enter. Deferred frames are revisited in a later pass.
use vstd::prelude::*;
use std::collections::VecDeque;

verus! {

/// What a visitor asks the traversal to do next.
#[derive(Clone, Copy, Debug, PartialEq, Eq, Structural)]
pub enum VisitAction {
    Continue,
    Exit,
}

impl VisitAction {
    pub fn is_exit(&self) -> (r: bool)
        ensures
            r == (*self == VisitAction::Exit),
    {
        match self {
            VisitAction::Exit => true,
            VisitAction::Continue => false,
        }
    }
}

impl From<bool> for VisitAction {
    /// `true` continues the traversal, `false` stops it.
    fn from(val: bool) -> (r: Self) {
        if val {
            VisitAction::Continue
        } else {
            VisitAction::Exit
        }
    }
}

impl vstd::std_specs::convert::FromSpecImpl<bool> for VisitAction {
    open spec fn obeys_from_spec() -> bool {
        true
    }

    open spec fn from_spec(val: bool) -> VisitAction {
        if val {
            VisitAction::Continue
        } else {
            VisitAction::Exit
        }
    }
}

impl From<()> for VisitAction {
    /// A visitor that returns nothing continues the traversal.
    fn from(val: ()) -> (r: Self) {
        VisitAction::Continue
    }
}

impl vstd::std_specs::convert::FromSpecImpl<()> for VisitAction {
    open spec fn obeys_from_spec() -> bool {
        true
    }

    open spec fn from_spec(val: ()) -> VisitAction {
        VisitAction::Continue
    }
}

/// One step of a depth-first traversal: visiting `element`, or (when `exit`
/// is set) leaving it after all its descendants.
#[derive(Clone, Copy, Debug, PartialEq, Eq, Structural)]
pub struct VisitFrame {
    pub element: u64,
    pub parent: Option<u64>,
    pub exit: bool,
}

/// The frames for `children` of `parent`, in the order they are pushed on a
/// stack so that they are popped in their given order.
pub open spec fn child_frames_rev(parent: u64, children: Seq<u64>) -> Seq<VisitFrame> {
    Seq::new(
        children.len(),
        |k: int|
            VisitFrame {
                element: children[children.len() - 1 - k],
                parent: Some(parent),
                exit: false,
            },
    )
}

/// Depth-first traversal with exit frames and deferral passes.
pub struct DepthFirst {
    stack: Vec<VisitFrame>,
    deferred: Vec<VisitFrame>,
}

impl DepthFirst {
    /// The frames still to pop; the last one is popped first.
    pub closed spec fn stack(&self) -> Seq<VisitFrame> {
        self.stack@
    }

    /// The frames deferred during the current pass, in deferral order.
    pub closed spec fn deferred_frames(&self) -> Seq<VisitFrame> {
        self.deferred@
    }

    /// Starts at `root`, which has no parent.
    pub fn new(root: u64) -> (r: Self)
        ensures
            r.stack() == seq![VisitFrame { element: root, parent: None, exit: false }],
            r.deferred_frames() == Seq::<VisitFrame>::empty(),
    {
        DepthFirst {
            stack: vec![VisitFrame { element: root, parent: None, exit: false }],
            deferred: Vec::new(),
        }
    }

    /// Pops the next frame of the current pass.
    pub fn next(&mut self) -> (r: Option<VisitFrame>)
        ensures
            old(self).stack().len() == 0 ==> r is None && final(self).stack() == old(self).stack(),
            old(self).stack().len() > 0 ==> r == Some(old(self).stack().last()) && final(self).stack()
                == old(self).stack().drop_last(),
            final(self).deferred_frames() == old(self).deferred_frames(),
    {
        self.stack.pop()
    }

    /// Enters the visited (non-exit) `frame`: its exit frame is scheduled after
    /// its `children`, which are visited in their given order.
    pub fn enter(&mut self, frame: VisitFrame, children: &[u64])
        ensures
            final(self).stack() == old(self).stack().push(VisitFrame { exit: true, ..frame }) + child_frames_rev(
                frame.element,
                children@,
            ),
            final(self).deferred_frames() == old(self).deferred_frames(),
    {
        let ghost base = self.stack@.push(VisitFrame { exit: true, ..frame });
        self.stack.push(VisitFrame { element: frame.element, parent: frame.parent, exit: true });
        let mut k = children.len();
        while k > 0
            invariant
                k <= children.len(),
                self.stack@ == base + child_frames_rev(frame.element, children@).take(
                    (children.len() - k) as int,
                ),
                self.deferred@ == old(self).deferred@,
            decreases k,
        {
            k -= 1;
            self.stack.push(VisitFrame { element: children[k], parent: Some(frame.element), exit: false });
            proof {
                let all = child_frames_rev(frame.element, children@);
                assert(all.take((children.len() - k) as int) =~= all.take(
                    (children.len() - k - 1) as int,
                ).push(all[(children.len() - k - 1) as int]));
            }
        }
        proof {
            let all = child_frames_rev(frame.element, children@);
            assert(all.take(children.len() as int) =~= all);
        }
    }

    /// Defers `frame` to a later pass.
    pub fn defer(&mut self, frame: VisitFrame)
        ensures
            final(self).stack() == old(self).stack(),
            final(self).deferred_frames() == old(self).deferred_frames().push(frame),
    {
        self.deferred.push(frame);
    }

    /// The frames deferred during the current pass.
    pub fn deferred(&self) -> (r: &[VisitFrame])
        ensures
            r@ == self.deferred_frames(),
    {
        self.deferred.as_slice()
    }

    /// When the current pass is over, starts the next one with the deferred
    /// frames (the last deferred frame is popped first). Returns `false`, and
    /// changes nothing, when there is nothing deferred.
    pub fn start_next_pass(&mut self) -> (r: bool)
        ensures
            r == (old(self).deferred_frames().len() > 0),
            r ==> final(self).stack() == old(self).deferred_frames() && final(self).deferred_frames()
                == Seq::<VisitFrame>::empty(),
            !r ==> final(self).stack() == old(self).stack() && final(self).deferred_frames() == old(self).deferred_frames(),
    {
        if self.deferred.len() == 0 {
            false
        } else {
            let mut next: Vec<VisitFrame> = Vec::new();
            std::mem::swap(&mut next, &mut self.deferred);
            self.stack = next;
            true
        }
    }
}

/// The queue entries for `children` of `parent`, in reverse order.
pub open spec fn child_entries_rev(parent: u64, children: Seq<u64>) -> Seq<(u64, Option<u64>)> {
    Seq::new(
        children.len(),
        |k: int| (children[children.len() - 1 - k], Some(parent)),
    )
}

/// The queue entries for `children` of `parent`, in order.
pub open spec fn child_entries(parent: u64, children: Seq<u64>) -> Seq<(u64, Option<u64>)> {
    Seq::new(children.len(), |k: int| (children[k], Some(parent)))
}

/// Breadth-first traversal with deferral passes.
pub struct BreadthFirst {
    queue: VecDeque<(u64, Option<u64>)>,
    deferred: Vec<(u64, Option<u64>)>,
}

impl BreadthFirst {
    /// The entries still to visit; the first one is visited first.
    pub closed spec fn queue(&self) -> Seq<(u64, Option<u64>)> {
        self.queue@
    }

    /// The entries deferred during the current pass, in deferral order.
    pub closed spec fn deferred_entries(&self) -> Seq<(u64, Option<u64>)> {
        self.deferred@
    }

    /// Starts at `root`, which has no parent.
    pub fn new(root: u64) -> (r: Self)
        ensures
            r.queue() == seq![(root, None::<u64>)],
            r.deferred_entries() == Seq::<(u64, Option<u64>)>::empty(),
    {
        let mut queue = VecDeque::new();
        queue.push_back((root, None));
        BreadthFirst { queue, deferred: Vec::new() }
    }

    /// Takes the next entry of the current pass.
    pub fn next(&mut self) -> (r: Option<(u64, Option<u64>)>)
        ensures
            old(self).queue().len() == 0 ==> r is None && final(self).queue() == old(self).queue(),
            old(self).queue().len() > 0 ==> r == Some(old(self).queue()[0]) && final(self).queue()
                == old(self).queue().drop_first(),
            final(self).deferred_entries() == old(self).deferred_entries(),
    {
        self.queue.pop_front()
    }

    /// Queues the `children` of `parent` after everything already queued, last
    /// child first.
    pub fn enqueue_children(&mut self, parent: u64, children: &[u64])
        ensures
            final(self).queue() == old(self).queue() + child_entries_rev(parent, children@),
            final(self).deferred_entries() == old(self).deferred_entries(),
    {
        let ghost base = self.queue@;
        let mut k = children.len();
        while k > 0
            invariant
                k <= children.len(),
                self.queue@ == base + child_entries_rev(parent, children@).take(
                    (children.len() - k) as int,
                ),
                self.deferred@ == old(self).deferred@,
            decreases k,
        {
            k -= 1;
            self.queue.push_back((children[k], Some(parent)));
            proof {
                let all = child_entries_rev(parent, children@);
                assert(all.take((children.len() - k) as int) =~= all.take(
                    (children.len() - k - 1) as int,
                ).push(all[(children.len() - k - 1) as int]));
            }
        }
        proof {
            let all = child_entries_rev(parent, children@);
            assert(all.take(children.len() as int) =~= all);
        }
    }

    /// Defers `entry` to a later pass.
    pub fn defer(&mut self, entry: (u64, Option<u64>))
        ensures
            final(self).queue() == old(self).queue(),
            final(self).deferred_entries() == old(self).deferred_entries().push(entry),
    {
        self.deferred.push(entry);
    }

    /// When the current pass is over, starts the next one with the deferred
    /// entries, in deferral order. Returns `false`, and changes nothing, when
    /// there is nothing deferred.
    pub fn start_next_pass(&mut self) -> (r: bool)
        ensures
            r == (old(self).deferred_entries().len() > 0),
            r ==> final(self).queue() == old(self).deferred_entries() && final(self).deferred_entries() == Seq::<(u64, Option<u64>)>::empty(),
            !r ==> final(self).queue() == old(self).queue() && final(self).deferred_entries() == old(self).deferred_entries(),
    {
        if self.deferred.len() == 0 {
            return false;
        }
        let mut queue: VecDeque<(u64, Option<u64>)> = VecDeque::new();
        let mut k: usize = 0;
        while k < self.deferred.len()
            invariant
                k <= self.deferred.len(),
                queue@ == self.deferred@.take(k as int),
            decreases self.deferred.len() - k,
        {
            queue.push_back(self.deferred[k]);
            assert(self.deferred@.take(k + 1) =~= self.deferred@.take(k as int).push(self.deferred@[k as int]));
            k += 1;
        }
        assert(self.deferred@.take(self.deferred.len() as int) =~= self.deferred@);
        self.queue = queue;
        self.deferred = Vec::new();
        true
    }
}

/// Collects a breadth-first order (children in their given order) to be
/// visited in reverse, from the leaves back to the root.
pub struct ReverseBreadthFirst {
    queue: VecDeque<(u64, Option<u64>)>,
    order: Vec<(u64, Option<u64>)>,
}

impl ReverseBreadthFirst {
    pub closed spec fn queue(&self) -> Seq<(u64, Option<u64>)> {
        self.queue@
    }

    /// The entries collected so far, in breadth-first order.
    pub closed spec fn order(&self) -> Seq<(u64, Option<u64>)> {
        self.order@
    }

    pub fn new(root: u64) -> (r: Self)
        ensures
            r.queue() == seq![(root, None::<u64>)],
            r.order() == Seq::<(u64, Option<u64>)>::empty(),
    {
        let mut queue = VecDeque::new();
        queue.push_back((root, None));
        ReverseBreadthFirst { queue, order: Vec::new() }
    }

    /// Takes the next entry to expand, recording it in the order.
    pub fn next_to_expand(&mut self) -> (r: Option<(u64, Option<u64>)>)
        ensures
            old(self).queue().len() == 0 ==> r is None && final(self).queue() == old(self).queue()
                && final(self).order() == old(self).order(),
            old(self).queue().len() > 0 ==> r == Some(old(self).queue()[0]) && final(self).queue()
                == old(self).queue().drop_first() && final(self).order() == old(self).order().push(
                old(self).queue()[0],
            ),
    {
        match self.queue.pop_front() {
            None => None,
            Some(e) => {
                self.order.push(e);
                Some(e)
            },
        }
    }

    /// Queues the `children` of `parent`, in their given order.
    pub fn expand(&mut self, parent: u64, children: &[u64])
        ensures
            final(self).queue() == old(self).queue() + child_entries(parent, children@),
            final(self).order() == old(self).order(),
    {
        let ghost base = self.queue@;
        let mut k: usize = 0;
        while k < children.len()
            invariant
                k <= children.len(),
                self.queue@ == base + child_entries(parent, children@).take(k as int),
                self.order@ == old(self).order@,
            decreases children.len() - k,
        {
            self.queue.push_back((children[k], Some(parent)));
            proof {
                let all = child_entries(parent, children@);
                assert(all.take(k + 1) =~= all.take(k as int).push(all[k as int]));
            }
            k += 1;
        }
        proof {
            let all = child_entries(parent, children@);
            assert(all.take(children.len() as int) =~= all);
        }
    }

    /// The collected entries in visiting order: the reverse of the collection order.
    pub fn into_visit_order(self) -> (r: Vec<(u64, Option<u64>)>)
        ensures
            r@ == self.order().reverse(),
    {
        let mut order = self.order;
        let ghost visited = order@;
        let mut r: Vec<(u64, Option<u64>)> = Vec::new();
        while order.len() > 0
            invariant
                order@ == visited.take(order@.len() as int),
                r@ == visited.reverse().take(visited.len() - order@.len()),
                order@.len() <= visited.len(),
            decreases order.len(),
        {
            let e = order.pop().unwrap();
            proof {
                let n = visited.len();
                let m = order@.len();
                assert(e == visited[m as int]);
                assert(visited.reverse()[n - 1 - m] == visited[m as int]);
                assert(visited.reverse().take(n - m) =~= visited.reverse().take(n - m - 1).push(
                    visited.reverse()[n - m - 1],
                ));
                assert(order@ =~= visited.take(m as int));
            }
            r.push(e);
        }
        assert(visited.reverse().take(visited.len() as int) =~= visited.reverse());
        r
    }
}

/// Depth-first order: after entering a frame, the next frames taken are its
/// children in their given order (the first child first), and once they
/// are taken (with nothing else entered) the frame's own exit frame follows.
pub proof fn lemma_depth_first_order(stack: Seq<VisitFrame>, frame: VisitFrame, children: Seq<u64>)
    ensures
        ({
            let s = stack.push(VisitFrame { exit: true, ..frame }) + child_frames_rev(
                frame.element,
                children,
            );
            &&& forall|k: int|
                0 <= k < children.len() ==> #[trigger] s[s.len() - 1 - k] == VisitFrame {
                    element: children[k],
                    parent: Some(frame.element),
                    exit: false,
                }
            &&& s[s.len() - 1 - children.len()] == VisitFrame { exit: true, ..frame }
            &&& s.take(stack.len() as int) == stack
        }),
{
    let s = stack.push(VisitFrame { exit: true, ..frame }) + child_frames_rev(frame.element, children);
    assert(s.take(stack.len() as int) =~= stack);
}

/// Breadth-first order: the children of a node are visited after everything
/// already queued, and the queue keeps its earlier entries first.
pub proof fn lemma_breadth_first_order(queue: Seq<(u64, Option<u64>)>, parent: u64, children: Seq<u64>)
    ensures
        ({
            let q = queue + child_entries_rev(parent, children);
            &&& q.take(queue.len() as int) == queue
            &&& forall|k: int|
                0 <= k < children.len() ==> #[trigger] q[queue.len() + k] == (
                    children[children.len() - 1 - k],
                    Some(parent),
                )
        }),
{
    let q = queue + child_entries_rev(parent, children);
    assert(q.take(queue.len() as int) =~= queue);
}

} // verus!
