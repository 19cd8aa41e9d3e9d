//! Window-level event bookkeeping: which widget captured the current event,
//! which element is active between mouse down and up, which elements the
//! mouse entered or left, when the next redraw is due, and animations of
//! widget state.
use vstd::prelude::*;
use std::time::{Duration, Instant};
use crate::model::Easing;
use vstd::std_specs::cmp::PartialEqSpec;

verus! {

// ---------------------------------------------------------------------------
// Time
// ---------------------------------------------------------------------------

#[verifier::external_type_specification]
#[verifier::external_body]
pub struct ExInstant(std::time::Instant);

/// Whether the instant `a` is earlier than `b` (`Instant`'s order).
pub uninterp spec fn instant_precedes(a: Instant, b: Instant) -> bool;

/// Calls `Instant::lt`; the result is named `instant_precedes`.
#[verifier::external_body]
fn instant_before(a: &Instant, b: &Instant) -> (r: bool)
    ensures
        r == instant_precedes(*a, *b),
{
    *a < *b
}

/// Calls `Instant::now`; nothing is known of the instant it returns.
#[verifier::external_body]
fn instant_now() -> Instant {
    Instant::now()
}

/// The duration `Duration::from_millis(ms)` returns.
pub uninterp spec fn duration_of_millis(ms: u64) -> Duration;

/// Calls `Duration::from_millis`; the result is named `duration_of_millis`.
#[verifier::external_body]
fn duration_from_millis(ms: u64) -> (r: Duration)
    ensures
        r == duration_of_millis(ms),
{
    Duration::from_millis(ms)
}

// ---------------------------------------------------------------------------
// Redraw requests
// ---------------------------------------------------------------------------

/// When the window wants to be painted next.
#[derive(Debug, Clone, Copy)]
pub enum RedrawRequest {
    Immediate,
    At(Instant),
    Wait,
}

/// The order of redraw requests: immediate, then timed ones by instant, then waiting.
pub open spec fn redraw_precedes(a: RedrawRequest, b: RedrawRequest) -> bool {
    match (a, b) {
        (RedrawRequest::Immediate, RedrawRequest::Immediate) => false,
        (RedrawRequest::Immediate, _) => true,
        (RedrawRequest::At(x), RedrawRequest::At(y)) => instant_precedes(x, y),
        (RedrawRequest::At(_), RedrawRequest::Wait) => true,
        (_, _) => false,
    }
}

/// Whether `a` asks for an earlier redraw than `b`.
pub fn redraw_earlier(a: &RedrawRequest, b: &RedrawRequest) -> (r: bool)
    ensures
        r == redraw_precedes(*a, *b),
{
    match (a, b) {
        (RedrawRequest::Immediate, RedrawRequest::Immediate) => false,
        (RedrawRequest::Immediate, _) => true,
        (RedrawRequest::At(x), RedrawRequest::At(y)) => instant_before(x, y),
        (RedrawRequest::At(_), RedrawRequest::Wait) => true,
        (_, _) => false,
    }
}

/// What the window must do after a redraw request.
#[derive(Debug, Clone, Copy)]
pub enum RedrawAction {
    /// Nothing: an earlier or equal redraw is already pending.
    Nothing,
    /// Invalidate the window now.
    Invalidate,
    /// Arm the redraw timer to fire at the instant.
    SetTimer(Instant),
}

/// The timer that wakes the window for a timed redraw.
pub const REDRAW_TIMER_ID: usize = 50;

// ---------------------------------------------------------------------------
// Input method and deferred window controls
// ---------------------------------------------------------------------------

/// Whether text input goes through an input method, and where its candidate
/// window sits.
#[derive(Debug, Clone, Copy, PartialEq)]
pub enum InputMethod<P> {
    Disabled,
    Enabled { position: P },
}

/// Window work that waits until the current event has been handled.
pub enum DeferredControl<D, P> {
    /// Start dragging `data` out of the widget `src_id`.
    StartDrag { data: D, src_id: u64 },
    /// Move the input method's candidate window.
    SetIMEPosition { position: P },
    /// Turn the input method off.
    DisableIME,
    /// Put text on the clipboard.
    SetClipboardText(String),
}

/// Handles a widget's request for the input method state `ime`: returns the
/// window control to defer, if any. Enabling from disabled records the new
/// state and moves the candidate window; disabling from enabled turns the
/// input method off (the recorded state stays as it was); moving an enabled
/// input method moves the candidate window when the position differs (the
/// recorded state stays as it was).
pub fn request_input_method<D, P: Copy + PartialEq>(
    current: &mut InputMethod<P>,
    ime: InputMethod<P>,
) -> (r: Option<DeferredControl<D, P>>)
    ensures
        match (*old(current), ime) {
            (InputMethod::Disabled, InputMethod::Disabled) => {
                &&& r is None
                &&& *final(current) == *old(current)
            },
            (InputMethod::Disabled, InputMethod::Enabled { position }) => {
                &&& r == Some(DeferredControl::<D, P>::SetIMEPosition { position })
                &&& *final(current) == ime
            },
            (InputMethod::Enabled { .. }, InputMethod::Disabled) => {
                &&& r == Some(DeferredControl::<D, P>::DisableIME)
                &&& *final(current) == *old(current)
            },
            (InputMethod::Enabled { position }, InputMethod::Enabled { position: requested }) => {
                &&& *final(current) == *old(current)
                &&& (r is None || r == Some(
                    DeferredControl::<D, P>::SetIMEPosition { position: requested },
                ))
                &&& P::obeys_eq_spec() ==> (r is None <==> position.eq_spec(&requested))
            },
        },
{
    match *current {
        InputMethod::Disabled => match ime {
            InputMethod::Disabled => None,
            InputMethod::Enabled { position } => {
                *current = ime;
                Some(DeferredControl::SetIMEPosition { position })
            },
        },
        InputMethod::Enabled { position } => match ime {
            InputMethod::Disabled => Some(DeferredControl::DisableIME),
            InputMethod::Enabled { position: requested } => {
                if position != requested {
                    Some(DeferredControl::SetIMEPosition { position: requested })
                } else {
                    None
                }
            },
        },
    }
}

// ---------------------------------------------------------------------------
// Shell state
// ---------------------------------------------------------------------------

/// The kind of a mouse event, as far as the bookkeeping cares.
#[derive(Debug, Clone, Copy, PartialEq, Eq, Structural)]
pub enum MouseEventKind {
    ButtonDown,
    ButtonUp,
    Move,
    Other,
}

/// The elements of `a` that are not in `b`, in their order in `a`.
pub open spec fn minus(a: Seq<u64>, b: Seq<u64>) -> Seq<u64>
    decreases a.len(),
{
    if a.len() == 0 {
        Seq::empty()
    } else if b.contains(a.last()) {
        minus(a.drop_last(), b)
    } else {
        minus(a.drop_last(), b).push(a.last())
    }
}

/// The bookkeeping a window keeps between events.
pub struct ShellState {
    event_captured_by: Option<u64>,
    active_element_id: Option<u64>,
    previous_mouse_ancestry: Vec<u64>,
    redraw_request: RedrawRequest,
}

impl ShellState {
    pub closed spec fn captured_by(&self) -> Option<u64> {
        self.event_captured_by
    }

    pub closed spec fn active_element(&self) -> Option<u64> {
        self.active_element_id
    }

    pub closed spec fn hovered(&self) -> Seq<u64> {
        self.previous_mouse_ancestry@
    }

    pub closed spec fn pending_redraw(&self) -> RedrawRequest {
        self.redraw_request
    }

    pub fn new() -> (r: Self)
        ensures
            r.captured_by() is None,
            r.active_element() is None,
            r.hovered() == Seq::<u64>::empty(),
            r.pending_redraw() is Wait,
    {
        ShellState {
            event_captured_by: None,
            active_element_id: None,
            previous_mouse_ancestry: Vec::new(),
            redraw_request: RedrawRequest::Wait,
        }
    }

    /// Starts dispatching a new event: nothing has captured it yet.
    pub fn begin_event(&mut self)
        ensures
            final(self).captured_by() is None,
            final(self).active_element() == old(self).active_element(),
            final(self).hovered() == old(self).hovered(),
            final(self).pending_redraw() == old(self).pending_redraw(),
    {
        self.event_captured_by = None;
    }

    /// The widget that captured the current event, if any.
    pub fn event_captured_by(&self) -> (r: Option<u64>)
        ensures
            r == self.captured_by(),
    {
        self.event_captured_by
    }

    /// The element that is active since the last mouse down, if any.
    pub fn active_element_id(&self) -> (r: Option<u64>)
        ensures
            r == self.active_element(),
    {
        self.active_element_id
    }

    /// Captures the event for widget `id`, preventing further traversal: no
    /// ancestor widget will receive it. Returns whether the event was
    /// captured now (it is not when another widget captured it first).
    pub fn capture_event(&mut self, id: u64) -> (r: bool)
        ensures
            r == (old(self).captured_by() is None),
            final(self).captured_by() == (if r {
                Some(id)
            } else {
                old(self).captured_by()
            }),
            final(self).active_element() == old(self).active_element(),
            final(self).hovered() == old(self).hovered(),
            final(self).pending_redraw() == old(self).pending_redraw(),
    {
        if self.event_captured_by.is_some() {
            return false;
        }
        self.event_captured_by = Some(id);
        true
    }

    /// After a mouse event was dispatched: a button press makes the widget
    /// that captured it the active element, a release clears it.
    pub fn finish_mouse_event(&mut self, kind: MouseEventKind)
        ensures
            final(self).active_element() == match kind {
                MouseEventKind::ButtonDown => old(self).captured_by(),
                MouseEventKind::ButtonUp => None,
                _ => old(self).active_element(),
            },
            final(self).captured_by() == old(self).captured_by(),
            final(self).hovered() == old(self).hovered(),
            final(self).pending_redraw() == old(self).pending_redraw(),
    {
        match kind {
            MouseEventKind::ButtonDown => self.active_element_id = self.event_captured_by,
            MouseEventKind::ButtonUp => self.active_element_id = None,
            _ => {},
        }
    }

    /// Clears the active element (a drop ends a press without a release).
    pub fn clear_active_element(&mut self)
        ensures
            final(self).active_element() is None,
            final(self).captured_by() == old(self).captured_by(),
            final(self).hovered() == old(self).hovered(),
            final(self).pending_redraw() == old(self).pending_redraw(),
    {
        self.active_element_id = None;
    }

    /// The mouse moved over the elements with ids `current` (innermost
    /// first): returns the ids it left (hovered before, in their earlier
    /// order) and those it entered (in their order in `current`), and
    /// remembers `current` as hovered.
    pub fn track_hover(&mut self, current: Vec<u64>) -> (r: (Vec<u64>, Vec<u64>))
        ensures
            r.0@ == minus(old(self).hovered(), current@),
            r.1@ == minus(current@, old(self).hovered()),
            final(self).hovered() == current@,
            final(self).captured_by() == old(self).captured_by(),
            final(self).active_element() == old(self).active_element(),
            final(self).pending_redraw() == old(self).pending_redraw(),
    {
        let left = retain_missing(&self.previous_mouse_ancestry, &current);
        let entered = retain_missing(&current, &self.previous_mouse_ancestry);
        self.previous_mouse_ancestry = current;
        (left, entered)
    }

    /// The mouse left every element: returns the ids hovered until now.
    pub fn leave_all(&mut self) -> (r: Vec<u64>)
        ensures
            r@ == old(self).hovered(),
            final(self).hovered() == Seq::<u64>::empty(),
            final(self).captured_by() == old(self).captured_by(),
            final(self).active_element() == old(self).active_element(),
            final(self).pending_redraw() == old(self).pending_redraw(),
    {
        let mut left: Vec<u64> = Vec::new();
        std::mem::swap(&mut left, &mut self.previous_mouse_ancestry);
        left
    }

    /// The pending redraw request.
    pub fn redraw_request(&self) -> (r: RedrawRequest)
        ensures
            r == self.pending_redraw(),
    {
        self.redraw_request
    }

    /// Replaces the pending redraw request, whatever it was.
    pub fn replace_redraw_request(&mut self, request: RedrawRequest)
        ensures
            final(self).pending_redraw() == request,
            final(self).captured_by() == old(self).captured_by(),
            final(self).active_element() == old(self).active_element(),
            final(self).hovered() == old(self).hovered(),
    {
        self.redraw_request = request;
    }

    /// Asks for a redraw. Only a request earlier than the pending one is
    /// recorded; it is carried out by invalidating the window (immediate) or
    /// by arming the redraw timer (timed).
    pub fn request_redraw(&mut self, request: RedrawRequest) -> (r: RedrawAction)
        ensures
            redraw_precedes(request, old(self).pending_redraw()) ==> final(self).pending_redraw()
                == request && match request {
                RedrawRequest::Immediate => r is Invalidate,
                RedrawRequest::At(t) => r == RedrawAction::SetTimer(t),
                RedrawRequest::Wait => r is Nothing,
            },
            !redraw_precedes(request, old(self).pending_redraw()) ==> final(self).pending_redraw()
                == old(self).pending_redraw() && r is Nothing,
            final(self).captured_by() == old(self).captured_by(),
            final(self).active_element() == old(self).active_element(),
            final(self).hovered() == old(self).hovered(),
    {
        if redraw_earlier(&request, &self.redraw_request) {
            self.redraw_request = request;
            match request {
                RedrawRequest::Immediate => RedrawAction::Invalidate,
                RedrawRequest::At(t) => RedrawAction::SetTimer(t),
                RedrawRequest::Wait => RedrawAction::Nothing,
            }
        } else {
            RedrawAction::Nothing
        }
    }

    /// A timer fired: when it is the redraw timer, the pending request is
    /// satisfied (back to waiting) and the timer must be killed.
    pub fn redraw_timer_fired(&mut self, timer_id: usize) -> (kill: bool)
        ensures
            kill == (timer_id == REDRAW_TIMER_ID),
            kill ==> final(self).pending_redraw() is Wait,
            !kill ==> final(self).pending_redraw() == old(self).pending_redraw(),
            final(self).captured_by() == old(self).captured_by(),
            final(self).active_element() == old(self).active_element(),
            final(self).hovered() == old(self).hovered(),
    {
        if timer_id == REDRAW_TIMER_ID {
            self.redraw_request = RedrawRequest::Wait;
            true
        } else {
            false
        }
    }
}

/// The elements of `a` that are not in `b`, in order.
fn retain_missing(a: &Vec<u64>, b: &Vec<u64>) -> (r: Vec<u64>)
    ensures
        r@ == minus(a@, b@),
{
    let mut r: Vec<u64> = Vec::new();
    let mut i: usize = 0;
    while i < a.len()
        invariant
            i <= a.len(),
            r@ == minus(a@.take(i as int), b@),
        decreases a.len() - i,
    {
        let x = a[i];
        let mut found = false;
        let mut j: usize = 0;
        while j < b.len()
            invariant
                j <= b.len(),
                found == b@.take(j as int).contains(x),
            decreases b.len() - j,
        {
            if b[j] == x {
                found = true;
            }
            proof {
                let t = b@.take(j as int);
                let t1 = b@.take(j + 1);
                assert(t1 =~= t.push(b@[j as int]));
                if b@[j as int] == x {
                    assert(t1[j as int] == x);
                } else {
                    if t1.contains(x) {
                        let k = choose|k: int| 0 <= k < t1.len() && #[trigger] t1[k] == x;
                        assert(k < j);
                        assert(t[k] == x);
                    }
                    if t.contains(x) {
                        let k = choose|k: int| 0 <= k < t.len() && #[trigger] t[k] == x;
                        assert(t1[k] == x);
                    }
                }
            }
            j += 1;
        }
        assert(b@.take(b.len() as int) =~= b@);
        proof {
            assert(a@.take(i + 1).drop_last() =~= a@.take(i as int));
        }
        if !found {
            r.push(x);
        }
        i += 1;
    }
    assert(a@.take(a.len() as int) =~= a@);
    r
}

/// The first position at or after `i` where `x` occurs in `s`, if any.
pub open spec fn first_index_from(s: Seq<u64>, x: u64, i: int) -> Option<int>
    decreases s.len() - i,
{
    if i < 0 || i >= s.len() {
        None
    } else if s[i] == x {
        Some(i)
    } else {
        first_index_from(s, x, i + 1)
    }
}

/// The ancestry `shared` (innermost first) extended down to the innermost
/// element under the mouse: when the innermost element's own chain of
/// ancestors (itself first) reaches the first key of `shared`, the part of
/// the chain below that key is put in front; otherwise `shared` is kept.
pub open spec fn extended_ancestry(shared: Seq<u64>, chain: Option<Seq<u64>>) -> Seq<u64> {
    if shared.len() == 0 {
        shared
    } else {
        match chain {
            None => shared,
            Some(c) => match first_index_from(c, shared[0], 0) {
                Some(k) => c.take(k) + shared,
                None => shared,
            },
        }
    }
}

/// Extends the ancestry of the event's target (see `extended_ancestry`), so
/// that child elements still receive mouse events when only their container
/// captures the pointer.
pub fn try_extend_ancestry_to(shared: Vec<u64>, chain: Option<&[u64]>) -> (r: Vec<u64>)
    ensures
        r@ == extended_ancestry(shared@, match chain {
            Some(c) => Some(c@),
            None => None,
        }),
{
    if shared.len() == 0 {
        return shared;
    }
    let c = match chain {
        None => {
            return shared;
        },
        Some(c) => c,
    };
    let first = shared[0];
    let mut k: usize = 0;
    while k < c.len()
        invariant
            k <= c.len(),
            shared.len() > 0,
            first == shared@[0],
            chain == Some(c),
            first_index_from(c@, first, 0) == first_index_from(c@, first, k as int),
        decreases c.len() - k,
    {
        if c[k] == first {
            assert(first_index_from(c@, first, 0) == Some(k as int));
            let mut out: Vec<u64> = Vec::new();
            let mut m: usize = 0;
            while m < k
                invariant
                    m <= k,
                    k < c.len(),
                    out@ == c@.take(m as int),
                    first_index_from(c@, first, 0) == Some(k as int),
                decreases k - m,
            {
                out.push(c[m]);
                assert(c@.take(m + 1) =~= c@.take(m as int).push(c@[m as int]));
                m += 1;
            }
            let mut j: usize = 0;
            while j < shared.len()
                invariant
                    j <= shared.len(),
                    out@ == c@.take(k as int) + shared@.take(j as int),
                    first_index_from(c@, first, 0) == Some(k as int),
                    shared.len() > 0,
                    first == shared@[0],
                    chain == Some(c),
                decreases shared.len() - j,
            {
                out.push(shared[j]);
                assert(shared@.take(j + 1) =~= shared@.take(j as int).push(shared@[j as int]));
                j += 1;
            }
            assert(shared@.take(shared.len() as int) =~= shared@);
            assert(out@ =~= c@.take(k as int) + shared@);
            return out;
        }
        k += 1;
    }
    shared
}

/// On a button press outside the focused widget (its id is not among the ids
/// of the elements under the pointer), that widget loses the focus.
pub fn focus_to_release(kind: MouseEventKind, focused: Option<u64>, under_pointer: &Vec<u64>) -> (r: Option<u64>)
    ensures
        r == (if kind == MouseEventKind::ButtonDown && focused is Some && !under_pointer@.contains(
            focused->0,
        ) {
            focused
        } else {
            None::<u64>
        }),
{
    if kind != MouseEventKind::ButtonDown {
        return None;
    }
    match focused {
        Some(id) => {
            let mut i: usize = 0;
            while i < under_pointer.len()
                invariant
                    i <= under_pointer.len(),
                    forall|k: int| 0 <= k < i ==> under_pointer@[k] != id,
                    kind == MouseEventKind::ButtonDown,
                    focused == Some(id),
                decreases under_pointer.len() - i,
            {
                if under_pointer[i] == id {
                    assert(under_pointer@[i as int] == id);
                    assert(under_pointer@.contains(id));
                    return None;
                }
                i += 1;
            }
            Some(id)
        },
        _ => None,
    }
}

/// Moving the mouse within the same elements reports no entering or leaving,
/// and an element is never reported both left and entered by one move.
pub proof fn lemma_hover_transitions(previous: Seq<u64>, current: Seq<u64>, id: u64)
    ensures
        minus(current, current) == Seq::<u64>::empty(),
        !(minus(previous, current).contains(id) && minus(current, previous).contains(id)),
{
    lemma_minus_self(current);
    if minus(previous, current).contains(id) {
        lemma_minus_member(previous, current, id);
        lemma_minus_member(current, previous, id);
    }
}

proof fn lemma_minus_self(a: Seq<u64>)
    ensures
        minus(a, a) == Seq::<u64>::empty(),
{
    lemma_minus_covered(a, a);
}

proof fn lemma_minus_covered(a: Seq<u64>, b: Seq<u64>)
    requires
        forall|k: int| 0 <= k < a.len() ==> b.contains(#[trigger] a[k]),
    ensures
        minus(a, b) == Seq::<u64>::empty(),
    decreases a.len(),
{
    if a.len() > 0 {
        let p = a.drop_last();
        assert forall|k: int| 0 <= k < p.len() implies b.contains(#[trigger] p[k]) by {
            assert(p[k] == a[k]);
        }
        lemma_minus_covered(p, b);
        assert(b.contains(a[a.len() - 1]));
    }
}

proof fn lemma_minus_member(a: Seq<u64>, b: Seq<u64>, id: u64)
    ensures
        minus(a, b).contains(id) ==> a.contains(id) && !b.contains(id),
    decreases a.len(),
{
    if a.len() > 0 {
        let p = a.drop_last();
        lemma_minus_member(p, b, id);
        if minus(a, b).contains(id) {
            if !b.contains(a.last()) && id == a.last() {
                assert(a[a.len() - 1] == id);
            } else {
                if !b.contains(a.last()) {
                    let m = minus(p, b);
                    let k = choose|k: int| 0 <= k < m.push(a.last()).len() && #[trigger] m.push(a.last())[k] == id;
                    assert(k < m.len());
                    assert(m[k] == id);
                }
                assert(p.contains(id));
                let k = choose|k: int| 0 <= k < p.len() && #[trigger] p[k] == id;
                assert(a[k] == id);
            }
        }
    }
}

// ---------------------------------------------------------------------------
// Animations
// ---------------------------------------------------------------------------

/// A value of widget state that animates from its previous target to its
/// current one.
#[derive(Debug)]
pub struct Animation<S> {
    active: bool,
    target: S,
    last_target: S,
    origin_ts: Instant,
    duration: Duration,
    easing: Easing,
}

/// `after` is `before` restarted towards `state`: running, from `before`'s
/// target, with the same length and easing.
pub open spec fn restarted<S: Copy + PartialEq>(before: Animation<S>, after: Animation<S>, state: S) -> bool {
    &&& after.is_active()
    &&& after.previous_target() == before.target_value()
    &&& after.target_value() == state
    &&& after.length() == before.length()
    &&& after.easing_kind() == before.easing_kind()
}

/// `after` is what `update(state)` makes of `before`: restarted where
/// `state` differs from `before`'s target, `before` itself where it does not.
pub open spec fn updated<S: Copy + PartialEq>(before: Animation<S>, after: Animation<S>, state: S) -> bool {
    &&& restarted(before, after, state) || after == before
    &&& S::obeys_eq_spec() && state.eq_spec(&before.target_value()) ==> after == before
    &&& S::obeys_eq_spec() && !state.eq_spec(&before.target_value()) ==> restarted(before, after, state)
}

/// Updating twice to the same state changes nothing the second time, where
/// `==` on `S` is reflexive at that state.
pub proof fn lemma_update_idempotent<S: Copy + PartialEq>(
    a0: Animation<S>,
    a1: Animation<S>,
    a2: Animation<S>,
    state: S,
)
    requires
        S::obeys_eq_spec(),
        state.eq_spec(&state),
        updated(a0, a1, state),
        updated(a1, a2, state),
    ensures
        a2 == a1,
{
}

/// Two renders of an animation hook: created settled at `s1` and updated to
/// `s1`, it stays settled at `s1`; updated then to a different `s2`, it runs
/// from `s1` to `s2` with the same length and easing.
pub proof fn lemma_animation_two_renders<S: Copy + PartialEq>(
    created: Animation<S>,
    first: Animation<S>,
    second: Animation<S>,
    s1: S,
    s2: S,
)
    requires
        S::obeys_eq_spec(),
        s1.eq_spec(&s1),
        !s2.eq_spec(&s1),
        !created.is_active(),
        created.target_value() == s1,
        created.previous_target() == s1,
        updated(created, first, s1),
        updated(first, second, s2),
    ensures
        first == created,
        !first.is_active(),
        first.target_value() == s1,
        second.is_active(),
        second.target_value() == s2,
        second.previous_target() == s1,
        second.length() == first.length(),
        second.easing_kind() == first.easing_kind(),
{
}

impl<S: Copy> Clone for Animation<S> {
    /// A copy of the animation.
    fn clone(&self) -> (r: Self)
        ensures
            r == *self,
    {
        *self
    }
}

impl<S: Copy> Copy for Animation<S> {

}

impl<S: Copy + PartialEq> Animation<S> {
    pub closed spec fn is_active(&self) -> bool {
        self.active
    }

    pub closed spec fn target_value(&self) -> S {
        self.target
    }

    pub closed spec fn previous_target(&self) -> S {
        self.last_target
    }

    pub closed spec fn started(&self) -> Instant {
        self.origin_ts
    }

    pub closed spec fn length(&self) -> Duration {
        self.duration
    }

    pub closed spec fn easing_kind(&self) -> Easing {
        self.easing
    }

    /// A settled animation at `initial`, lasting 100 ms with ease-out.
    pub fn new(initial: S) -> (r: Self)
        ensures
            !r.is_active(),
            r.target_value() == initial,
            r.previous_target() == initial,
            r.length() == duration_of_millis(100),
            r.easing_kind() == Easing::EaseOut,
    {
        Animation {
            active: false,
            target: initial,
            last_target: initial,
            origin_ts: instant_now(),
            duration: duration_from_millis(100),
            easing: Easing::EaseOut,
        }
    }

    /// Moves the target to `state`: when it differs from the current target
    /// (by `S`'s `!=`), the animation restarts now from the current target;
    /// otherwise it stays as it is.
    pub fn update(&mut self, state: S)
        ensures
            updated(*old(self), *final(self), state),
    {
        let changed = state != self.target;
        self.retarget(state, changed);
    }

    /// Moves the target to `state` given whether `state` differs from the
    /// current target (`changed`, as `S`'s `!=` says): where it does, the
    /// animation restarts now from the current target; where it does not, it
    /// stays exactly as it is.
    pub fn retarget(&mut self, state: S, changed: bool)
        ensures
            changed ==> restarted(*old(self), *final(self), state),
            !changed ==> *final(self) == *old(self),
    {
        if changed {
            self.active = true;
            self.last_target = self.target;
            self.target = state;
            self.origin_ts = instant_now();
        }
    }

    /// The current target.
    pub fn value(&self) -> (r: S)
        ensures
            r == self.target_value(),
    {
        self.target
    }

    /// The previous target, where the animation starts from.
    pub fn last_target(&self) -> (r: S)
        ensures
            r == self.previous_target(),
    {
        self.last_target
    }

    /// Whether the animation has ever been started.
    pub fn active(&self) -> (r: bool)
        ensures
            r == self.is_active(),
    {
        self.active
    }

    /// When the animation last started.
    pub fn origin(&self) -> (r: Instant)
        ensures
            r == self.started(),
    {
        self.origin_ts
    }

    /// How long the animation lasts.
    pub fn span(&self) -> (r: Duration)
        ensures
            r == self.length(),
    {
        self.duration
    }

    /// The easing curve.
    pub fn curve(&self) -> (r: Easing)
        ensures
            r == self.easing_kind(),
    {
        self.easing
    }

    /// The same animation lasting `duration`.
    pub fn duration(self, duration: Duration) -> (r: Self)
        ensures
            r.length() == duration,
            r.is_active() == self.is_active(),
            r.target_value() == self.target_value(),
            r.previous_target() == self.previous_target(),
            r.started() == self.started(),
            r.easing_kind() == self.easing_kind(),
    {
        Animation { duration, ..self }
    }

    /// The same animation with `easing`.
    pub fn easing(self, easing: Easing) -> (r: Self)
        ensures
            r.easing_kind() == easing,
            r.is_active() == self.is_active(),
            r.target_value() == self.target_value(),
            r.previous_target() == self.previous_target(),
            r.started() == self.started(),
            r.length() == self.length(),
    {
        Animation { easing, ..self }
    }
}

} // verus!
