//! Per-widget hook storage: values that survive from one render to the next,
//! found again by the order in which a widget asks for them.
use crate::shell::{duration_of_millis, updated, Animation};
use crate::model::Easing;
use vstd::prelude::*;
use vstd::std_specs::cmp::PartialEqSpec;

verus! {

/// The hooks of one widget, in the order it first asked for them.
pub struct HookState<T> {
    hooks: Vec<T>,
}

impl<T> HookState<T> {
    /// The stored hook values.
    pub closed spec fn slots(&self) -> Seq<T> {
        self.hooks@
    }

    /// No hooks yet.
    pub fn new() -> (r: Self)
        ensures
            r.slots() == Seq::<T>::empty(),
    {
        HookState { hooks: Vec::new() }
    }

    /// How many hooks are stored.
    pub fn len(&self) -> (r: usize)
        ensures
            r == self.slots().len(),
    {
        self.hooks.len()
    }

    /// The hook at `index`.
    pub fn get(&self, index: usize) -> (r: Option<&T>)
        ensures
            index < self.slots().len() ==> r == Some(&self.slots()[index as int]),
            index >= self.slots().len() ==> r is None,
    {
        if index < self.hooks.len() {
            Some(&self.hooks[index])
        } else {
            None
        }
    }
}

impl<T> Default for HookState<T> {
    fn default() -> (r: Self)
        ensures
            r.slots() == Seq::<T>::empty(),
    {
        HookState::new()
    }
}

/// One render's walk over a widget's hooks: the n-th request gets the n-th
/// hook.
pub struct HookInstance<T> {
    state: HookState<T>,
    position: usize,
}

impl<T> HookInstance<T> {
    /// The hooks as they stand.
    pub closed spec fn slots(&self) -> Seq<T> {
        self.state.slots()
    }

    /// How many hooks this render has asked for.
    pub closed spec fn position(&self) -> nat {
        self.position as nat
    }

    /// The walk never runs ahead of the stored hooks.
    pub open spec fn wf(&self) -> bool {
        self.position() <= self.slots().len()
    }

    /// Starts a render's walk over `state`.
    pub fn new(state: HookState<T>) -> (r: Self)
        ensures
            r.slots() == state.slots(),
            r.position() == 0,
            r.wf(),
    {
        HookInstance { state, position: 0 }
    }

    /// How many hooks this render has asked for.
    pub fn current_position(&self) -> (r: usize)
        ensures
            r == self.position(),
    {
        self.position
    }

    /// Ends the walk and hands back the hooks.
    pub fn into_state(self) -> (r: HookState<T>)
        ensures
            r.slots() == self.slots(),
    {
        self.state
    }

    /// The next hook of this render. A hook that earlier renders created is
    /// handed back as it was left; the first time, `initializer` makes it.
    pub fn use_hook<F: FnOnce() -> T>(&mut self, initializer: F) -> (r: &mut T)
        requires
            old(self).wf(),
            old(self).slots().len() < usize::MAX,
            old(self).position() == old(self).slots().len() ==> call_requires(initializer, ()),
        ensures
            final(self).wf(),
            final(self).position() == old(self).position() + 1,
            old(self).position() < old(self).slots().len() ==> {
                &&& *r == old(self).slots()[old(self).position() as int]
                &&& final(self).slots() == old(self).slots().update(
                    old(self).position() as int,
                    *final(r),
                )
            },
            old(self).position() == old(self).slots().len() ==> {
                &&& call_ensures(initializer, (), *r)
                &&& final(self).slots() == old(self).slots().push(*final(r))
            },
    {
        if self.position == self.state.hooks.len() {
            let value = initializer();
            self.state.hooks.push(value);
        }
        let index = self.position;
        self.position = self.position + 1;
        &mut self.state.hooks[index]
    }
}

/// The animation a widget keeps for `state`: created at `state` the first
/// time (where `state` is not equal to itself, it starts right away),
/// retargeted to `state` on later renders (see `Animation::update`).
pub fn use_animation<S: Copy + PartialEq>(hook: &mut HookInstance<Animation<S>>, state: S) -> (r:
    Animation<S>)
    requires
        old(hook).wf(),
        old(hook).slots().len() < usize::MAX,
    ensures
        final(hook).wf(),
        final(hook).position() == old(hook).position() + 1,
        old(hook).position() < old(hook).slots().len() ==> {
            let before = old(hook).slots()[old(hook).position() as int];
            &&& updated(before, r, state)
            &&& final(hook).slots() == old(hook).slots().update(old(hook).position() as int, r)
        },
        old(hook).position() == old(hook).slots().len() ==> {
            &&& r.target_value() == state
            &&& r.previous_target() == state
            &&& r.length() == duration_of_millis(100)
            &&& r.easing_kind() == Easing::EaseOut
            &&& S::obeys_eq_spec() ==> r.is_active() == !state.eq_spec(&state)
            &&& final(hook).slots() == old(hook).slots().push(r)
        },
{
    let fresh = || -> (a: Animation<S>)
        ensures
            !a.is_active(),
            a.target_value() == state,
            a.previous_target() == state,
            a.length() == duration_of_millis(100),
            a.easing_kind() == Easing::EaseOut,
        { Animation::new(state) };
    let animation = hook.use_hook(fresh);
    animation.update(state);
    *animation
}

} // verus!
