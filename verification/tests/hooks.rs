use raxis::hooks::{use_animation, HookInstance, HookState};
use raxis::model::Easing;
use raxis::shell::Animation;
use std::cell::Cell;
use std::time::Duration;

#[test]
fn hooks_are_found_again_by_call_order() {
    let calls = Cell::new(0u32);
    let mut first = HookInstance::new(HookState::<u32>::new());
    *first.use_hook(|| {
        calls.set(calls.get() + 1);
        10
    }) += 1;
    let b = first.use_hook(|| {
        calls.set(calls.get() + 1);
        20
    });
    assert_eq!(*b, 20);
    assert_eq!(first.current_position(), 2);
    let state = first.into_state();
    assert_eq!(state.len(), 2);
    assert_eq!(calls.get(), 2);

    let mut second = HookInstance::new(state);
    let a = *second.use_hook(|| panic!("an existing hook is not created again"));
    let b = *second.use_hook(|| panic!("an existing hook is not created again"));
    assert_eq!((a, b), (11, 20));
    let c = *second.use_hook(|| 30);
    assert_eq!(c, 30);
    let state = second.into_state();
    assert_eq!(state.len(), 3);
    assert_eq!(state.get(2), Some(&30));
    assert_eq!(state.get(3), None);
}

#[test]
fn empty_hook_state() {
    let state: HookState<i64> = HookState::default();
    assert_eq!(state.len(), 0);
    assert_eq!(state.get(0), None);
}

#[test]
fn animation_hook_is_created_settled_then_retargeted() {
    let mut render = HookInstance::new(HookState::new());
    let a = use_animation(&mut render, false);
    assert!(!a.active());
    assert_eq!(a.value(), false);
    assert_eq!(a.last_target(), false);
    assert_eq!(a.span(), Duration::from_millis(100));
    assert_eq!(a.curve(), Easing::EaseOut);

    let mut render = HookInstance::new(render.into_state());
    let same = use_animation(&mut render, false);
    assert!(!same.active());

    let mut render = HookInstance::new(render.into_state());
    let moved = use_animation(&mut render, true);
    assert!(moved.active());
    assert_eq!(moved.value(), true);
    assert_eq!(moved.last_target(), false);
    let state = render.into_state();
    assert_eq!(state.get(0).map(|a| a.value()), Some(true));
}

#[test]
fn repeating_an_animation_update_changes_nothing() {
    let mut render = HookInstance::new(HookState::new());
    let _ = use_animation(&mut render, 1u32);
    let mut render = HookInstance::new(render.into_state());
    let moved = use_animation(&mut render, 2u32);
    let mut render = HookInstance::new(render.into_state());
    let again = use_animation(&mut render, 2u32);
    assert!(again.active());
    assert_eq!(again.value(), 2);
    assert_eq!(again.last_target(), 1);
    assert_eq!(again.origin(), moved.origin());
}

#[test]
fn an_animation_restarts_only_when_told_the_target_changed() {
    let mut a = Animation::new(3u32);
    a.retarget(3, false);
    assert!(!a.active());
    assert_eq!(a.value(), 3);
    a.retarget(8, true);
    assert!(a.active());
    assert_eq!(a.value(), 8);
    assert_eq!(a.last_target(), 3);
}

#[test]
fn an_animation_towards_nan_restarts_on_every_update() {
    let mut a = Animation::new(0.5f32);
    a.update(f32::NAN);
    assert!(a.active());
    assert_eq!(a.last_target(), 0.5);
    let first = a.origin();
    a.update(f32::NAN);
    assert!(a.value().is_nan());
    assert!(a.last_target().is_nan());
    assert!(a.origin() >= first);
}
