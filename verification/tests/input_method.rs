use raxis::shell::{request_input_method, DeferredControl, InputMethod};

type Control = DeferredControl<(), (f32, f32)>;

#[test]
fn enabling_moves_the_candidate_window() {
    let mut ime = InputMethod::Disabled;
    let r: Option<Control> = request_input_method(&mut ime, InputMethod::Enabled { position: (3.0, 4.0) });
    assert!(matches!(r, Some(DeferredControl::SetIMEPosition { position }) if position == (3.0, 4.0)));
    assert_eq!(ime, InputMethod::Enabled { position: (3.0, 4.0) });
}

#[test]
fn staying_disabled_does_nothing() {
    let mut ime: InputMethod<(f32, f32)> = InputMethod::Disabled;
    let r: Option<Control> = request_input_method(&mut ime, InputMethod::Disabled);
    assert!(r.is_none());
    assert_eq!(ime, InputMethod::Disabled);
}

#[test]
fn disabling_defers_disable_and_keeps_the_state() {
    let mut ime = InputMethod::Enabled { position: (1.0, 1.0) };
    let r: Option<Control> = request_input_method(&mut ime, InputMethod::Disabled);
    assert!(matches!(r, Some(DeferredControl::DisableIME)));
    assert_eq!(ime, InputMethod::Enabled { position: (1.0, 1.0) });
}

#[test]
fn moving_only_when_the_position_changes() {
    let mut ime = InputMethod::Enabled { position: (1.0, 1.0) };
    let same: Option<Control> = request_input_method(&mut ime, InputMethod::Enabled { position: (1.0, 1.0) });
    assert!(same.is_none());
    let moved: Option<Control> = request_input_method(&mut ime, InputMethod::Enabled { position: (2.0, 1.0) });
    assert!(matches!(moved, Some(DeferredControl::SetIMEPosition { position }) if position == (2.0, 1.0)));
    assert_eq!(ime, InputMethod::Enabled { position: (1.0, 1.0) });
}
