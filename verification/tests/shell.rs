use raxis::shell::{
    focus_to_release, redraw_earlier, try_extend_ancestry_to, MouseEventKind, RedrawAction,
    RedrawRequest, ShellState, REDRAW_TIMER_ID,
};
use std::time::{Duration, Instant};

#[test]
fn the_first_widget_to_capture_an_event_keeps_it() {
    let mut s = ShellState::new();
    s.begin_event();
    assert!(s.capture_event(7));
    assert!(!s.capture_event(8));
    assert_eq!(s.event_captured_by(), Some(7));
    s.finish_mouse_event(MouseEventKind::ButtonDown);
    assert_eq!(s.active_element_id(), Some(7));
    s.begin_event();
    assert_eq!(s.event_captured_by(), None);
    s.finish_mouse_event(MouseEventKind::Move);
    assert_eq!(s.active_element_id(), Some(7));
    s.finish_mouse_event(MouseEventKind::ButtonUp);
    assert_eq!(s.active_element_id(), None);
    s.begin_event();
    s.finish_mouse_event(MouseEventKind::ButtonDown);
    assert_eq!(s.active_element_id(), None);
}

#[test]
fn hover_tracking_reports_left_and_entered_elements() {
    let mut s = ShellState::new();
    let (left, entered) = s.track_hover(vec![3, 2, 1]);
    assert_eq!((left, entered), (vec![], vec![3, 2, 1]));
    let (left, entered) = s.track_hover(vec![5, 4, 2, 1]);
    assert_eq!((left, entered), (vec![3], vec![5, 4]));
    assert_eq!(s.leave_all(), vec![5, 4, 2, 1]);
    assert_eq!(s.leave_all(), Vec::<u64>::new());
}

#[test]
fn earlier_redraw_requests_win() {
    let now = Instant::now();
    let soon = now + Duration::from_millis(10);
    let later = now + Duration::from_millis(500);
    assert!(redraw_earlier(&RedrawRequest::Immediate, &RedrawRequest::Wait));
    assert!(redraw_earlier(&RedrawRequest::At(soon), &RedrawRequest::At(later)));
    assert!(!redraw_earlier(&RedrawRequest::At(later), &RedrawRequest::At(soon)));
    assert!(!redraw_earlier(&RedrawRequest::Immediate, &RedrawRequest::Immediate));

    let mut s = ShellState::new();
    assert!(matches!(s.redraw_request(), RedrawRequest::Wait));
    assert!(matches!(s.request_redraw(RedrawRequest::At(later)), RedrawAction::SetTimer(t) if t == later));
    assert!(matches!(s.request_redraw(RedrawRequest::At(later)), RedrawAction::Nothing));
    assert!(matches!(s.request_redraw(RedrawRequest::At(soon)), RedrawAction::SetTimer(t) if t == soon));
    assert!(matches!(s.request_redraw(RedrawRequest::Wait), RedrawAction::Nothing));
    assert!(matches!(s.request_redraw(RedrawRequest::Immediate), RedrawAction::Invalidate));
    assert!(matches!(s.request_redraw(RedrawRequest::At(soon)), RedrawAction::Nothing));
    assert!(!s.redraw_timer_fired(REDRAW_TIMER_ID + 1));
    assert!(matches!(s.redraw_request(), RedrawRequest::Immediate));
    assert!(s.redraw_timer_fired(REDRAW_TIMER_ID));
    assert!(matches!(s.redraw_request(), RedrawRequest::Wait));
    s.replace_redraw_request(RedrawRequest::Immediate);
    assert!(matches!(s.redraw_request(), RedrawRequest::Immediate));
}

#[test]
fn ancestry_is_extended_down_to_the_innermost_element() {
    assert_eq!(try_extend_ancestry_to(vec![3, 2, 1], Some(&[9, 8, 3, 2, 1])), vec![9, 8, 3, 2, 1]);
    assert_eq!(try_extend_ancestry_to(vec![3, 2, 1], Some(&[3, 2, 1])), vec![3, 2, 1]);
    assert_eq!(try_extend_ancestry_to(vec![3, 2, 1], Some(&[7, 6])), vec![3, 2, 1]);
    assert_eq!(try_extend_ancestry_to(vec![3, 2, 1], None), vec![3, 2, 1]);
    assert_eq!(try_extend_ancestry_to(vec![], Some(&[1])), Vec::<u64>::new());
}

#[test]
fn presses_outside_the_focused_widget_release_it() {
    assert_eq!(focus_to_release(MouseEventKind::ButtonDown, Some(4), &vec![1, 2]), Some(4));
    assert_eq!(focus_to_release(MouseEventKind::ButtonDown, Some(2), &vec![1, 2]), None);
    assert_eq!(focus_to_release(MouseEventKind::Move, Some(4), &vec![1, 2]), None);
    assert_eq!(focus_to_release(MouseEventKind::ButtonDown, None, &vec![]), None);
}
