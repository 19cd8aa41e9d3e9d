use raxis::runtime::messages::{
    classify_message, frame_hit_result, frame_step, is_windows_11_version, FrameStep,
    WindowMessage, WM_ASYNC_MESSAGE, WM_CHAR, WM_ERASEBKGND, WM_NCCALCSIZE, WM_NCHITTEST,
    WM_PAINT,
};

#[test]
fn messages_go_to_their_handlers() {
    assert_eq!(classify_message(WM_PAINT, None), WindowMessage::Paint);
    assert_eq!(classify_message(0x0102, None), WindowMessage::Char);
    assert_eq!(classify_message(WM_CHAR, Some(WM_CHAR)), WindowMessage::Char);
    assert_eq!(classify_message(0x0464, None), WindowMessage::TrayIcon);
    assert_eq!(classify_message(0x04C8, None), WindowMessage::ShowContextMenu);
    assert_eq!(classify_message(WM_ASYNC_MESSAGE, None), WindowMessage::AsyncMessage);
    assert_eq!(classify_message(0x0112, None), WindowMessage::SysCommand);
    assert_eq!(classify_message(0x02E0, None), WindowMessage::DpiChanged);
}

#[test]
fn registered_taskbar_message_is_recognised() {
    assert_eq!(classify_message(0xC123, Some(0xC123)), WindowMessage::TaskbarCreated);
    assert_eq!(classify_message(0xC123, Some(0xC124)), WindowMessage::Other);
    assert_eq!(classify_message(0xC123, None), WindowMessage::Other);
}

#[test]
fn custom_frame_steps() {
    assert_eq!(frame_step(WM_NCCALCSIZE, 1, false, 0), FrameStep::AdjustClientArea);
    assert_eq!(frame_step(WM_NCCALCSIZE, 0, false, 0), FrameStep::Continue);
    assert_eq!(frame_step(WM_NCCALCSIZE, 0, true, 5), FrameStep::Answer(5));
    assert_eq!(frame_step(WM_NCHITTEST, 0, true, 0), FrameStep::HitTest);
    assert_eq!(frame_step(WM_NCHITTEST, 0, true, 20), FrameStep::Answer(20));
    assert_eq!(frame_step(WM_ERASEBKGND, 0, true, 3), FrameStep::EraseBackground);
    assert_eq!(frame_step(WM_PAINT, 0, false, 0), FrameStep::Continue);
}

#[test]
fn titlebar_hit_results() {
    assert_eq!(frame_hit_result(false, 0), None);
    assert_eq!(frame_hit_result(true, 0), Some(0));
    assert_eq!(frame_hit_result(false, 2), Some(2));
}

#[test]
fn windows_11_is_build_22000_of_version_10() {
    assert!(is_windows_11_version(10, 22000));
    assert!(is_windows_11_version(10, 26100));
    assert!(!is_windows_11_version(10, 19045));
    assert!(!is_windows_11_version(6, 22000));
}
