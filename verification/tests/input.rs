use raxis::input::{
    decode_char_message, handle_syscommand, hit_test_caption_buttons, hit_test_frame,
    point_from_lparam, size_from_lparam, CharInput, FrameBands, MouseState, Point, Rect, SystemCommand,
    SystemCommandResponse, TitlebarHitRegions, HTBOTTOMRIGHT, HTCAPTION, HTCLIENT, HTCLOSE,
    HTLEFT, HTMAXBUTTON, HTMINBUTTON, HTNOWHERE, HTTOP, HTTOPLEFT,
};

#[test]
fn system_commands_ignore_the_low_bits() {
    assert_eq!(SystemCommand::from_wparam(0xF020), SystemCommand::Minimize);
    assert_eq!(SystemCommand::from_wparam(0xF032), SystemCommand::Maximize);
    assert_eq!(SystemCommand::from_wparam(0xF12F), SystemCommand::Restore);
    assert_eq!(SystemCommand::from_wparam(0x1F060), SystemCommand::Close);
    assert_eq!(SystemCommand::from_wparam(0xF100), SystemCommand::Other(0xF100));
}

#[test]
fn prevented_commands_answer_zero() {
    assert_eq!(handle_syscommand(Some(SystemCommandResponse::Prevent)), Some(0));
    assert_eq!(handle_syscommand(Some(SystemCommandResponse::Allow)), None);
    assert_eq!(handle_syscommand(None), None);
}

#[test]
fn clicks_close_in_time_and_space_count_up() {
    let mut m = MouseState::default();
    assert_eq!(m.update_click_count(Point { x: 10, y: 10 }, 1000, 500, 4, 4), 1);
    assert_eq!(m.update_click_count(Point { x: 12, y: 9 }, 1200, 500, 4, 4), 2);
    assert_eq!(m.update_click_count(Point { x: 12, y: 9 }, 1700, 500, 4, 4), 3);
    assert_eq!(m.update_click_count(Point { x: 12, y: 9 }, 2201, 500, 4, 4), 1);
    assert_eq!(m.update_click_count(Point { x: 15, y: 9 }, 2300, 500, 4, 4), 1);
    assert_eq!(m.last_click_pos, Point { x: 15, y: 9 });
    assert_eq!(m.last_click_time, 2300);
}

#[test]
fn click_time_wraps_around() {
    let mut m = MouseState { last_click_time: u32::MAX - 10, last_click_pos: Point { x: 0, y: 0 }, click_count: 1 };
    assert_eq!(m.update_click_count(Point { x: 0, y: 0 }, 20, 100, 2, 2), 2);
    let mut saturated = MouseState { last_click_time: 0, last_click_pos: Point { x: 0, y: 0 }, click_count: u32::MAX };
    assert_eq!(saturated.update_click_count(Point { x: 0, y: 0 }, 0, 0, 0, 0), u32::MAX);
}

#[test]
fn typed_characters() {
    assert_eq!(decode_char_message(None, 'a' as usize), CharInput { pending_high_surrogate: None, text: Some('a') });
    assert_eq!(decode_char_message(None, 0x0D), CharInput { pending_high_surrogate: None, text: Some('\n') });
    assert_eq!(decode_char_message(None, 0x09), CharInput { pending_high_surrogate: None, text: Some('\t') });
    assert_eq!(decode_char_message(Some(0xD83D), 0x08), CharInput { pending_high_surrogate: Some(0xD83D), text: None });
    assert_eq!(decode_char_message(None, 0x7F), CharInput { pending_high_surrogate: None, text: None });
    assert_eq!(decode_char_message(None, 0x1_0041), CharInput { pending_high_surrogate: None, text: Some('A') });
}

#[test]
fn surrogate_pairs_join() {
    let high = decode_char_message(None, 0xD83D);
    assert_eq!(high, CharInput { pending_high_surrogate: Some(0xD83D), text: None });
    let low = decode_char_message(high.pending_high_surrogate, 0xDE00);
    assert_eq!(low, CharInput { pending_high_surrogate: None, text: Some('😀') });
    assert_eq!(decode_char_message(None, 0xDE00), CharInput { pending_high_surrogate: None, text: None });
}

#[test]
fn lparam_points_are_signed_words() {
    assert_eq!(point_from_lparam(0x0020_0010), Point { x: 16, y: 32 });
    assert_eq!(point_from_lparam(0xFFFF_FFFE_u32 as isize), Point { x: -2, y: -1 });
    assert_eq!(point_from_lparam(0x8000), Point { x: -32768, y: 0 });
}

fn rect(left: i32, top: i32, right: i32, bottom: i32) -> Rect {
    Rect { left, top, right, bottom }
}

#[test]
fn caption_buttons_close_first() {
    let regions = TitlebarHitRegions {
        minimize: Some(rect(0, 0, 10, 10)),
        maximize: Some(rect(10, 0, 20, 10)),
        close: Some(rect(15, 0, 30, 10)),
    };
    assert_eq!(hit_test_caption_buttons(Some(regions), 5, 5), Some(HTMINBUTTON));
    assert_eq!(hit_test_caption_buttons(Some(regions), 12, 5), Some(HTMAXBUTTON));
    assert_eq!(hit_test_caption_buttons(Some(regions), 17, 5), Some(HTCLOSE));
    assert_eq!(hit_test_caption_buttons(Some(regions), 30, 5), None);
    assert_eq!(hit_test_caption_buttons(None, 5, 5), None);
}

#[test]
fn frame_bands() {
    let window = rect(100, 100, 500, 400);
    let frame = rect(-8, -8, 8, 8);
    let bands = FrameBands { top: 30, bottom: 10, left: 10, right: 10 };
    assert_eq!(hit_test_frame(window, frame, bands, 50, 50), HTNOWHERE);
    assert_eq!(hit_test_frame(window, frame, bands, 105, 105), HTTOPLEFT);
    assert_eq!(hit_test_frame(window, frame, bands, 300, 104), HTTOP);
    assert_eq!(hit_test_frame(window, frame, bands, 300, 120), HTCAPTION);
    assert_eq!(hit_test_frame(window, frame, bands, 300, 200), HTCLIENT);
    assert_eq!(hit_test_frame(window, frame, bands, 102, 200), HTLEFT);
    assert_eq!(hit_test_frame(window, frame, bands, 499, 399), HTBOTTOMRIGHT);
    assert_eq!(hit_test_frame(window, frame, bands, 500, 200), HTNOWHERE);
}

#[test]
fn size_words_are_unsigned() {
    assert_eq!(size_from_lparam(0x0300_0400), (0x400, 0x300));
    assert_eq!(size_from_lparam(0xFFFF_FFFF_u32 as isize), (0xFFFF, 0xFFFF));
    assert_eq!(size_from_lparam(0), (0, 0));
}
