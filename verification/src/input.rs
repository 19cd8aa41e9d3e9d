//! Decoding of window-message parameters: system commands, tray icon
//! notifications, multi-click counting, typed characters and non-client hit
//! testing.
use vstd::prelude::*;

verus! {

// ---------------------------------------------------------------------------
// Win32 message and command numbers (WinUser.h)
// ---------------------------------------------------------------------------

pub const SC_MINIMIZE: u32 = 0xF020;
pub const SC_MAXIMIZE: u32 = 0xF030;
pub const SC_CLOSE: u32 = 0xF060;
pub const SC_RESTORE: u32 = 0xF120;

pub const WM_USER: u32 = 0x0400;
pub const WM_LBUTTONUP: u32 = 0x0202;
pub const WM_LBUTTONDBLCLK: u32 = 0x0203;
pub const WM_RBUTTONUP: u32 = 0x0205;

pub const HTNOWHERE: u32 = 0;
pub const HTCLIENT: u32 = 1;
pub const HTCAPTION: u32 = 2;
pub const HTMINBUTTON: u32 = 8;
pub const HTMAXBUTTON: u32 = 9;
pub const HTLEFT: u32 = 10;
pub const HTRIGHT: u32 = 11;
pub const HTTOP: u32 = 12;
pub const HTTOPLEFT: u32 = 13;
pub const HTTOPRIGHT: u32 = 14;
pub const HTBOTTOM: u32 = 15;
pub const HTBOTTOMLEFT: u32 = 16;
pub const HTBOTTOMRIGHT: u32 = 17;
pub const HTCLOSE: u32 = 20;

// ---------------------------------------------------------------------------
// System commands
// ---------------------------------------------------------------------------

/// System commands that can be intercepted from window caption buttons
#[derive(Debug, Clone, Copy, PartialEq, Eq, Structural)]
pub enum SystemCommand {
    /// Window minimize button clicked
    Minimize,
    /// Window maximize button clicked
    Maximize,
    /// Window restore button clicked (from maximized state)
    Restore,
    /// Window close button clicked
    Close,
    /// Other system command
    Other(u32),
}

/// The command a `WM_SYSCOMMAND` wparam carries: its low four bits are masked off.
pub open spec fn system_command_of(wparam: usize) -> SystemCommand {
    let cmd = (wparam & 0xFFF0) as u32;
    if cmd == SC_MINIMIZE {
        SystemCommand::Minimize
    } else if cmd == SC_MAXIMIZE {
        SystemCommand::Maximize
    } else if cmd == SC_RESTORE {
        SystemCommand::Restore
    } else if cmd == SC_CLOSE {
        SystemCommand::Close
    } else {
        SystemCommand::Other(cmd)
    }
}

impl SystemCommand {
    /// Parse a system command from wparam
    pub fn from_wparam(wparam: usize) -> (r: Self)
        ensures
            r == system_command_of(wparam),
    {
        let cmd = (wparam & 0xFFF0) as u32;
        if cmd == SC_MINIMIZE {
            SystemCommand::Minimize
        } else if cmd == SC_MAXIMIZE {
            SystemCommand::Maximize
        } else if cmd == SC_RESTORE {
            SystemCommand::Restore
        } else if cmd == SC_CLOSE {
            SystemCommand::Close
        } else {
            SystemCommand::Other(cmd)
        }
    }
}

/// Response from a system command handler
#[derive(Debug, Clone, Copy, PartialEq, Eq, Structural)]
pub enum SystemCommandResponse {
    /// Allow the default behavior to proceed
    Allow,
    /// Prevent the default behavior (command is handled by application)
    Prevent,
}

/// What the window procedure returns for a system command, given the
/// application handler's response (if there is a handler): `Some(0)` when the
/// handler prevents the default handling, `None` to let it run.
pub fn handle_syscommand(response: Option<SystemCommandResponse>) -> (r: Option<isize>)
    ensures
        r == (if response == Some(SystemCommandResponse::Prevent) {
            Some(0isize)
        } else {
            None::<isize>
        }),
{
    match response {
        Some(SystemCommandResponse::Prevent) => Some(0),
        _ => None,
    }
}

// ---------------------------------------------------------------------------
// Multi-click counting
// ---------------------------------------------------------------------------

/// A point in physical pixels.
#[derive(Debug, Clone, Copy, PartialEq, Eq, Default, Structural)]
pub struct Point {
    pub x: i32,
    pub y: i32,
}

/// Tracks multi-click state for mouse button events
#[derive(Debug, Clone, Copy, PartialEq, Eq, Default, Structural)]
pub struct MouseState {
    pub last_click_time: u32,
    pub last_click_pos: Point,
    pub click_count: u32,
}

pub open spec fn abs_diff(a: i32, b: i32) -> int {
    if a >= b {
        a - b
    } else {
        b - a
    }
}

/// Whether a click at `pos` at time `now` continues the previous click
/// sequence: within `thresh` milliseconds (on the wrapping message clock)
/// and within half the double-click rectangle in each direction.
pub open spec fn continues_sequence(
    st: MouseState,
    pos: Point,
    now: u32,
    thresh: u32,
    rect_width: i32,
    rect_height: i32,
) -> bool {
    let w = (rect_width as u32) / 2;
    let h = (rect_height as u32) / 2;
    &&& abs_diff(pos.x, st.last_click_pos.x) <= w
    &&& abs_diff(pos.y, st.last_click_pos.y) <= h
    &&& vstd::wrapping::u32_specs::wrapping_sub(now, st.last_click_time) <= thresh
}

impl MouseState {
    /// Updates the click count for a click at `pos` at message time `now`,
    /// given the double-click time `thresh` and the double-click rectangle
    /// size. Returns the updated click count.
    pub fn update_click_count(
        &mut self,
        pos: Point,
        now: u32,
        thresh: u32,
        rect_width: i32,
        rect_height: i32,
    ) -> (r: u32)
        requires
            i32::MIN <= pos.x - old(self).last_click_pos.x <= i32::MAX,
            i32::MIN <= pos.y - old(self).last_click_pos.y <= i32::MAX,
        ensures
            r == final(self).click_count,
            final(self).last_click_time == now,
            final(self).last_click_pos == pos,
            final(self).click_count == if continues_sequence(
                *old(self),
                pos,
                now,
                thresh,
                rect_width,
                rect_height,
            ) {
                if old(self).click_count == u32::MAX {
                    u32::MAX
                } else {
                    (old(self).click_count + 1) as u32
                }
            } else {
                1
            },
    {
        let dx: i64 = pos.x as i64 - self.last_click_pos.x as i64;
        let dy: i64 = pos.y as i64 - self.last_click_pos.y as i64;
        let adx: u32 = if dx < 0 {
            (-dx) as u32
        } else {
            dx as u32
        };
        let ady: u32 = if dy < 0 {
            (-dy) as u32
        } else {
            dy as u32
        };
        let w = (rect_width as u32) / 2;
        let h = (rect_height as u32) / 2;
        let within_rect = adx <= w && ady <= h;
        let within_time = now.wrapping_sub(self.last_click_time) <= thresh;
        if within_time && within_rect {
            self.click_count = self.click_count.saturating_add(1);
        } else {
            self.click_count = 1;
        }
        self.last_click_time = now;
        self.last_click_pos = pos;
        self.click_count
    }
}

// ---------------------------------------------------------------------------
// Typed characters
// ---------------------------------------------------------------------------

/// Whether `u` is a Unicode scalar value (what `char::from_u32` accepts).
pub open spec fn is_scalar_value(u: u32) -> bool {
    u <= 0xD7FF || (0xE000 <= u && u <= 0x10FFFF)
}

/// Calls `char::from_u32`, which returns the character with code `u` when `u`
/// is a Unicode scalar value and `None` otherwise.
#[verifier::external_body]
fn char_from_u32(u: u32) -> (r: Option<char>)
    ensures
        is_scalar_value(u) ==> r == Some(u as char),
        !is_scalar_value(u) ==> r is None,
{
    char::from_u32(u)
}

/// The outcome of one `WM_CHAR` message.
#[derive(Debug, Clone, Copy, PartialEq, Eq, Structural)]
pub struct CharInput {
    /// The high surrogate waiting for its low half.
    pub pending_high_surrogate: Option<u16>,
    /// The character to insert, if any.
    pub text: Option<char>,
}

pub open spec fn decode_char_spec(pending: Option<u16>, wparam: usize) -> CharInput {
    let raw = (wparam & 0xFFFF) as u32;
    let code = if raw == 0x0D {
        0x0Au32
    } else {
        raw
    };
    if (code < 0x20 && code != 0x09 && code != 0x0A) || code == 0x7F {
        CharInput { pending_high_surrogate: pending, text: None }
    } else if 0xD800 <= code && code <= 0xDBFF {
        CharInput { pending_high_surrogate: Some(code as u16), text: None }
    } else if 0xDC00 <= code && code <= 0xDFFF {
        match pending {
            Some(high) => {
                let u = 0x10000 + (((high - 0xD800) * 0x400) + (code - 0xDC00));
                CharInput { pending_high_surrogate: None, text: Some(u as char) }
            },
            None => CharInput { pending_high_surrogate: None, text: None },
        }
    } else {
        CharInput {
            pending_high_surrogate: None,
            text: if is_scalar_value(code) {
                Some(code as char)
            } else {
                None
            },
        }
    }
}

/// Decodes a `WM_CHAR` wparam given the pending high surrogate: carriage
/// return becomes line feed, control characters other than tab and line feed
/// are dropped (keeping the pending surrogate), a high surrogate waits for
/// its low half, and a low surrogate completes a pending high one.
pub fn decode_char_message(pending: Option<u16>, wparam: usize) -> (r: CharInput)
    requires
        pending matches Some(h) ==> 0xD800 <= h <= 0xDBFF,
    ensures
        r == decode_char_spec(pending, wparam),
{
    let raw = (wparam & 0xFFFF) as u32;
    assert(raw <= 0xFFFF) by (bit_vector)
        requires
            raw == (wparam & 0xFFFF) as u32,
    ;
    let code: u32 = if raw == 0x0D {
        0x0A
    } else {
        raw
    };
    if (code < 0x20 && code != 0x09 && code != 0x0A) || code == 0x7F {
        return CharInput { pending_high_surrogate: pending, text: None };
    }
    if 0xD800 <= code && code <= 0xDBFF {
        CharInput { pending_high_surrogate: Some(code as u16), text: None }
    } else if 0xDC00 <= code && code <= 0xDFFF {
        match pending {
            Some(high) => {
                let u: u32 = 0x10000 + (((high as u32 - 0xD800) * 0x400) + (code - 0xDC00));
                assert(0x10000 <= u <= 0x10FFFF);
                let c = char_from_u32(u);
                CharInput { pending_high_surrogate: None, text: c }
            },
            None => CharInput { pending_high_surrogate: None, text: None },
        }
    } else {
        CharInput { pending_high_surrogate: None, text: char_from_u32(code) }
    }
}

// ---------------------------------------------------------------------------
// Non-client hit testing
// ---------------------------------------------------------------------------

/// A rectangle in physical pixels.
#[derive(Debug, Clone, Copy, PartialEq, Eq, Default, Structural)]
pub struct Rect {
    pub left: i32,
    pub top: i32,
    pub right: i32,
    pub bottom: i32,
}

impl Rect {
    pub open spec fn contains_spec(&self, x: i32, y: i32) -> bool {
        self.left <= x < self.right && self.top <= y < self.bottom
    }

    /// Whether the point lies in the rectangle (right and bottom excluded).
    pub fn contains(&self, x: i32, y: i32) -> (r: bool)
        ensures
            r == self.contains_spec(x, y),
    {
        x >= self.left && x < self.right && y >= self.top && y < self.bottom
    }
}

/// The rectangles of the custom caption buttons of a window.
#[derive(Clone, Copy, Debug, Default, PartialEq, Eq, Structural)]
pub struct TitlebarHitRegions {
    pub minimize: Option<Rect>,
    pub maximize: Option<Rect>,
    pub close: Option<Rect>,
}

/// Sign-extends a 16-bit value.
pub open spec fn sign_extend16(v: int) -> int {
    if v >= 0x8000 {
        v - 0x10000
    } else {
        v
    }
}

/// The screen point packed in an lparam: the low word is x and the next word
/// is y, each a signed 16-bit value.
pub fn point_from_lparam(lparam: isize) -> (r: Point)
    ensures
        r.x == sign_extend16((lparam & 0xFFFF) as int),
        r.y == sign_extend16(((lparam >> 16) & 0xFFFF) as int),
{
    let lo: isize = lparam & 0xFFFF;
    let hi: isize = (lparam >> 16) & 0xFFFF;
    assert(0 <= lo <= 0xFFFF) by (bit_vector)
        requires
            lo == lparam & 0xFFFF,
    ;
    assert(0 <= hi <= 0xFFFF) by (bit_vector)
        requires
            hi == (lparam >> 16) & 0xFFFF,
    ;
    let x: i32 = if lo >= 0x8000 {
        (lo - 0x10000) as i32
    } else {
        lo as i32
    };
    let y: i32 = if hi >= 0x8000 {
        (hi - 0x10000) as i32
    } else {
        hi as i32
    };
    Point { x, y }
}

/// The client size packed in a `WM_SIZE` lparam: the low word is the width
/// and the next word the height, both unsigned.
pub fn size_from_lparam(lparam: isize) -> (r: (u32, u32))
    ensures
        r.0 == (lparam & 0xFFFF) as int,
        r.1 == ((lparam >> 16) & 0xFFFF) as int,
{
    let lo: isize = lparam & 0xFFFF;
    let hi: isize = (lparam >> 16) & 0xFFFF;
    assert(0 <= lo <= 0xFFFF) by (bit_vector)
        requires
            lo == lparam & 0xFFFF,
    ;
    assert(0 <= hi <= 0xFFFF) by (bit_vector)
        requires
            hi == (lparam >> 16) & 0xFFFF,
    ;
    (lo as u32, hi as u32)
}

pub open spec fn caption_button_at(regions: Option<TitlebarHitRegions>, x: i32, y: i32) -> Option<u32> {
    match regions {
        None => None,
        Some(r) => if r.close matches Some(rc) && rc.contains_spec(x, y) {
            Some(HTCLOSE)
        } else if r.maximize matches Some(rc) && rc.contains_spec(x, y) {
            Some(HTMAXBUTTON)
        } else if r.minimize matches Some(rc) && rc.contains_spec(x, y) {
            Some(HTMINBUTTON)
        } else {
            None
        },
    }
}

/// The caption button under the point, testing close, then maximize, then minimize.
pub fn hit_test_caption_buttons(regions: Option<TitlebarHitRegions>, x: i32, y: i32) -> (r: Option<u32>)
    ensures
        r == caption_button_at(regions, x, y),
{
    match regions {
        None => None,
        Some(r) => {
            if let Some(rc) = r.close {
                if rc.contains(x, y) {
                    return Some(HTCLOSE);
                }
            }
            if let Some(rc) = r.maximize {
                if rc.contains(x, y) {
                    return Some(HTMAXBUTTON);
                }
            }
            if let Some(rc) = r.minimize {
                if rc.contains(x, y) {
                    return Some(HTMINBUTTON);
                }
            }
            None
        },
    }
}

/// The thickness of the resize and caption bands of the frame.
#[derive(Debug, Clone, Copy, PartialEq, Eq, Structural)]
pub struct FrameBands {
    pub top: i32,
    pub bottom: i32,
    pub left: i32,
    pub right: i32,
}

pub open spec fn frame_hit_spec(window: Rect, frame: Rect, bands: FrameBands, x: i32, y: i32) -> u32 {
    if x < window.left || x >= window.right || y < window.top || y >= window.bottom {
        HTNOWHERE
    } else {
        let row: int = if y < window.top + bands.top {
            0
        } else if y >= window.bottom - bands.bottom {
            2
        } else {
            1
        };
        let on_resize_border = y < window.top - frame.top;
        let col: int = if x < window.left + bands.left {
            0
        } else if x >= window.right - bands.right {
            2
        } else {
            1
        };
        if row == 0 {
            if col == 0 {
                HTTOPLEFT
            } else if col == 1 {
                if on_resize_border {
                    HTTOP
                } else {
                    HTCAPTION
                }
            } else {
                HTTOPRIGHT
            }
        } else if row == 1 {
            if col == 0 {
                HTLEFT
            } else if col == 1 {
                HTCLIENT
            } else {
                HTRIGHT
            }
        } else {
            if col == 0 {
                HTBOTTOMLEFT
            } else if col == 1 {
                HTBOTTOM
            } else {
                HTBOTTOMRIGHT
            }
        }
    }
}

/// Hit-tests the frame of a window with a custom title bar: `window` is the
/// window rectangle, `frame` the frame rectangle of its style without a
/// caption, and `bands` the thickness of the top, bottom, left and right bands.
pub fn hit_test_frame(window: Rect, frame: Rect, bands: FrameBands, x: i32, y: i32) -> (r: u32)
    requires
        i32::MIN <= window.top + bands.top <= i32::MAX,
        i32::MIN <= window.bottom - bands.bottom <= i32::MAX,
        i32::MIN <= window.left + bands.left <= i32::MAX,
        i32::MIN <= window.right - bands.right <= i32::MAX,
        i32::MIN <= window.top - frame.top <= i32::MAX,
    ensures
        r == frame_hit_spec(window, frame, bands, x, y),
{
    if x < window.left || x >= window.right || y < window.top || y >= window.bottom {
        return HTNOWHERE;
    }
    let mut row: usize = 1;
    let mut col: usize = 1;
    let mut on_resize_border = false;
    if y >= window.top && y < window.top + bands.top {
        on_resize_border = y < (window.top - frame.top);
        row = 0;
    } else if y < window.bottom && y >= window.bottom - bands.bottom {
        row = 2;
    }
    if x >= window.left && x < window.left + bands.left {
        col = 0;
    } else if x < window.right && x >= window.right - bands.right {
        col = 2;
    }
    if row == 0 {
        if col == 0 {
            HTTOPLEFT
        } else if col == 1 {
            if on_resize_border {
                HTTOP
            } else {
                HTCAPTION
            }
        } else {
            HTTOPRIGHT
        }
    } else if row == 1 {
        if col == 0 {
            HTLEFT
        } else if col == 1 {
            HTCLIENT
        } else {
            HTRIGHT
        }
    } else {
        if col == 0 {
            HTBOTTOMLEFT
        } else if col == 1 {
            HTBOTTOM
        } else {
            HTBOTTOMRIGHT
        }
    }
}

/// The hit of the mirror image: left and right swap, the rest stays.
pub open spec fn mirrored_hit(hit: u32) -> u32 {
    if hit == HTLEFT {
        HTRIGHT
    } else if hit == HTRIGHT {
        HTLEFT
    } else if hit == HTTOPLEFT {
        HTTOPRIGHT
    } else if hit == HTTOPRIGHT {
        HTTOPLEFT
    } else if hit == HTBOTTOMLEFT {
        HTBOTTOMRIGHT
    } else if hit == HTBOTTOMRIGHT {
        HTBOTTOMLEFT
    } else {
        hit
    }
}

/// Between the top and bottom bands a point inside the window hits the left
/// resize edge in the left band, the right resize edge in the right band,
/// and the client area between them.
pub proof fn lemma_frame_side_edges(window: Rect, frame: Rect, bands: FrameBands, x: i32, y: i32)
    requires
        window.left <= x < window.right,
        window.top + bands.top <= y < window.bottom - bands.bottom,
        window.top <= y < window.bottom,
    ensures
        x < window.left + bands.left ==> frame_hit_spec(window, frame, bands, x, y) == HTLEFT,
        x >= window.left + bands.left && x >= window.right - bands.right ==> frame_hit_spec(
            window,
            frame,
            bands,
            x,
            y,
        ) == HTRIGHT,
        window.left + bands.left <= x < window.right - bands.right ==> frame_hit_spec(window, frame, bands, x, y)
            == HTCLIENT,
{
}

/// A point outside the window hits nothing. In the top band a point hits
/// the top-left corner in the left band, the top-right corner in the right
/// band, and between them the top resize edge where it lies within the
/// frame's top thickness, else the caption. In the bottom band (below the
/// top band) it hits the bottom-left corner, the bottom-right corner or the
/// bottom edge alike.
pub proof fn lemma_frame_top_and_bottom(window: Rect, frame: Rect, bands: FrameBands, x: i32, y: i32)
    ensures
        !(window.left <= x < window.right && window.top <= y < window.bottom) ==> frame_hit_spec(
            window,
            frame,
            bands,
            x,
            y,
        ) == HTNOWHERE,
        window.left <= x < window.right && window.top <= y < window.bottom && y < window.top + bands.top ==> {
            let hit = frame_hit_spec(window, frame, bands, x, y);
            &&& x < window.left + bands.left ==> hit == HTTOPLEFT
            &&& x >= window.left + bands.left && x >= window.right - bands.right ==> hit == HTTOPRIGHT
            &&& window.left + bands.left <= x < window.right - bands.right ==> hit == (if y < window.top
                - frame.top {
                HTTOP
            } else {
                HTCAPTION
            })
        },
        window.left <= x < window.right && window.top <= y < window.bottom && y >= window.top + bands.top && y
            >= window.bottom - bands.bottom ==> {
            let hit = frame_hit_spec(window, frame, bands, x, y);
            &&& x < window.left + bands.left ==> hit == HTBOTTOMLEFT
            &&& x >= window.left + bands.left && x >= window.right - bands.right ==> hit == HTBOTTOMRIGHT
            &&& window.left + bands.left <= x < window.right - bands.right ==> hit == HTBOTTOM
        },
{
}

/// The frame hit test is symmetric: mirroring the point across the window's
/// vertical middle and swapping the left and right bands mirrors the hit
/// (left and right edges and corners swap), where the two side bands do not
/// overlap.
pub proof fn lemma_frame_hit_mirror(window: Rect, frame: Rect, bands: FrameBands, x: i32, y: i32, mx: i32)
    requires
        window.left + bands.left <= window.right - bands.right,
        mx == window.left + window.right - 1 - x,
    ensures
        frame_hit_spec(window, frame, FrameBands { left: bands.right, right: bands.left, ..bands }, mx, y)
            == mirrored_hit(frame_hit_spec(window, frame, bands, x, y)),
{
}

} // verus!
