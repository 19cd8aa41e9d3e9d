//! Routing of window messages to their handlers.
use crate::input::HTNOWHERE;
use crate::menu::WM_SHOW_CONTEXT_MENU;
use crate::tray::WM_TRAYICON;
use vstd::prelude::*;

verus! {

pub const WM_DESTROY: u32 = 0x0002;
pub const WM_SIZE: u32 = 0x0005;
pub const WM_ACTIVATE: u32 = 0x0006;
pub const WM_PAINT: u32 = 0x000F;
pub const WM_ERASEBKGND: u32 = 0x0014;
pub const WM_SETCURSOR: u32 = 0x0020;
pub const WM_GETMINMAXINFO: u32 = 0x0024;
pub const WM_DISPLAYCHANGE: u32 = 0x007E;
pub const WM_NCCALCSIZE: u32 = 0x0083;
pub const WM_NCHITTEST: u32 = 0x0084;
pub const WM_KEYDOWN: u32 = 0x0100;
pub const WM_KEYUP: u32 = 0x0101;
pub const WM_CHAR: u32 = 0x0102;
pub const WM_IME_STARTCOMPOSITION: u32 = 0x010D;
pub const WM_IME_ENDCOMPOSITION: u32 = 0x010E;
pub const WM_IME_COMPOSITION: u32 = 0x010F;
pub const WM_SYSCOMMAND: u32 = 0x0112;
pub const WM_TIMER: u32 = 0x0113;
pub const WM_MOUSEMOVE: u32 = 0x0200;
pub const WM_LBUTTONDOWN: u32 = 0x0201;
pub const WM_LBUTTONUP: u32 = 0x0202;
pub const WM_MBUTTONDOWN: u32 = 0x0207;
pub const WM_MBUTTONUP: u32 = 0x0208;
pub const WM_MOUSEWHEEL: u32 = 0x020A;
pub const WM_DPICHANGED: u32 = 0x02E0;

/// Posted by the executor thread when messages wait for the window
/// (`WM_USER + 1`).
pub const WM_ASYNC_MESSAGE: u32 = 0x0401;

/// The handler a window message goes to.
#[derive(Debug, Clone, Copy, PartialEq, Eq, Structural)]
pub enum WindowMessage {
    Activate,
    SysCommand,
    TrayIcon,
    ShowContextMenu,
    AsyncMessage,
    ImeStartComposition,
    ImeComposition,
    ImeEndComposition,
    Timer,
    LButtonDown,
    MouseMove,
    MouseWheel,
    LButtonUp,
    MButtonDown,
    MButtonUp,
    Char,
    KeyDown,
    KeyUp,
    Size,
    DpiChanged,
    SetCursor,
    GetMinMaxInfo,
    Paint,
    DisplayChange,
    Destroy,
    /// The shell's taskbar came back (the registered `TaskbarCreated`
    /// message).
    TaskbarCreated,
    /// Left to the default window procedure.
    Other,
}

/// The handler of each message; `taskbar_created` is the registered
/// `TaskbarCreated` message, once registered.
pub open spec fn message_kind(msg: u32, taskbar_created: Option<u32>) -> WindowMessage {
    if msg == WM_ACTIVATE {
        WindowMessage::Activate
    } else if msg == WM_SYSCOMMAND {
        WindowMessage::SysCommand
    } else if msg == WM_TRAYICON {
        WindowMessage::TrayIcon
    } else if msg == WM_SHOW_CONTEXT_MENU {
        WindowMessage::ShowContextMenu
    } else if msg == WM_ASYNC_MESSAGE {
        WindowMessage::AsyncMessage
    } else if msg == WM_IME_STARTCOMPOSITION {
        WindowMessage::ImeStartComposition
    } else if msg == WM_IME_COMPOSITION {
        WindowMessage::ImeComposition
    } else if msg == WM_IME_ENDCOMPOSITION {
        WindowMessage::ImeEndComposition
    } else if msg == WM_TIMER {
        WindowMessage::Timer
    } else if msg == WM_LBUTTONDOWN {
        WindowMessage::LButtonDown
    } else if msg == WM_MOUSEMOVE {
        WindowMessage::MouseMove
    } else if msg == WM_MOUSEWHEEL {
        WindowMessage::MouseWheel
    } else if msg == WM_LBUTTONUP {
        WindowMessage::LButtonUp
    } else if msg == WM_MBUTTONDOWN {
        WindowMessage::MButtonDown
    } else if msg == WM_MBUTTONUP {
        WindowMessage::MButtonUp
    } else if msg == WM_CHAR {
        WindowMessage::Char
    } else if msg == WM_KEYDOWN {
        WindowMessage::KeyDown
    } else if msg == WM_KEYUP {
        WindowMessage::KeyUp
    } else if msg == WM_SIZE {
        WindowMessage::Size
    } else if msg == WM_DPICHANGED {
        WindowMessage::DpiChanged
    } else if msg == WM_SETCURSOR {
        WindowMessage::SetCursor
    } else if msg == WM_GETMINMAXINFO {
        WindowMessage::GetMinMaxInfo
    } else if msg == WM_PAINT {
        WindowMessage::Paint
    } else if msg == WM_DISPLAYCHANGE {
        WindowMessage::DisplayChange
    } else if msg == WM_DESTROY {
        WindowMessage::Destroy
    } else if taskbar_created == Some(msg) {
        WindowMessage::TaskbarCreated
    } else {
        WindowMessage::Other
    }
}

/// Which handler the window procedure calls for `msg`.
pub fn classify_message(msg: u32, taskbar_created: Option<u32>) -> (r: WindowMessage)
    ensures
        r == message_kind(msg, taskbar_created),
{
    match msg {
        WM_ACTIVATE => WindowMessage::Activate,
        WM_SYSCOMMAND => WindowMessage::SysCommand,
        WM_TRAYICON => WindowMessage::TrayIcon,
        WM_SHOW_CONTEXT_MENU => WindowMessage::ShowContextMenu,
        WM_ASYNC_MESSAGE => WindowMessage::AsyncMessage,
        WM_IME_STARTCOMPOSITION => WindowMessage::ImeStartComposition,
        WM_IME_COMPOSITION => WindowMessage::ImeComposition,
        WM_IME_ENDCOMPOSITION => WindowMessage::ImeEndComposition,
        WM_TIMER => WindowMessage::Timer,
        WM_LBUTTONDOWN => WindowMessage::LButtonDown,
        WM_MOUSEMOVE => WindowMessage::MouseMove,
        WM_MOUSEWHEEL => WindowMessage::MouseWheel,
        WM_LBUTTONUP => WindowMessage::LButtonUp,
        WM_MBUTTONDOWN => WindowMessage::MButtonDown,
        WM_MBUTTONUP => WindowMessage::MButtonUp,
        WM_CHAR => WindowMessage::Char,
        WM_KEYDOWN => WindowMessage::KeyDown,
        WM_KEYUP => WindowMessage::KeyUp,
        WM_SIZE => WindowMessage::Size,
        WM_DPICHANGED => WindowMessage::DpiChanged,
        WM_SETCURSOR => WindowMessage::SetCursor,
        WM_GETMINMAXINFO => WindowMessage::GetMinMaxInfo,
        WM_PAINT => WindowMessage::Paint,
        WM_DISPLAYCHANGE => WindowMessage::DisplayChange,
        WM_DESTROY => WindowMessage::Destroy,
        _ => match taskbar_created {
            Some(registered) if registered == msg => WindowMessage::TaskbarCreated,
            _ => WindowMessage::Other,
        },
    }
}

/// The message that each handler is named after; `None` for the registered
/// `TaskbarCreated` message, whose number is known only at run time, and for
/// the default window procedure.
pub open spec fn message_of_kind(kind: WindowMessage) -> Option<u32> {
    match kind {
        WindowMessage::Activate => Some(WM_ACTIVATE),
        WindowMessage::SysCommand => Some(WM_SYSCOMMAND),
        WindowMessage::TrayIcon => Some(WM_TRAYICON),
        WindowMessage::ShowContextMenu => Some(WM_SHOW_CONTEXT_MENU),
        WindowMessage::AsyncMessage => Some(WM_ASYNC_MESSAGE),
        WindowMessage::ImeStartComposition => Some(WM_IME_STARTCOMPOSITION),
        WindowMessage::ImeComposition => Some(WM_IME_COMPOSITION),
        WindowMessage::ImeEndComposition => Some(WM_IME_ENDCOMPOSITION),
        WindowMessage::Timer => Some(WM_TIMER),
        WindowMessage::LButtonDown => Some(WM_LBUTTONDOWN),
        WindowMessage::MouseMove => Some(WM_MOUSEMOVE),
        WindowMessage::MouseWheel => Some(WM_MOUSEWHEEL),
        WindowMessage::LButtonUp => Some(WM_LBUTTONUP),
        WindowMessage::MButtonDown => Some(WM_MBUTTONDOWN),
        WindowMessage::MButtonUp => Some(WM_MBUTTONUP),
        WindowMessage::Char => Some(WM_CHAR),
        WindowMessage::KeyDown => Some(WM_KEYDOWN),
        WindowMessage::KeyUp => Some(WM_KEYUP),
        WindowMessage::Size => Some(WM_SIZE),
        WindowMessage::DpiChanged => Some(WM_DPICHANGED),
        WindowMessage::SetCursor => Some(WM_SETCURSOR),
        WindowMessage::GetMinMaxInfo => Some(WM_GETMINMAXINFO),
        WindowMessage::Paint => Some(WM_PAINT),
        WindowMessage::DisplayChange => Some(WM_DISPLAYCHANGE),
        WindowMessage::Destroy => Some(WM_DESTROY),
        WindowMessage::TaskbarCreated => None,
        WindowMessage::Other => None,
    }
}

/// Every message goes to the handler named after it: a handled message is
/// the very message its handler is named for, or the registered
/// `TaskbarCreated` message; and each message a handler is named for goes
/// to that handler, whatever was registered.
pub proof fn lemma_messages_go_to_their_own_handler(msg: u32, taskbar_created: Option<u32>, kind: WindowMessage)
    ensures
        ({
            let k = message_kind(msg, taskbar_created);
            &&& message_of_kind(k) is Some ==> message_of_kind(k) == Some(msg)
            &&& k == WindowMessage::TaskbarCreated ==> taskbar_created == Some(msg)
        }),
        message_of_kind(kind) matches Some(m) ==> message_kind(m, taskbar_created) == kind,
{
}

/// Two different messages never go to the same handler, unless both are left
/// to the default window procedure.
pub proof fn lemma_messages_handled_apart(a: u32, b: u32, taskbar_created: Option<u32>)
    requires
        a != b,
        message_kind(a, taskbar_created) != WindowMessage::Other,
    ensures
        message_kind(a, taskbar_created) != message_kind(b, taskbar_created),
{
    lemma_messages_go_to_their_own_handler(a, taskbar_created, WindowMessage::Other);
    lemma_messages_go_to_their_own_handler(b, taskbar_created, WindowMessage::Other);
}

/// What a window with a custom titlebar does with a message before the
/// ordinary handlers, once the compositor has seen it.
#[derive(Debug, Clone, Copy, PartialEq, Eq, Structural)]
pub enum FrameStep {
    /// Shrink the proposed client area by the frame on the left, right and
    /// bottom (the top is the client's), and answer 0.
    AdjustClientArea,
    /// Hit-test the pointer against the custom titlebar, then decide with
    /// `frame_hit_result`.
    HitTest,
    /// Paint the background black and answer 1.
    EraseBackground,
    /// Answer with the compositor's result.
    Answer(isize),
    /// Go on to the ordinary handlers.
    Continue,
}

pub open spec fn frame_step_of(msg: u32, wparam: usize, dwm_handled: bool, dwm_result: isize) -> FrameStep {
    if msg == WM_NCCALCSIZE && wparam == 1 {
        FrameStep::AdjustClientArea
    } else if msg == WM_NCHITTEST && dwm_result == 0 {
        FrameStep::HitTest
    } else if msg == WM_ERASEBKGND {
        FrameStep::EraseBackground
    } else if dwm_handled {
        FrameStep::Answer(dwm_result)
    } else {
        FrameStep::Continue
    }
}

/// The custom-titlebar step for `msg`, given whether the compositor's window
/// procedure handled it and what it answered.
pub fn frame_step(msg: u32, wparam: usize, dwm_handled: bool, dwm_result: isize) -> (r: FrameStep)
    ensures
        r == frame_step_of(msg, wparam, dwm_handled, dwm_result),
{
    if msg == WM_NCCALCSIZE && wparam == 1 {
        FrameStep::AdjustClientArea
    } else if msg == WM_NCHITTEST && dwm_result == 0 {
        FrameStep::HitTest
    } else if msg == WM_ERASEBKGND {
        FrameStep::EraseBackground
    } else if dwm_handled {
        FrameStep::Answer(dwm_result)
    } else {
        FrameStep::Continue
    }
}

/// After the titlebar hit test: answer with the hit when it found something
/// or when the compositor handled the message; otherwise go on to the
/// ordinary handlers.
pub fn frame_hit_result(dwm_handled: bool, hit: u32) -> (r: Option<isize>)
    ensures
        r == (if dwm_handled || hit != HTNOWHERE {
            Some(hit as isize)
        } else {
            None::<isize>
        }),
{
    if dwm_handled || hit != HTNOWHERE {
        Some(hit as isize)
    } else {
        None
    }
}

/// Whether a Windows version is Windows 11: major version 10, build 22000
/// or later.
pub fn is_windows_11_version(major: u32, build: u32) -> (r: bool)
    ensures
        r == (build >= 22000 && major == 10),
{
    build >= 22000 && major == 10
}

} // verus!
