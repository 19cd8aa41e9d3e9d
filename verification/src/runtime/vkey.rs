//! Virtual-key codes of keyboard messages.
use vstd::prelude::*;

verus! {

/// A virtual key, named as the Win32 `VK_` constants name it.
#[allow(non_camel_case_types)]
#[derive(Debug, Clone, Copy, PartialEq, Eq, Hash, Structural)]
pub enum VKey {
    /// Left mouse button (0x01)
    LBUTTON,
    /// Right mouse button (0x02)
    RBUTTON,
    /// Control-break processing (0x03)
    CANCEL,
    /// Middle mouse button (0x04)
    MBUTTON,
    /// X1 mouse button (0x05)
    XBUTTON1,
    /// X2 mouse button (0x06)
    XBUTTON2,
    /// Backspace key (0x08)
    BACK,
    /// Tab key (0x09)
    TAB,
    /// Clear key (0x0C)
    CLEAR,
    /// Enter key (0x0D)
    RETURN,
    /// Shift key (0x10)
    SHIFT,
    /// Ctrl key (0x11)
    CONTROL,
    /// Alt key (0x12)
    MENU,
    /// Pause key (0x13)
    PAUSE,
    /// Caps lock key (0x14)
    CAPITAL,
    /// Esc key (0x1B)
    ESCAPE,
    /// IME convert (0x1C)
    CONVERT,
    /// IME nonconvert (0x1D)
    NONCONVERT,
    /// IME accept (0x1E)
    ACCEPT,
    /// IME mode change request (0x1F)
    MODECHANGE,
    /// Spacebar key (0x20)
    SPACE,
    /// Page up key (0x21)
    PRIOR,
    /// Page down key (0x22)
    NEXT,
    /// End key (0x23)
    END,
    /// Home key (0x24)
    HOME,
    /// Left arrow key (0x25)
    LEFT,
    /// Up arrow key (0x26)
    UP,
    /// Right arrow key (0x27)
    RIGHT,
    /// Down arrow key (0x28)
    DOWN,
    /// Select key (0x29)
    SELECT,
    /// Print key (0x2A)
    PRINT,
    /// Execute key (0x2B)
    EXECUTE,
    /// Print screen key (0x2C)
    SNAPSHOT,
    /// Insert key (0x2D)
    INSERT,
    /// Delete key (0x2E)
    DELETE,
    /// Help key (0x2F)
    HELP,
    /// Left Windows logo key (0x5B)
    LWIN,
    /// Right Windows logo key (0x5C)
    RWIN,
    /// Application key (0x5D)
    APPS,
    /// Computer Sleep key (0x5F)
    SLEEP,
    /// Numeric keypad 0 key (0x60)
    NUMPAD0,
    /// Numeric keypad 1 key (0x61)
    NUMPAD1,
    /// Numeric keypad 2 key (0x62)
    NUMPAD2,
    /// Numeric keypad 3 key (0x63)
    NUMPAD3,
    /// Numeric keypad 4 key (0x64)
    NUMPAD4,
    /// Numeric keypad 5 key (0x65)
    NUMPAD5,
    /// Numeric keypad 6 key (0x66)
    NUMPAD6,
    /// Numeric keypad 7 key (0x67)
    NUMPAD7,
    /// Numeric keypad 8 key (0x68)
    NUMPAD8,
    /// Numeric keypad 9 key (0x69)
    NUMPAD9,
    /// Multiply key (0x6A)
    MULTIPLY,
    /// Add key (0x6B)
    ADD,
    /// Separator key (0x6C)
    SEPARATOR,
    /// Subtract key (0x6D)
    SUBTRACT,
    /// Decimal key (0x6E)
    DECIMAL,
    /// Divide key (0x6F)
    DIVIDE,
    /// F1 key (0x70)
    F1,
    /// F2 key (0x71)
    F2,
    /// F3 key (0x72)
    F3,
    /// F4 key (0x73)
    F4,
    /// F5 key (0x74)
    F5,
    /// F6 key (0x75)
    F6,
    /// F7 key (0x76)
    F7,
    /// F8 key (0x77)
    F8,
    /// F9 key (0x78)
    F9,
    /// F10 key (0x79)
    F10,
    /// F11 key (0x7A)
    F11,
    /// F12 key (0x7B)
    F12,
    /// F13 key (0x7C)
    F13,
    /// F14 key (0x7D)
    F14,
    /// F15 key (0x7E)
    F15,
    /// F16 key (0x7F)
    F16,
    /// F17 key (0x80)
    F17,
    /// F18 key (0x81)
    F18,
    /// F19 key (0x82)
    F19,
    /// F20 key (0x83)
    F20,
    /// F21 key (0x84)
    F21,
    /// F22 key (0x85)
    F22,
    /// F23 key (0x86)
    F23,
    /// F24 key (0x87)
    F24,
    /// Num lock key (0x90)
    NUMLOCK,
    /// Scroll lock key (0x91)
    SCROLL,
    /// Left Shift key (0xA0)
    LSHIFT,
    /// Right Shift key (0xA1)
    RSHIFT,
    /// Left Ctrl key (0xA2)
    LCONTROL,
    /// Right Ctrl key (0xA3)
    RCONTROL,
    /// Left Alt key (0xA4)
    LMENU,
    /// Right Alt key (0xA5)
    RMENU,
    /// Browser Back key (0xA6)
    BROWSER_BACK,
    /// Browser Forward key (0xA7)
    BROWSER_FORWARD,
    /// Browser Refresh key (0xA8)
    BROWSER_REFRESH,
    /// Browser Stop key (0xA9)
    BROWSER_STOP,
    /// Browser Search key (0xAA)
    BROWSER_SEARCH,
    /// Browser Favorites key (0xAB)
    BROWSER_FAVORITES,
    /// Browser Start and Home key (0xAC)
    BROWSER_HOME,
    /// Volume Mute key (0xAD)
    VOLUME_MUTE,
    /// Volume Down key (0xAE)
    VOLUME_DOWN,
    /// Volume Up key (0xAF)
    VOLUME_UP,
    /// Next Track key (0xB0)
    MEDIA_NEXT_TRACK,
    /// Previous Track key (0xB1)
    MEDIA_PREV_TRACK,
    /// Stop Media key (0xB2)
    MEDIA_STOP,
    /// Play/Pause Media key (0xB3)
    MEDIA_PLAY_PAUSE,
    /// Start Mail key (0xB4)
    LAUNCH_MAIL,
    /// Select Media key (0xB5)
    LAUNCH_MEDIA_SELECT,
    /// Start Application 1 key (0xB6)
    LAUNCH_APP1,
    /// Start Application 2 key (0xB7)
    LAUNCH_APP2,
    /// It can vary by keyboard. For the US ANSI keyboard , the Semiсolon and Colon key (0xBA)
    OEM_1,
    /// For any country/region, the Equals and Plus key (0xBB)
    OEM_PLUS,
    /// For any country/region, the Comma and Less Than key (0xBC)
    OEM_COMMA,
    /// For any country/region, the Dash and Underscore key (0xBD)
    OEM_MINUS,
    /// For any country/region, the Period and Greater Than key (0xBE)
    OEM_PERIOD,
    /// It can vary by keyboard. For the US ANSI keyboard, the Forward Slash and Question Mark key (0xBF)
    OEM_2,
    /// It can vary by keyboard. For the US ANSI keyboard, the Grave Accent and Tilde key (0xC0)
    OEM_3,
    /// Gamepad A button (0xC3)
    GAMEPAD_A,
    /// Gamepad B button (0xC4)
    GAMEPAD_B,
    /// Gamepad X button (0xC5)
    GAMEPAD_X,
    /// Gamepad Y button (0xC6)
    GAMEPAD_Y,
    /// Gamepad Right Shoulder button (0xC7)
    GAMEPAD_RIGHT_SHOULDER,
    /// Gamepad Left Shoulder button (0xC8)
    GAMEPAD_LEFT_SHOULDER,
    /// Gamepad Left Trigger button (0xC9)
    GAMEPAD_LEFT_TRIGGER,
    /// Gamepad Right Trigger button (0xCA)
    GAMEPAD_RIGHT_TRIGGER,
    /// Gamepad D-pad Up button (0xCB)
    GAMEPAD_DPAD_UP,
    /// Gamepad D-pad Down button (0xCC)
    GAMEPAD_DPAD_DOWN,
    /// Gamepad D-pad Left button (0xCD)
    GAMEPAD_DPAD_LEFT,
    /// Gamepad D-pad Right button (0xCE)
    GAMEPAD_DPAD_RIGHT,
    /// Gamepad Menu/Start button (0xCF)
    GAMEPAD_MENU,
    /// Gamepad View/Back button (0xD0)
    GAMEPAD_VIEW,
    /// Gamepad Left Thumbstick button (0xD1)
    GAMEPAD_LEFT_THUMBSTICK_BUTTON,
    /// Gamepad Right Thumbstick button (0xD2)
    GAMEPAD_RIGHT_THUMBSTICK_BUTTON,
    /// Gamepad Left Thumbstick up (0xD3)
    GAMEPAD_LEFT_THUMBSTICK_UP,
    /// Gamepad Left Thumbstick down (0xD4)
    GAMEPAD_LEFT_THUMBSTICK_DOWN,
    /// Gamepad Left Thumbstick right (0xD5)
    GAMEPAD_LEFT_THUMBSTICK_RIGHT,
    /// Gamepad Left Thumbstick left (0xD6)
    GAMEPAD_LEFT_THUMBSTICK_LEFT,
    /// Gamepad Right Thumbstick up (0xD7)
    GAMEPAD_RIGHT_THUMBSTICK_UP,
    /// Gamepad Right Thumbstick down (0xD8)
    GAMEPAD_RIGHT_THUMBSTICK_DOWN,
    /// Gamepad Right Thumbstick right (0xD9)
    GAMEPAD_RIGHT_THUMBSTICK_RIGHT,
    /// Gamepad Right Thumbstick left (0xDA)
    GAMEPAD_RIGHT_THUMBSTICK_LEFT,
    /// It can vary by keyboard. For the US ANSI keyboard, the Left Brace key (0xDB)
    OEM_4,
    /// It can vary by keyboard. For the US ANSI keyboard, the Backslash and Pipe key (0xDC)
    OEM_5,
    /// It can vary by keyboard. For the US ANSI keyboard, the Right Brace key (0xDD)
    OEM_6,
    /// It can vary by keyboard. For the US ANSI keyboard, the Apostrophe and Double Quotation Mark key (0xDE)
    OEM_7,
    /// It can vary by keyboard. For the Canadian CSA keyboard, the Right Ctrl key (0xDF)
    OEM_8,
    /// It can vary by keyboard. For the European ISO keyboard, the Backslash and Pipe key (0xE2)
    OEM_102,
    /// IME PROCESS key (0xE5)
    PROCESSKEY,
    /// Used to pass Unicode characters as if they were keystrokes. The VK_PACKET key is the low word of a 32-bit Virtual Key value used for non-keyboard input methods. For more information, see Remark in KEYBDINPUT, SendInput, WM_KEYDOWN, and WM_KEYUP (0xE7)
    PACKET,
    /// Attn key (0xF6)
    ATTN,
    /// CrSel key (0xF7)
    CRSEL,
    /// ExSel key (0xF8)
    EXSEL,
    /// Erase EOF key (0xF9)
    EREOF,
    /// Play key (0xFA)
    PLAY,
    /// Zoom key (0xFB)
    ZOOM,
    /// PA1 key (0xFD)
    PA1,
    /// Clear key (0xFE)
    OEM_CLEAR,
    /// The `0` key (0x30)
    N0,
    /// The `1` key (0x31)
    N1,
    /// The `2` key (0x32)
    N2,
    /// The `3` key (0x33)
    N3,
    /// The `4` key (0x34)
    N4,
    /// The `5` key (0x35)
    N5,
    /// The `6` key (0x36)
    N6,
    /// The `7` key (0x37)
    N7,
    /// The `8` key (0x38)
    N8,
    /// The `9` key (0x39)
    N9,
    /// The `A` key (0x41)
    A,
    /// The `B` key (0x42)
    B,
    /// The `C` key (0x43)
    C,
    /// The `D` key (0x44)
    D,
    /// The `E` key (0x45)
    E,
    /// The `F` key (0x46)
    F,
    /// The `G` key (0x47)
    G,
    /// The `H` key (0x48)
    H,
    /// The `I` key (0x49)
    I,
    /// The `J` key (0x4A)
    J,
    /// The `K` key (0x4B)
    K,
    /// The `L` key (0x4C)
    L,
    /// The `M` key (0x4D)
    M,
    /// The `N` key (0x4E)
    N,
    /// The `O` key (0x4F)
    O,
    /// The `P` key (0x50)
    P,
    /// The `Q` key (0x51)
    Q,
    /// The `R` key (0x52)
    R,
    /// The `S` key (0x53)
    S,
    /// The `T` key (0x54)
    T,
    /// The `U` key (0x55)
    U,
    /// The `V` key (0x56)
    V,
    /// The `W` key (0x57)
    W,
    /// The `X` key (0x58)
    X,
    /// The `Y` key (0x59)
    Y,
    /// The `Z` key (0x5A)
    Z,
}

/// The virtual-key code of each key.
pub open spec fn key_code(key: VKey) -> i32 {
    match key {
        VKey::LBUTTON => 0x01,
        VKey::RBUTTON => 0x02,
        VKey::CANCEL => 0x03,
        VKey::MBUTTON => 0x04,
        VKey::XBUTTON1 => 0x05,
        VKey::XBUTTON2 => 0x06,
        VKey::BACK => 0x08,
        VKey::TAB => 0x09,
        VKey::CLEAR => 0x0C,
        VKey::RETURN => 0x0D,
        VKey::SHIFT => 0x10,
        VKey::CONTROL => 0x11,
        VKey::MENU => 0x12,
        VKey::PAUSE => 0x13,
        VKey::CAPITAL => 0x14,
        VKey::ESCAPE => 0x1B,
        VKey::CONVERT => 0x1C,
        VKey::NONCONVERT => 0x1D,
        VKey::ACCEPT => 0x1E,
        VKey::MODECHANGE => 0x1F,
        VKey::SPACE => 0x20,
        VKey::PRIOR => 0x21,
        VKey::NEXT => 0x22,
        VKey::END => 0x23,
        VKey::HOME => 0x24,
        VKey::LEFT => 0x25,
        VKey::UP => 0x26,
        VKey::RIGHT => 0x27,
        VKey::DOWN => 0x28,
        VKey::SELECT => 0x29,
        VKey::PRINT => 0x2A,
        VKey::EXECUTE => 0x2B,
        VKey::SNAPSHOT => 0x2C,
        VKey::INSERT => 0x2D,
        VKey::DELETE => 0x2E,
        VKey::HELP => 0x2F,
        VKey::LWIN => 0x5B,
        VKey::RWIN => 0x5C,
        VKey::APPS => 0x5D,
        VKey::SLEEP => 0x5F,
        VKey::NUMPAD0 => 0x60,
        VKey::NUMPAD1 => 0x61,
        VKey::NUMPAD2 => 0x62,
        VKey::NUMPAD3 => 0x63,
        VKey::NUMPAD4 => 0x64,
        VKey::NUMPAD5 => 0x65,
        VKey::NUMPAD6 => 0x66,
        VKey::NUMPAD7 => 0x67,
        VKey::NUMPAD8 => 0x68,
        VKey::NUMPAD9 => 0x69,
        VKey::MULTIPLY => 0x6A,
        VKey::ADD => 0x6B,
        VKey::SEPARATOR => 0x6C,
        VKey::SUBTRACT => 0x6D,
        VKey::DECIMAL => 0x6E,
        VKey::DIVIDE => 0x6F,
        VKey::F1 => 0x70,
        VKey::F2 => 0x71,
        VKey::F3 => 0x72,
        VKey::F4 => 0x73,
        VKey::F5 => 0x74,
        VKey::F6 => 0x75,
        VKey::F7 => 0x76,
        VKey::F8 => 0x77,
        VKey::F9 => 0x78,
        VKey::F10 => 0x79,
        VKey::F11 => 0x7A,
        VKey::F12 => 0x7B,
        VKey::F13 => 0x7C,
        VKey::F14 => 0x7D,
        VKey::F15 => 0x7E,
        VKey::F16 => 0x7F,
        VKey::F17 => 0x80,
        VKey::F18 => 0x81,
        VKey::F19 => 0x82,
        VKey::F20 => 0x83,
        VKey::F21 => 0x84,
        VKey::F22 => 0x85,
        VKey::F23 => 0x86,
        VKey::F24 => 0x87,
        VKey::NUMLOCK => 0x90,
        VKey::SCROLL => 0x91,
        VKey::LSHIFT => 0xA0,
        VKey::RSHIFT => 0xA1,
        VKey::LCONTROL => 0xA2,
        VKey::RCONTROL => 0xA3,
        VKey::LMENU => 0xA4,
        VKey::RMENU => 0xA5,
        VKey::BROWSER_BACK => 0xA6,
        VKey::BROWSER_FORWARD => 0xA7,
        VKey::BROWSER_REFRESH => 0xA8,
        VKey::BROWSER_STOP => 0xA9,
        VKey::BROWSER_SEARCH => 0xAA,
        VKey::BROWSER_FAVORITES => 0xAB,
        VKey::BROWSER_HOME => 0xAC,
        VKey::VOLUME_MUTE => 0xAD,
        VKey::VOLUME_DOWN => 0xAE,
        VKey::VOLUME_UP => 0xAF,
        VKey::MEDIA_NEXT_TRACK => 0xB0,
        VKey::MEDIA_PREV_TRACK => 0xB1,
        VKey::MEDIA_STOP => 0xB2,
        VKey::MEDIA_PLAY_PAUSE => 0xB3,
        VKey::LAUNCH_MAIL => 0xB4,
        VKey::LAUNCH_MEDIA_SELECT => 0xB5,
        VKey::LAUNCH_APP1 => 0xB6,
        VKey::LAUNCH_APP2 => 0xB7,
        VKey::OEM_1 => 0xBA,
        VKey::OEM_PLUS => 0xBB,
        VKey::OEM_COMMA => 0xBC,
        VKey::OEM_MINUS => 0xBD,
        VKey::OEM_PERIOD => 0xBE,
        VKey::OEM_2 => 0xBF,
        VKey::OEM_3 => 0xC0,
        VKey::GAMEPAD_A => 0xC3,
        VKey::GAMEPAD_B => 0xC4,
        VKey::GAMEPAD_X => 0xC5,
        VKey::GAMEPAD_Y => 0xC6,
        VKey::GAMEPAD_RIGHT_SHOULDER => 0xC7,
        VKey::GAMEPAD_LEFT_SHOULDER => 0xC8,
        VKey::GAMEPAD_LEFT_TRIGGER => 0xC9,
        VKey::GAMEPAD_RIGHT_TRIGGER => 0xCA,
        VKey::GAMEPAD_DPAD_UP => 0xCB,
        VKey::GAMEPAD_DPAD_DOWN => 0xCC,
        VKey::GAMEPAD_DPAD_LEFT => 0xCD,
        VKey::GAMEPAD_DPAD_RIGHT => 0xCE,
        VKey::GAMEPAD_MENU => 0xCF,
        VKey::GAMEPAD_VIEW => 0xD0,
        VKey::GAMEPAD_LEFT_THUMBSTICK_BUTTON => 0xD1,
        VKey::GAMEPAD_RIGHT_THUMBSTICK_BUTTON => 0xD2,
        VKey::GAMEPAD_LEFT_THUMBSTICK_UP => 0xD3,
        VKey::GAMEPAD_LEFT_THUMBSTICK_DOWN => 0xD4,
        VKey::GAMEPAD_LEFT_THUMBSTICK_RIGHT => 0xD5,
        VKey::GAMEPAD_LEFT_THUMBSTICK_LEFT => 0xD6,
        VKey::GAMEPAD_RIGHT_THUMBSTICK_UP => 0xD7,
        VKey::GAMEPAD_RIGHT_THUMBSTICK_DOWN => 0xD8,
        VKey::GAMEPAD_RIGHT_THUMBSTICK_RIGHT => 0xD9,
        VKey::GAMEPAD_RIGHT_THUMBSTICK_LEFT => 0xDA,
        VKey::OEM_4 => 0xDB,
        VKey::OEM_5 => 0xDC,
        VKey::OEM_6 => 0xDD,
        VKey::OEM_7 => 0xDE,
        VKey::OEM_8 => 0xDF,
        VKey::OEM_102 => 0xE2,
        VKey::PROCESSKEY => 0xE5,
        VKey::PACKET => 0xE7,
        VKey::ATTN => 0xF6,
        VKey::CRSEL => 0xF7,
        VKey::EXSEL => 0xF8,
        VKey::EREOF => 0xF9,
        VKey::PLAY => 0xFA,
        VKey::ZOOM => 0xFB,
        VKey::PA1 => 0xFD,
        VKey::OEM_CLEAR => 0xFE,
        VKey::N0 => 0x30,
        VKey::N1 => 0x31,
        VKey::N2 => 0x32,
        VKey::N3 => 0x33,
        VKey::N4 => 0x34,
        VKey::N5 => 0x35,
        VKey::N6 => 0x36,
        VKey::N7 => 0x37,
        VKey::N8 => 0x38,
        VKey::N9 => 0x39,
        VKey::A => 0x41,
        VKey::B => 0x42,
        VKey::C => 0x43,
        VKey::D => 0x44,
        VKey::E => 0x45,
        VKey::F => 0x46,
        VKey::G => 0x47,
        VKey::H => 0x48,
        VKey::I => 0x49,
        VKey::J => 0x4A,
        VKey::K => 0x4B,
        VKey::L => 0x4C,
        VKey::M => 0x4D,
        VKey::N => 0x4E,
        VKey::O => 0x4F,
        VKey::P => 0x50,
        VKey::Q => 0x51,
        VKey::R => 0x52,
        VKey::S => 0x53,
        VKey::T => 0x54,
        VKey::U => 0x55,
        VKey::V => 0x56,
        VKey::W => 0x57,
        VKey::X => 0x58,
        VKey::Y => 0x59,
        VKey::Z => 0x5A,
    }
}

/// The key with virtual-key code `code`, if any.
pub open spec fn key_with_code(code: i32) -> Option<VKey> {
    if code == 0x01 {
        Some(VKey::LBUTTON)
    } else if code == 0x02 {
        Some(VKey::RBUTTON)
    } else if code == 0x03 {
        Some(VKey::CANCEL)
    } else if code == 0x04 {
        Some(VKey::MBUTTON)
    } else if code == 0x05 {
        Some(VKey::XBUTTON1)
    } else if code == 0x06 {
        Some(VKey::XBUTTON2)
    } else if code == 0x08 {
        Some(VKey::BACK)
    } else if code == 0x09 {
        Some(VKey::TAB)
    } else if code == 0x0C {
        Some(VKey::CLEAR)
    } else if code == 0x0D {
        Some(VKey::RETURN)
    } else if code == 0x10 {
        Some(VKey::SHIFT)
    } else if code == 0x11 {
        Some(VKey::CONTROL)
    } else if code == 0x12 {
        Some(VKey::MENU)
    } else if code == 0x13 {
        Some(VKey::PAUSE)
    } else if code == 0x14 {
        Some(VKey::CAPITAL)
    } else if code == 0x1B {
        Some(VKey::ESCAPE)
    } else if code == 0x1C {
        Some(VKey::CONVERT)
    } else if code == 0x1D {
        Some(VKey::NONCONVERT)
    } else if code == 0x1E {
        Some(VKey::ACCEPT)
    } else if code == 0x1F {
        Some(VKey::MODECHANGE)
    } else if code == 0x20 {
        Some(VKey::SPACE)
    } else if code == 0x21 {
        Some(VKey::PRIOR)
    } else if code == 0x22 {
        Some(VKey::NEXT)
    } else if code == 0x23 {
        Some(VKey::END)
    } else if code == 0x24 {
        Some(VKey::HOME)
    } else if code == 0x25 {
        Some(VKey::LEFT)
    } else if code == 0x26 {
        Some(VKey::UP)
    } else if code == 0x27 {
        Some(VKey::RIGHT)
    } else if code == 0x28 {
        Some(VKey::DOWN)
    } else if code == 0x29 {
        Some(VKey::SELECT)
    } else if code == 0x2A {
        Some(VKey::PRINT)
    } else if code == 0x2B {
        Some(VKey::EXECUTE)
    } else if code == 0x2C {
        Some(VKey::SNAPSHOT)
    } else if code == 0x2D {
        Some(VKey::INSERT)
    } else if code == 0x2E {
        Some(VKey::DELETE)
    } else if code == 0x2F {
        Some(VKey::HELP)
    } else if code == 0x5B {
        Some(VKey::LWIN)
    } else if code == 0x5C {
        Some(VKey::RWIN)
    } else if code == 0x5D {
        Some(VKey::APPS)
    } else if code == 0x5F {
        Some(VKey::SLEEP)
    } else if code == 0x60 {
        Some(VKey::NUMPAD0)
    } else if code == 0x61 {
        Some(VKey::NUMPAD1)
    } else if code == 0x62 {
        Some(VKey::NUMPAD2)
    } else if code == 0x63 {
        Some(VKey::NUMPAD3)
    } else if code == 0x64 {
        Some(VKey::NUMPAD4)
    } else if code == 0x65 {
        Some(VKey::NUMPAD5)
    } else if code == 0x66 {
        Some(VKey::NUMPAD6)
    } else if code == 0x67 {
        Some(VKey::NUMPAD7)
    } else if code == 0x68 {
        Some(VKey::NUMPAD8)
    } else if code == 0x69 {
        Some(VKey::NUMPAD9)
    } else if code == 0x6A {
        Some(VKey::MULTIPLY)
    } else if code == 0x6B {
        Some(VKey::ADD)
    } else if code == 0x6C {
        Some(VKey::SEPARATOR)
    } else if code == 0x6D {
        Some(VKey::SUBTRACT)
    } else if code == 0x6E {
        Some(VKey::DECIMAL)
    } else if code == 0x6F {
        Some(VKey::DIVIDE)
    } else if code == 0x70 {
        Some(VKey::F1)
    } else if code == 0x71 {
        Some(VKey::F2)
    } else if code == 0x72 {
        Some(VKey::F3)
    } else if code == 0x73 {
        Some(VKey::F4)
    } else if code == 0x74 {
        Some(VKey::F5)
    } else if code == 0x75 {
        Some(VKey::F6)
    } else if code == 0x76 {
        Some(VKey::F7)
    } else if code == 0x77 {
        Some(VKey::F8)
    } else if code == 0x78 {
        Some(VKey::F9)
    } else if code == 0x79 {
        Some(VKey::F10)
    } else if code == 0x7A {
        Some(VKey::F11)
    } else if code == 0x7B {
        Some(VKey::F12)
    } else if code == 0x7C {
        Some(VKey::F13)
    } else if code == 0x7D {
        Some(VKey::F14)
    } else if code == 0x7E {
        Some(VKey::F15)
    } else if code == 0x7F {
        Some(VKey::F16)
    } else if code == 0x80 {
        Some(VKey::F17)
    } else if code == 0x81 {
        Some(VKey::F18)
    } else if code == 0x82 {
        Some(VKey::F19)
    } else if code == 0x83 {
        Some(VKey::F20)
    } else if code == 0x84 {
        Some(VKey::F21)
    } else if code == 0x85 {
        Some(VKey::F22)
    } else if code == 0x86 {
        Some(VKey::F23)
    } else if code == 0x87 {
        Some(VKey::F24)
    } else if code == 0x90 {
        Some(VKey::NUMLOCK)
    } else if code == 0x91 {
        Some(VKey::SCROLL)
    } else if code == 0xA0 {
        Some(VKey::LSHIFT)
    } else if code == 0xA1 {
        Some(VKey::RSHIFT)
    } else if code == 0xA2 {
        Some(VKey::LCONTROL)
    } else if code == 0xA3 {
        Some(VKey::RCONTROL)
    } else if code == 0xA4 {
        Some(VKey::LMENU)
    } else if code == 0xA5 {
        Some(VKey::RMENU)
    } else if code == 0xA6 {
        Some(VKey::BROWSER_BACK)
    } else if code == 0xA7 {
        Some(VKey::BROWSER_FORWARD)
    } else if code == 0xA8 {
        Some(VKey::BROWSER_REFRESH)
    } else if code == 0xA9 {
        Some(VKey::BROWSER_STOP)
    } else if code == 0xAA {
        Some(VKey::BROWSER_SEARCH)
    } else if code == 0xAB {
        Some(VKey::BROWSER_FAVORITES)
    } else if code == 0xAC {
        Some(VKey::BROWSER_HOME)
    } else if code == 0xAD {
        Some(VKey::VOLUME_MUTE)
    } else if code == 0xAE {
        Some(VKey::VOLUME_DOWN)
    } else if code == 0xAF {
        Some(VKey::VOLUME_UP)
    } else if code == 0xB0 {
        Some(VKey::MEDIA_NEXT_TRACK)
    } else if code == 0xB1 {
        Some(VKey::MEDIA_PREV_TRACK)
    } else if code == 0xB2 {
        Some(VKey::MEDIA_STOP)
    } else if code == 0xB3 {
        Some(VKey::MEDIA_PLAY_PAUSE)
    } else if code == 0xB4 {
        Some(VKey::LAUNCH_MAIL)
    } else if code == 0xB5 {
        Some(VKey::LAUNCH_MEDIA_SELECT)
    } else if code == 0xB6 {
        Some(VKey::LAUNCH_APP1)
    } else if code == 0xB7 {
        Some(VKey::LAUNCH_APP2)
    } else if code == 0xBA {
        Some(VKey::OEM_1)
    } else if code == 0xBB {
        Some(VKey::OEM_PLUS)
    } else if code == 0xBC {
        Some(VKey::OEM_COMMA)
    } else if code == 0xBD {
        Some(VKey::OEM_MINUS)
    } else if code == 0xBE {
        Some(VKey::OEM_PERIOD)
    } else if code == 0xBF {
        Some(VKey::OEM_2)
    } else if code == 0xC0 {
        Some(VKey::OEM_3)
    } else if code == 0xC3 {
        Some(VKey::GAMEPAD_A)
    } else if code == 0xC4 {
        Some(VKey::GAMEPAD_B)
    } else if code == 0xC5 {
        Some(VKey::GAMEPAD_X)
    } else if code == 0xC6 {
        Some(VKey::GAMEPAD_Y)
    } else if code == 0xC7 {
        Some(VKey::GAMEPAD_RIGHT_SHOULDER)
    } else if code == 0xC8 {
        Some(VKey::GAMEPAD_LEFT_SHOULDER)
    } else if code == 0xC9 {
        Some(VKey::GAMEPAD_LEFT_TRIGGER)
    } else if code == 0xCA {
        Some(VKey::GAMEPAD_RIGHT_TRIGGER)
    } else if code == 0xCB {
        Some(VKey::GAMEPAD_DPAD_UP)
    } else if code == 0xCC {
        Some(VKey::GAMEPAD_DPAD_DOWN)
    } else if code == 0xCD {
        Some(VKey::GAMEPAD_DPAD_LEFT)
    } else if code == 0xCE {
        Some(VKey::GAMEPAD_DPAD_RIGHT)
    } else if code == 0xCF {
        Some(VKey::GAMEPAD_MENU)
    } else if code == 0xD0 {
        Some(VKey::GAMEPAD_VIEW)
    } else if code == 0xD1 {
        Some(VKey::GAMEPAD_LEFT_THUMBSTICK_BUTTON)
    } else if code == 0xD2 {
        Some(VKey::GAMEPAD_RIGHT_THUMBSTICK_BUTTON)
    } else if code == 0xD3 {
        Some(VKey::GAMEPAD_LEFT_THUMBSTICK_UP)
    } else if code == 0xD4 {
        Some(VKey::GAMEPAD_LEFT_THUMBSTICK_DOWN)
    } else if code == 0xD5 {
        Some(VKey::GAMEPAD_LEFT_THUMBSTICK_RIGHT)
    } else if code == 0xD6 {
        Some(VKey::GAMEPAD_LEFT_THUMBSTICK_LEFT)
    } else if code == 0xD7 {
        Some(VKey::GAMEPAD_RIGHT_THUMBSTICK_UP)
    } else if code == 0xD8 {
        Some(VKey::GAMEPAD_RIGHT_THUMBSTICK_DOWN)
    } else if code == 0xD9 {
        Some(VKey::GAMEPAD_RIGHT_THUMBSTICK_RIGHT)
    } else if code == 0xDA {
        Some(VKey::GAMEPAD_RIGHT_THUMBSTICK_LEFT)
    } else if code == 0xDB {
        Some(VKey::OEM_4)
    } else if code == 0xDC {
        Some(VKey::OEM_5)
    } else if code == 0xDD {
        Some(VKey::OEM_6)
    } else if code == 0xDE {
        Some(VKey::OEM_7)
    } else if code == 0xDF {
        Some(VKey::OEM_8)
    } else if code == 0xE2 {
        Some(VKey::OEM_102)
    } else if code == 0xE5 {
        Some(VKey::PROCESSKEY)
    } else if code == 0xE7 {
        Some(VKey::PACKET)
    } else if code == 0xF6 {
        Some(VKey::ATTN)
    } else if code == 0xF7 {
        Some(VKey::CRSEL)
    } else if code == 0xF8 {
        Some(VKey::EXSEL)
    } else if code == 0xF9 {
        Some(VKey::EREOF)
    } else if code == 0xFA {
        Some(VKey::PLAY)
    } else if code == 0xFB {
        Some(VKey::ZOOM)
    } else if code == 0xFD {
        Some(VKey::PA1)
    } else if code == 0xFE {
        Some(VKey::OEM_CLEAR)
    } else if code == 0x30 {
        Some(VKey::N0)
    } else if code == 0x31 {
        Some(VKey::N1)
    } else if code == 0x32 {
        Some(VKey::N2)
    } else if code == 0x33 {
        Some(VKey::N3)
    } else if code == 0x34 {
        Some(VKey::N4)
    } else if code == 0x35 {
        Some(VKey::N5)
    } else if code == 0x36 {
        Some(VKey::N6)
    } else if code == 0x37 {
        Some(VKey::N7)
    } else if code == 0x38 {
        Some(VKey::N8)
    } else if code == 0x39 {
        Some(VKey::N9)
    } else if code == 0x41 {
        Some(VKey::A)
    } else if code == 0x42 {
        Some(VKey::B)
    } else if code == 0x43 {
        Some(VKey::C)
    } else if code == 0x44 {
        Some(VKey::D)
    } else if code == 0x45 {
        Some(VKey::E)
    } else if code == 0x46 {
        Some(VKey::F)
    } else if code == 0x47 {
        Some(VKey::G)
    } else if code == 0x48 {
        Some(VKey::H)
    } else if code == 0x49 {
        Some(VKey::I)
    } else if code == 0x4A {
        Some(VKey::J)
    } else if code == 0x4B {
        Some(VKey::K)
    } else if code == 0x4C {
        Some(VKey::L)
    } else if code == 0x4D {
        Some(VKey::M)
    } else if code == 0x4E {
        Some(VKey::N)
    } else if code == 0x4F {
        Some(VKey::O)
    } else if code == 0x50 {
        Some(VKey::P)
    } else if code == 0x51 {
        Some(VKey::Q)
    } else if code == 0x52 {
        Some(VKey::R)
    } else if code == 0x53 {
        Some(VKey::S)
    } else if code == 0x54 {
        Some(VKey::T)
    } else if code == 0x55 {
        Some(VKey::U)
    } else if code == 0x56 {
        Some(VKey::V)
    } else if code == 0x57 {
        Some(VKey::W)
    } else if code == 0x58 {
        Some(VKey::X)
    } else if code == 0x59 {
        Some(VKey::Y)
    } else if code == 0x5A {
        Some(VKey::Z)
    } else {
        None
    }
}

impl VKey {
    /// The key's virtual-key code.
    pub fn code(self) -> (r: i32)
        ensures
            r == key_code(self),
    {
        match self {
            VKey::LBUTTON => 0x01,
            VKey::RBUTTON => 0x02,
            VKey::CANCEL => 0x03,
            VKey::MBUTTON => 0x04,
            VKey::XBUTTON1 => 0x05,
            VKey::XBUTTON2 => 0x06,
            VKey::BACK => 0x08,
            VKey::TAB => 0x09,
            VKey::CLEAR => 0x0C,
            VKey::RETURN => 0x0D,
            VKey::SHIFT => 0x10,
            VKey::CONTROL => 0x11,
            VKey::MENU => 0x12,
            VKey::PAUSE => 0x13,
            VKey::CAPITAL => 0x14,
            VKey::ESCAPE => 0x1B,
            VKey::CONVERT => 0x1C,
            VKey::NONCONVERT => 0x1D,
            VKey::ACCEPT => 0x1E,
            VKey::MODECHANGE => 0x1F,
            VKey::SPACE => 0x20,
            VKey::PRIOR => 0x21,
            VKey::NEXT => 0x22,
            VKey::END => 0x23,
            VKey::HOME => 0x24,
            VKey::LEFT => 0x25,
            VKey::UP => 0x26,
            VKey::RIGHT => 0x27,
            VKey::DOWN => 0x28,
            VKey::SELECT => 0x29,
            VKey::PRINT => 0x2A,
            VKey::EXECUTE => 0x2B,
            VKey::SNAPSHOT => 0x2C,
            VKey::INSERT => 0x2D,
            VKey::DELETE => 0x2E,
            VKey::HELP => 0x2F,
            VKey::LWIN => 0x5B,
            VKey::RWIN => 0x5C,
            VKey::APPS => 0x5D,
            VKey::SLEEP => 0x5F,
            VKey::NUMPAD0 => 0x60,
            VKey::NUMPAD1 => 0x61,
            VKey::NUMPAD2 => 0x62,
            VKey::NUMPAD3 => 0x63,
            VKey::NUMPAD4 => 0x64,
            VKey::NUMPAD5 => 0x65,
            VKey::NUMPAD6 => 0x66,
            VKey::NUMPAD7 => 0x67,
            VKey::NUMPAD8 => 0x68,
            VKey::NUMPAD9 => 0x69,
            VKey::MULTIPLY => 0x6A,
            VKey::ADD => 0x6B,
            VKey::SEPARATOR => 0x6C,
            VKey::SUBTRACT => 0x6D,
            VKey::DECIMAL => 0x6E,
            VKey::DIVIDE => 0x6F,
            VKey::F1 => 0x70,
            VKey::F2 => 0x71,
            VKey::F3 => 0x72,
            VKey::F4 => 0x73,
            VKey::F5 => 0x74,
            VKey::F6 => 0x75,
            VKey::F7 => 0x76,
            VKey::F8 => 0x77,
            VKey::F9 => 0x78,
            VKey::F10 => 0x79,
            VKey::F11 => 0x7A,
            VKey::F12 => 0x7B,
            VKey::F13 => 0x7C,
            VKey::F14 => 0x7D,
            VKey::F15 => 0x7E,
            VKey::F16 => 0x7F,
            VKey::F17 => 0x80,
            VKey::F18 => 0x81,
            VKey::F19 => 0x82,
            VKey::F20 => 0x83,
            VKey::F21 => 0x84,
            VKey::F22 => 0x85,
            VKey::F23 => 0x86,
            VKey::F24 => 0x87,
            VKey::NUMLOCK => 0x90,
            VKey::SCROLL => 0x91,
            VKey::LSHIFT => 0xA0,
            VKey::RSHIFT => 0xA1,
            VKey::LCONTROL => 0xA2,
            VKey::RCONTROL => 0xA3,
            VKey::LMENU => 0xA4,
            VKey::RMENU => 0xA5,
            VKey::BROWSER_BACK => 0xA6,
            VKey::BROWSER_FORWARD => 0xA7,
            VKey::BROWSER_REFRESH => 0xA8,
            VKey::BROWSER_STOP => 0xA9,
            VKey::BROWSER_SEARCH => 0xAA,
            VKey::BROWSER_FAVORITES => 0xAB,
            VKey::BROWSER_HOME => 0xAC,
            VKey::VOLUME_MUTE => 0xAD,
            VKey::VOLUME_DOWN => 0xAE,
            VKey::VOLUME_UP => 0xAF,
            VKey::MEDIA_NEXT_TRACK => 0xB0,
            VKey::MEDIA_PREV_TRACK => 0xB1,
            VKey::MEDIA_STOP => 0xB2,
            VKey::MEDIA_PLAY_PAUSE => 0xB3,
            VKey::LAUNCH_MAIL => 0xB4,
            VKey::LAUNCH_MEDIA_SELECT => 0xB5,
            VKey::LAUNCH_APP1 => 0xB6,
            VKey::LAUNCH_APP2 => 0xB7,
            VKey::OEM_1 => 0xBA,
            VKey::OEM_PLUS => 0xBB,
            VKey::OEM_COMMA => 0xBC,
            VKey::OEM_MINUS => 0xBD,
            VKey::OEM_PERIOD => 0xBE,
            VKey::OEM_2 => 0xBF,
            VKey::OEM_3 => 0xC0,
            VKey::GAMEPAD_A => 0xC3,
            VKey::GAMEPAD_B => 0xC4,
            VKey::GAMEPAD_X => 0xC5,
            VKey::GAMEPAD_Y => 0xC6,
            VKey::GAMEPAD_RIGHT_SHOULDER => 0xC7,
            VKey::GAMEPAD_LEFT_SHOULDER => 0xC8,
            VKey::GAMEPAD_LEFT_TRIGGER => 0xC9,
            VKey::GAMEPAD_RIGHT_TRIGGER => 0xCA,
            VKey::GAMEPAD_DPAD_UP => 0xCB,
            VKey::GAMEPAD_DPAD_DOWN => 0xCC,
            VKey::GAMEPAD_DPAD_LEFT => 0xCD,
            VKey::GAMEPAD_DPAD_RIGHT => 0xCE,
            VKey::GAMEPAD_MENU => 0xCF,
            VKey::GAMEPAD_VIEW => 0xD0,
            VKey::GAMEPAD_LEFT_THUMBSTICK_BUTTON => 0xD1,
            VKey::GAMEPAD_RIGHT_THUMBSTICK_BUTTON => 0xD2,
            VKey::GAMEPAD_LEFT_THUMBSTICK_UP => 0xD3,
            VKey::GAMEPAD_LEFT_THUMBSTICK_DOWN => 0xD4,
            VKey::GAMEPAD_LEFT_THUMBSTICK_RIGHT => 0xD5,
            VKey::GAMEPAD_LEFT_THUMBSTICK_LEFT => 0xD6,
            VKey::GAMEPAD_RIGHT_THUMBSTICK_UP => 0xD7,
            VKey::GAMEPAD_RIGHT_THUMBSTICK_DOWN => 0xD8,
            VKey::GAMEPAD_RIGHT_THUMBSTICK_RIGHT => 0xD9,
            VKey::GAMEPAD_RIGHT_THUMBSTICK_LEFT => 0xDA,
            VKey::OEM_4 => 0xDB,
            VKey::OEM_5 => 0xDC,
            VKey::OEM_6 => 0xDD,
            VKey::OEM_7 => 0xDE,
            VKey::OEM_8 => 0xDF,
            VKey::OEM_102 => 0xE2,
            VKey::PROCESSKEY => 0xE5,
            VKey::PACKET => 0xE7,
            VKey::ATTN => 0xF6,
            VKey::CRSEL => 0xF7,
            VKey::EXSEL => 0xF8,
            VKey::EREOF => 0xF9,
            VKey::PLAY => 0xFA,
            VKey::ZOOM => 0xFB,
            VKey::PA1 => 0xFD,
            VKey::OEM_CLEAR => 0xFE,
            VKey::N0 => 0x30,
            VKey::N1 => 0x31,
            VKey::N2 => 0x32,
            VKey::N3 => 0x33,
            VKey::N4 => 0x34,
            VKey::N5 => 0x35,
            VKey::N6 => 0x36,
            VKey::N7 => 0x37,
            VKey::N8 => 0x38,
            VKey::N9 => 0x39,
            VKey::A => 0x41,
            VKey::B => 0x42,
            VKey::C => 0x43,
            VKey::D => 0x44,
            VKey::E => 0x45,
            VKey::F => 0x46,
            VKey::G => 0x47,
            VKey::H => 0x48,
            VKey::I => 0x49,
            VKey::J => 0x4A,
            VKey::K => 0x4B,
            VKey::L => 0x4C,
            VKey::M => 0x4D,
            VKey::N => 0x4E,
            VKey::O => 0x4F,
            VKey::P => 0x50,
            VKey::Q => 0x51,
            VKey::R => 0x52,
            VKey::S => 0x53,
            VKey::T => 0x54,
            VKey::U => 0x55,
            VKey::V => 0x56,
            VKey::W => 0x57,
            VKey::X => 0x58,
            VKey::Y => 0x59,
            VKey::Z => 0x5A,
        }
    }

    /// The key with virtual-key code `code`; `None` for a code no key has.
    pub fn from_code(code: i32) -> (r: Option<VKey>)
        ensures
            match r {
                Some(key) => key_code(key) == code,
                None => forall|key: VKey| key_code(key) != code,
            },
    {
        match code {
            0x01 => Some(VKey::LBUTTON),
            0x02 => Some(VKey::RBUTTON),
            0x03 => Some(VKey::CANCEL),
            0x04 => Some(VKey::MBUTTON),
            0x05 => Some(VKey::XBUTTON1),
            0x06 => Some(VKey::XBUTTON2),
            0x08 => Some(VKey::BACK),
            0x09 => Some(VKey::TAB),
            0x0C => Some(VKey::CLEAR),
            0x0D => Some(VKey::RETURN),
            0x10 => Some(VKey::SHIFT),
            0x11 => Some(VKey::CONTROL),
            0x12 => Some(VKey::MENU),
            0x13 => Some(VKey::PAUSE),
            0x14 => Some(VKey::CAPITAL),
            0x1B => Some(VKey::ESCAPE),
            0x1C => Some(VKey::CONVERT),
            0x1D => Some(VKey::NONCONVERT),
            0x1E => Some(VKey::ACCEPT),
            0x1F => Some(VKey::MODECHANGE),
            0x20 => Some(VKey::SPACE),
            0x21 => Some(VKey::PRIOR),
            0x22 => Some(VKey::NEXT),
            0x23 => Some(VKey::END),
            0x24 => Some(VKey::HOME),
            0x25 => Some(VKey::LEFT),
            0x26 => Some(VKey::UP),
            0x27 => Some(VKey::RIGHT),
            0x28 => Some(VKey::DOWN),
            0x29 => Some(VKey::SELECT),
            0x2A => Some(VKey::PRINT),
            0x2B => Some(VKey::EXECUTE),
            0x2C => Some(VKey::SNAPSHOT),
            0x2D => Some(VKey::INSERT),
            0x2E => Some(VKey::DELETE),
            0x2F => Some(VKey::HELP),
            0x5B => Some(VKey::LWIN),
            0x5C => Some(VKey::RWIN),
            0x5D => Some(VKey::APPS),
            0x5F => Some(VKey::SLEEP),
            0x60 => Some(VKey::NUMPAD0),
            0x61 => Some(VKey::NUMPAD1),
            0x62 => Some(VKey::NUMPAD2),
            0x63 => Some(VKey::NUMPAD3),
            0x64 => Some(VKey::NUMPAD4),
            0x65 => Some(VKey::NUMPAD5),
            0x66 => Some(VKey::NUMPAD6),
            0x67 => Some(VKey::NUMPAD7),
            0x68 => Some(VKey::NUMPAD8),
            0x69 => Some(VKey::NUMPAD9),
            0x6A => Some(VKey::MULTIPLY),
            0x6B => Some(VKey::ADD),
            0x6C => Some(VKey::SEPARATOR),
            0x6D => Some(VKey::SUBTRACT),
            0x6E => Some(VKey::DECIMAL),
            0x6F => Some(VKey::DIVIDE),
            0x70 => Some(VKey::F1),
            0x71 => Some(VKey::F2),
            0x72 => Some(VKey::F3),
            0x73 => Some(VKey::F4),
            0x74 => Some(VKey::F5),
            0x75 => Some(VKey::F6),
            0x76 => Some(VKey::F7),
            0x77 => Some(VKey::F8),
            0x78 => Some(VKey::F9),
            0x79 => Some(VKey::F10),
            0x7A => Some(VKey::F11),
            0x7B => Some(VKey::F12),
            0x7C => Some(VKey::F13),
            0x7D => Some(VKey::F14),
            0x7E => Some(VKey::F15),
            0x7F => Some(VKey::F16),
            0x80 => Some(VKey::F17),
            0x81 => Some(VKey::F18),
            0x82 => Some(VKey::F19),
            0x83 => Some(VKey::F20),
            0x84 => Some(VKey::F21),
            0x85 => Some(VKey::F22),
            0x86 => Some(VKey::F23),
            0x87 => Some(VKey::F24),
            0x90 => Some(VKey::NUMLOCK),
            0x91 => Some(VKey::SCROLL),
            0xA0 => Some(VKey::LSHIFT),
            0xA1 => Some(VKey::RSHIFT),
            0xA2 => Some(VKey::LCONTROL),
            0xA3 => Some(VKey::RCONTROL),
            0xA4 => Some(VKey::LMENU),
            0xA5 => Some(VKey::RMENU),
            0xA6 => Some(VKey::BROWSER_BACK),
            0xA7 => Some(VKey::BROWSER_FORWARD),
            0xA8 => Some(VKey::BROWSER_REFRESH),
            0xA9 => Some(VKey::BROWSER_STOP),
            0xAA => Some(VKey::BROWSER_SEARCH),
            0xAB => Some(VKey::BROWSER_FAVORITES),
            0xAC => Some(VKey::BROWSER_HOME),
            0xAD => Some(VKey::VOLUME_MUTE),
            0xAE => Some(VKey::VOLUME_DOWN),
            0xAF => Some(VKey::VOLUME_UP),
            0xB0 => Some(VKey::MEDIA_NEXT_TRACK),
            0xB1 => Some(VKey::MEDIA_PREV_TRACK),
            0xB2 => Some(VKey::MEDIA_STOP),
            0xB3 => Some(VKey::MEDIA_PLAY_PAUSE),
            0xB4 => Some(VKey::LAUNCH_MAIL),
            0xB5 => Some(VKey::LAUNCH_MEDIA_SELECT),
            0xB6 => Some(VKey::LAUNCH_APP1),
            0xB7 => Some(VKey::LAUNCH_APP2),
            0xBA => Some(VKey::OEM_1),
            0xBB => Some(VKey::OEM_PLUS),
            0xBC => Some(VKey::OEM_COMMA),
            0xBD => Some(VKey::OEM_MINUS),
            0xBE => Some(VKey::OEM_PERIOD),
            0xBF => Some(VKey::OEM_2),
            0xC0 => Some(VKey::OEM_3),
            0xC3 => Some(VKey::GAMEPAD_A),
            0xC4 => Some(VKey::GAMEPAD_B),
            0xC5 => Some(VKey::GAMEPAD_X),
            0xC6 => Some(VKey::GAMEPAD_Y),
            0xC7 => Some(VKey::GAMEPAD_RIGHT_SHOULDER),
            0xC8 => Some(VKey::GAMEPAD_LEFT_SHOULDER),
            0xC9 => Some(VKey::GAMEPAD_LEFT_TRIGGER),
            0xCA => Some(VKey::GAMEPAD_RIGHT_TRIGGER),
            0xCB => Some(VKey::GAMEPAD_DPAD_UP),
            0xCC => Some(VKey::GAMEPAD_DPAD_DOWN),
            0xCD => Some(VKey::GAMEPAD_DPAD_LEFT),
            0xCE => Some(VKey::GAMEPAD_DPAD_RIGHT),
            0xCF => Some(VKey::GAMEPAD_MENU),
            0xD0 => Some(VKey::GAMEPAD_VIEW),
            0xD1 => Some(VKey::GAMEPAD_LEFT_THUMBSTICK_BUTTON),
            0xD2 => Some(VKey::GAMEPAD_RIGHT_THUMBSTICK_BUTTON),
            0xD3 => Some(VKey::GAMEPAD_LEFT_THUMBSTICK_UP),
            0xD4 => Some(VKey::GAMEPAD_LEFT_THUMBSTICK_DOWN),
            0xD5 => Some(VKey::GAMEPAD_LEFT_THUMBSTICK_RIGHT),
            0xD6 => Some(VKey::GAMEPAD_LEFT_THUMBSTICK_LEFT),
            0xD7 => Some(VKey::GAMEPAD_RIGHT_THUMBSTICK_UP),
            0xD8 => Some(VKey::GAMEPAD_RIGHT_THUMBSTICK_DOWN),
            0xD9 => Some(VKey::GAMEPAD_RIGHT_THUMBSTICK_RIGHT),
            0xDA => Some(VKey::GAMEPAD_RIGHT_THUMBSTICK_LEFT),
            0xDB => Some(VKey::OEM_4),
            0xDC => Some(VKey::OEM_5),
            0xDD => Some(VKey::OEM_6),
            0xDE => Some(VKey::OEM_7),
            0xDF => Some(VKey::OEM_8),
            0xE2 => Some(VKey::OEM_102),
            0xE5 => Some(VKey::PROCESSKEY),
            0xE7 => Some(VKey::PACKET),
            0xF6 => Some(VKey::ATTN),
            0xF7 => Some(VKey::CRSEL),
            0xF8 => Some(VKey::EXSEL),
            0xF9 => Some(VKey::EREOF),
            0xFA => Some(VKey::PLAY),
            0xFB => Some(VKey::ZOOM),
            0xFD => Some(VKey::PA1),
            0xFE => Some(VKey::OEM_CLEAR),
            0x30 => Some(VKey::N0),
            0x31 => Some(VKey::N1),
            0x32 => Some(VKey::N2),
            0x33 => Some(VKey::N3),
            0x34 => Some(VKey::N4),
            0x35 => Some(VKey::N5),
            0x36 => Some(VKey::N6),
            0x37 => Some(VKey::N7),
            0x38 => Some(VKey::N8),
            0x39 => Some(VKey::N9),
            0x41 => Some(VKey::A),
            0x42 => Some(VKey::B),
            0x43 => Some(VKey::C),
            0x44 => Some(VKey::D),
            0x45 => Some(VKey::E),
            0x46 => Some(VKey::F),
            0x47 => Some(VKey::G),
            0x48 => Some(VKey::H),
            0x49 => Some(VKey::I),
            0x4A => Some(VKey::J),
            0x4B => Some(VKey::K),
            0x4C => Some(VKey::L),
            0x4D => Some(VKey::M),
            0x4E => Some(VKey::N),
            0x4F => Some(VKey::O),
            0x50 => Some(VKey::P),
            0x51 => Some(VKey::Q),
            0x52 => Some(VKey::R),
            0x53 => Some(VKey::S),
            0x54 => Some(VKey::T),
            0x55 => Some(VKey::U),
            0x56 => Some(VKey::V),
            0x57 => Some(VKey::W),
            0x58 => Some(VKey::X),
            0x59 => Some(VKey::Y),
            0x5A => Some(VKey::Z),
            _ => None,
        }
    }
}

/// Every key's code leads back to that key, so no two keys share a code.
pub proof fn lemma_key_codes_distinct(a: VKey, b: VKey)
    ensures
        key_with_code(key_code(a)) == Some(a),
        key_code(a) == key_code(b) ==> a == b,
{
}

/// Reading a key's code back gives the key.
pub proof fn lemma_code_round_trip(key: VKey, code: i32)
    requires
        key_with_code(code) == Some(key),
    ensures
        key_code(key) == code,
{
}

/// The arrow keys in the order of their codes.
pub open spec fn arrow_keys() -> Seq<VKey> {
    seq![VKey::LEFT, VKey::UP, VKey::RIGHT, VKey::DOWN]
}

/// The digit keys `0` to `9`.
pub open spec fn digit_keys() -> Seq<VKey> {
    seq![VKey::N0, VKey::N1, VKey::N2, VKey::N3, VKey::N4, VKey::N5, VKey::N6, VKey::N7, VKey::N8, VKey::N9]
}

/// The keypad digit keys `0` to `9`.
pub open spec fn numpad_keys() -> Seq<VKey> {
    seq![
        VKey::NUMPAD0,
        VKey::NUMPAD1,
        VKey::NUMPAD2,
        VKey::NUMPAD3,
        VKey::NUMPAD4,
        VKey::NUMPAD5,
        VKey::NUMPAD6,
        VKey::NUMPAD7,
        VKey::NUMPAD8,
        VKey::NUMPAD9,
    ]
}

/// The function keys `F1` to `F24`.
pub open spec fn function_keys() -> Seq<VKey> {
    seq![
        VKey::F1,
        VKey::F2,
        VKey::F3,
        VKey::F4,
        VKey::F5,
        VKey::F6,
        VKey::F7,
        VKey::F8,
        VKey::F9,
        VKey::F10,
        VKey::F11,
        VKey::F12,
        VKey::F13,
        VKey::F14,
        VKey::F15,
        VKey::F16,
        VKey::F17,
        VKey::F18,
        VKey::F19,
        VKey::F20,
        VKey::F21,
        VKey::F22,
        VKey::F23,
        VKey::F24,
    ]
}

/// The letter keys `A` to `Z`.
pub open spec fn letter_keys() -> Seq<VKey> {
    seq![
        VKey::A,
        VKey::B,
        VKey::C,
        VKey::D,
        VKey::E,
        VKey::F,
        VKey::G,
        VKey::H,
        VKey::I,
        VKey::J,
        VKey::K,
        VKey::L,
        VKey::M,
        VKey::N,
        VKey::O,
        VKey::P,
        VKey::Q,
        VKey::R,
        VKey::S,
        VKey::T,
        VKey::U,
        VKey::V,
        VKey::W,
        VKey::X,
        VKey::Y,
        VKey::Z,
    ]
}

/// The editing and navigation block `0x20` to `0x2F`, in code order.
pub open spec fn navigation_keys() -> Seq<VKey> {
    seq![
        VKey::SPACE,
        VKey::PRIOR,
        VKey::NEXT,
        VKey::END,
        VKey::HOME,
        VKey::LEFT,
        VKey::UP,
        VKey::RIGHT,
        VKey::DOWN,
        VKey::SELECT,
        VKey::PRINT,
        VKey::EXECUTE,
        VKey::SNAPSHOT,
        VKey::INSERT,
        VKey::DELETE,
        VKey::HELP,
    ]
}

/// The modifier keys: Shift, Ctrl and Alt, then each as a left and a right
/// key.
pub open spec fn modifier_keys() -> Seq<VKey> {
    seq![VKey::SHIFT, VKey::CONTROL, VKey::MENU, VKey::LSHIFT, VKey::RSHIFT, VKey::LCONTROL, VKey::RCONTROL, VKey::LMENU, VKey::RMENU]
}

/// The codes of the modifier keys: `0x10` to `0x12` for Shift, Ctrl and
/// Alt, `0xA0` to `0xA5` for their left and right keys (left first).
pub open spec fn modifier_code(i: int) -> int {
    if i < 3 {
        0x10 + i
    } else {
        0xA0 + (i - 3)
    }
}

/// The layout of the Win32 virtual-key codes: the arrows left, up, right,
/// down are `0x25` to `0x28` in that order; the digit and letter keys have
/// the ASCII codes of `0`-`9` and `A`-`Z`; the keypad digits are `0x60` to
/// `0x69`; `F1` to `F24` are `0x70` to `0x87`; space to help fill `0x20`
/// to `0x2F`; the modifiers are as `modifier_code` gives. Reading each code
/// back gives the same key.
pub proof fn lemma_key_code_layout(i: int)
    ensures
        0 <= i < 4 ==> key_code(arrow_keys()[i]) == 0x25 + i && key_with_code((0x25 + i) as i32) == Some(
            arrow_keys()[i],
        ),
        0 <= i < 10 ==> key_code(digit_keys()[i]) == 0x30 + i && key_with_code((0x30 + i) as i32) == Some(
            digit_keys()[i],
        ),
        0 <= i < 10 ==> key_code(numpad_keys()[i]) == 0x60 + i && key_with_code((0x60 + i) as i32)
            == Some(numpad_keys()[i]),
        0 <= i < 24 ==> key_code(function_keys()[i]) == 0x70 + i && key_with_code((0x70 + i) as i32)
            == Some(function_keys()[i]),
        0 <= i < 26 ==> key_code(letter_keys()[i]) == 0x41 + i && key_with_code((0x41 + i) as i32)
            == Some(letter_keys()[i]),
        0 <= i < 16 ==> key_code(navigation_keys()[i]) == 0x20 + i && key_with_code((0x20 + i) as i32)
            == Some(navigation_keys()[i]),
        0 <= i < 9 ==> key_code(modifier_keys()[i]) == modifier_code(i) && key_with_code(
            modifier_code(i) as i32,
        ) == Some(modifier_keys()[i]),
{
}

impl TryFrom<i32> for VKey {
    type Error = ();

    /// The key with virtual-key code `code`, or an error for a code no key
    /// has.
    fn try_from(code: i32) -> (r: Result<VKey, ()>)
        ensures
            match r {
                Ok(key) => key_code(key) == code,
                Err(_) => forall|key: VKey| key_code(key) != code,
            },
    {
        match VKey::from_code(code) {
            Some(key) => {
                proof {
                    lemma_key_codes_distinct(key, key);
                }
                Ok(key)
            },
            None => {
                proof {
                    if let Some(k) = key_with_code(code) {
                        lemma_code_round_trip(k, code);
                    }
                }
                Err(())
            },
        }
    }
}

impl vstd::std_specs::convert::TryFromSpecImpl<i32> for VKey {
    open spec fn obeys_try_from_spec() -> bool {
        true
    }

    open spec fn try_from_spec(code: i32) -> Result<VKey, ()> {
        match key_with_code(code) {
            Some(key) => Ok(key),
            None => Err(()),
        }
    }
}

} // verus!
