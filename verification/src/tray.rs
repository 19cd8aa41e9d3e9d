//! System tray icon configuration and the state that decides which
//! notification-area calls a tray icon makes.
use vstd::prelude::*;
use vstd::string::StringExecFns;
use crate::text::{to_wide_nul, utf16_of};
use crate::input::{WM_LBUTTONDBLCLK, WM_LBUTTONUP, WM_RBUTTONUP};

verus! {

/// The message a tray icon posts to its window (`WM_USER + 100`).
pub const WM_TRAYICON: u32 = 0x0464;

pub const NIF_MESSAGE: u32 = 0x0001;
pub const NIF_ICON: u32 = 0x0002;
pub const NIF_TIP: u32 = 0x0004;

/// The capacity, in UTF-16 units, of a tray icon tooltip.
pub const TOOLTIP_CAPACITY: usize = 128;

/// Configuration for a system tray icon
#[derive(Clone, Debug)]
pub struct TrayIconConfig {
    /// Tooltip text that appears when hovering over the icon
    pub tooltip: Option<String>,
    /// Icon resource ID from the executable
    pub icon_resource: Option<u16>,
}

impl TrayIconConfig {
    pub fn new() -> (r: Self)
        ensures
            r.tooltip is None,
            r.icon_resource is None,
    {
        TrayIconConfig { tooltip: None, icon_resource: None }
    }

    pub fn with_tooltip(self, tooltip: &str) -> (r: Self)
        ensures
            r.tooltip matches Some(t) && t@ == tooltip@,
            r.icon_resource == self.icon_resource,
    {
        TrayIconConfig { tooltip: Some(String::from_str(tooltip)), ..self }
    }

    pub fn with_icon_resource(self, resource_id: u16) -> (r: Self)
        ensures
            r.icon_resource == Some(resource_id),
            r.tooltip == self.tooltip,
    {
        TrayIconConfig { icon_resource: Some(resource_id), ..self }
    }
}

/// A tray icon of the window `hwnd`, and whether it is currently shown.
pub struct TrayIcon {
    hwnd: isize,
    config: TrayIconConfig,
    added: bool,
}

impl TrayIcon {
    pub closed spec fn is_added(&self) -> bool {
        self.added
    }

    pub closed spec fn window(&self) -> isize {
        self.hwnd
    }

    pub closed spec fn configuration(&self) -> TrayIconConfig {
        self.config
    }

    /// The window the icon belongs to.
    pub fn hwnd(&self) -> (r: isize)
        ensures
            r == self.window(),
    {
        self.hwnd
    }

    /// The icon's configuration.
    pub fn config(&self) -> (r: &TrayIconConfig)
        ensures
            *r == self.configuration(),
    {
        &self.config
    }

    /// Create a new tray icon (it is not in the system tray yet)
    pub fn new(hwnd: isize, config: TrayIconConfig) -> (r: Self)
        ensures
            r.window() == hwnd,
            r.configuration() == config,
            !r.is_added(),
    {
        TrayIcon { hwnd, config, added: false }
    }

    /// Whether the icon is in the system tray.
    pub fn added(&self) -> (r: bool)
        ensures
            r == self.is_added(),
    {
        self.added
    }

    /// Whether adding the icon calls the shell: only when it is not shown yet.
    pub fn needs_add(&self) -> (r: bool)
        ensures
            r == !self.is_added(),
    {
        !self.added
    }

    /// Records that the shell added the icon.
    pub fn mark_added(&mut self)
        ensures
            final(self).is_added(),
            final(self).window() == old(self).window(),
            final(self).configuration() == old(self).configuration(),
    {
        self.added = true;
    }

    /// Replaces the configuration; returns whether the shown icon must be
    /// modified (only a shown icon is).
    pub fn update_config(&mut self, config: TrayIconConfig) -> (r: bool)
        ensures
            final(self).configuration() == config,
            final(self).window() == old(self).window(),
            final(self).is_added() == old(self).is_added(),
            r == old(self).is_added(),
    {
        self.config = config;
        self.added
    }

    /// Whether removing the icon calls the shell: only when it is shown.
    pub fn needs_remove(&self) -> (r: bool)
        ensures
            r == self.is_added(),
    {
        self.added
    }

    /// Records that the shell removed the icon.
    pub fn mark_removed(&mut self)
        ensures
            !final(self).is_added(),
            final(self).window() == old(self).window(),
            final(self).configuration() == old(self).configuration(),
    {
        self.added = false;
    }
}

/// The notification flags: the callback message always, the icon when one
/// was loaded, the tooltip when one is configured.
pub fn notify_icon_flags(icon_loaded: bool, has_tooltip: bool) -> (r: u32)
    ensures
        r == NIF_MESSAGE + (if icon_loaded {
            NIF_ICON
        } else {
            0
        }) + (if has_tooltip {
            NIF_TIP
        } else {
            0
        }),
{
    let mut flags = NIF_MESSAGE;
    if icon_loaded {
        assert(1u32 | 2u32 == 3u32) by (bit_vector);
        flags = flags | NIF_ICON;
    }
    if has_tooltip {
        assert(1u32 | 4u32 == 5u32) by (bit_vector);
        assert(3u32 | 4u32 == 7u32) by (bit_vector);
        flags = flags | NIF_TIP;
    }
    flags
}

/// The tooltip units copied into the notification data: the zero-terminated
/// UTF-16 text, cut to the tooltip capacity.
pub fn tooltip_units(tooltip: &str) -> (r: Vec<u16>)
    ensures
        r@ == utf16_of(tooltip@).push(0).take(
            if utf16_of(tooltip@).len() + 1 < TOOLTIP_CAPACITY {
                utf16_of(tooltip@).len() + 1int
            } else {
                TOOLTIP_CAPACITY as int
            },
        ),
{
    let mut wide = to_wide_nul(tooltip);
    if wide.len() > TOOLTIP_CAPACITY {
        wide.truncate(TOOLTIP_CAPACITY);
    }
    proof {
        let full = utf16_of(tooltip@).push(0);
        assert(wide@ =~= full.take(wide@.len() as int));
    }
    wide
}

/// Events that can occur on a tray icon
#[derive(Debug, Clone, Copy, PartialEq, Eq, Structural)]
pub enum TrayEvent {
    /// Left mouse button clicked
    LeftClick,
    /// Left mouse button double-clicked
    LeftDoubleClick,
    /// Right mouse button clicked
    RightClick,
}

pub open spec fn tray_event_of(lparam: isize) -> Option<TrayEvent> {
    let msg = lparam as u32;
    if msg == WM_LBUTTONUP {
        Some(TrayEvent::LeftClick)
    } else if msg == WM_LBUTTONDBLCLK {
        Some(TrayEvent::LeftDoubleClick)
    } else if msg == WM_RBUTTONUP {
        Some(TrayEvent::RightClick)
    } else {
        None
    }
}

impl TrayIcon {
    /// Parse a tray icon message (its lparam) into a TrayEvent
    pub fn parse_message(lparam: isize) -> (r: Option<TrayEvent>)
        ensures
            r == tray_event_of(lparam),
    {
        let msg = lparam as u32;
        if msg == WM_LBUTTONUP {
            Some(TrayEvent::LeftClick)
        } else if msg == WM_LBUTTONDBLCLK {
            Some(TrayEvent::LeftDoubleClick)
        } else if msg == WM_RBUTTONUP {
            Some(TrayEvent::RightClick)
        } else {
            None
        }
    }
}

} // verus!
