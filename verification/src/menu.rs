//! Context menus: their items, the flags each item is appended with, and the
//! mapping from the command a popup menu returns back to an item.
use vstd::prelude::*;
use vstd::string::StringExecFns;
use crate::text::{to_wide_nul, utf16_of};

verus! {

pub const WM_SHOW_CONTEXT_MENU: u32 = 0x04C8;

pub const MF_STRING: u32 = 0x0000;
pub const MF_GRAYED: u32 = 0x0001;
pub const MF_DISABLED: u32 = 0x0002;
pub const MF_CHECKED: u32 = 0x0008;
pub const MF_SEPARATOR: u32 = 0x0800;

pub const TPM_LEFTALIGN: u32 = 0x0000;
pub const TPM_LEFTBUTTON: u32 = 0x0000;
pub const TPM_RIGHTALIGN: u32 = 0x0008;
pub const TPM_RETURNCMD: u32 = 0x0100;

/// A single item in a context menu
#[derive(Debug, Clone)]
pub struct ContextMenuItem {
    /// The text to display for this menu item
    pub label: String,
    /// Whether this item is enabled
    pub enabled: bool,
    /// Whether this item is checked
    pub checked: bool,
    /// Whether this item is a separator (label and message are ignored)
    pub is_separator: bool,
}

/// A context menu that can be displayed to the user
#[derive(Debug, Clone)]
pub struct ContextMenu {
    pub items: Vec<ContextMenuItem>,
}

impl ContextMenu {
    /// Create a new context menu with the given items
    pub fn new(items: Vec<ContextMenuItem>) -> (r: Self)
        ensures
            r.items == items,
    {
        ContextMenu { items }
    }
}

impl ContextMenuItem {
    /// Create a new context menu item carrying `message`
    pub fn new<T>(message: T, label: &str) -> (r: (Option<T>, Self))
        ensures
            r.0 == Some(message),
            r.1.label@ == label@,
            r.1.enabled,
            !r.1.checked,
            !r.1.is_separator,
    {
        (
            Some(message),
            ContextMenuItem {
                label: String::from_str(label),
                enabled: true,
                checked: false,
                is_separator: false,
            },
        )
    }

    /// Create a separator item
    pub fn separator<T>() -> (r: (Option<T>, Self))
        ensures
            r.0 is None,
            r.1.label@ == Seq::<char>::empty(),
            r.1.enabled,
            !r.1.checked,
            r.1.is_separator,
    {
        (None, ContextMenuItem { label: String::new(), enabled: true, checked: false, is_separator: true })
    }

    /// Set whether this item is enabled
    pub fn with_enabled(self, enabled: bool) -> (r: Self)
        ensures
            r.enabled == enabled,
            r.label == self.label,
            r.checked == self.checked,
            r.is_separator == self.is_separator,
    {
        ContextMenuItem { enabled, ..self }
    }

    /// Set whether this item is checked
    pub fn with_checked(self, checked: bool) -> (r: Self)
        ensures
            r.checked == checked,
            r.label == self.label,
            r.enabled == self.enabled,
            r.is_separator == self.is_separator,
    {
        ContextMenuItem { checked, ..self }
    }

    /// Make this item disabled
    pub fn disabled(self) -> (r: Self)
        ensures
            !r.enabled,
            r.label == self.label,
            r.checked == self.checked,
            r.is_separator == self.is_separator,
    {
        ContextMenuItem { enabled: false, ..self }
    }

    /// Make this item checked
    pub fn checked(self) -> (r: Self)
        ensures
            r.checked,
            r.label == self.label,
            r.enabled == self.enabled,
            r.is_separator == self.is_separator,
    {
        ContextMenuItem { checked: true, ..self }
    }
}

/// Builder methods on an item paired with the message it sends.
pub trait ContextMenuItemExt<T>: Sized {
    fn with_message(self, message: T) -> Self;

    fn with_enabled(self, enabled: bool) -> Self;

    fn with_checked(self, checked: bool) -> Self;

    fn disabled(self) -> Self;

    fn checked(self) -> Self;
}

impl<T> ContextMenuItemExt<T> for (Option<T>, ContextMenuItem) {
    fn with_message(self, message: T) -> (r: Self)
        ensures
            r.0 == Some(message),
            r.1 == self.1,
    {
        (Some(message), self.1)
    }

    fn with_enabled(self, enabled: bool) -> (r: Self)
        ensures
            r.0 == self.0,
            r.1.enabled == enabled,
            r.1.label == self.1.label,
            r.1.checked == self.1.checked,
            r.1.is_separator == self.1.is_separator,
    {
        (self.0, self.1.with_enabled(enabled))
    }

    fn with_checked(self, checked: bool) -> (r: Self)
        ensures
            r.0 == self.0,
            r.1.checked == checked,
            r.1.label == self.1.label,
            r.1.enabled == self.1.enabled,
            r.1.is_separator == self.1.is_separator,
    {
        (self.0, self.1.with_checked(checked))
    }

    fn disabled(self) -> (r: Self)
        ensures
            r.0 == self.0,
            !r.1.enabled,
            r.1.label == self.1.label,
            r.1.checked == self.1.checked,
            r.1.is_separator == self.1.is_separator,
    {
        (self.0, self.1.disabled())
    }

    fn checked(self) -> (r: Self)
        ensures
            r.0 == self.0,
            r.1.checked,
            r.1.label == self.1.label,
            r.1.enabled == self.1.enabled,
            r.1.is_separator == self.1.is_separator,
    {
        (self.0, self.1.checked())
    }
}

/// The flags an item is appended to the popup menu with: `MF_SEPARATOR`
/// for a separator, otherwise `MF_STRING`, with `MF_DISABLED | MF_GRAYED`
/// when disabled and `MF_CHECKED` when checked.
pub open spec fn item_flags(item: ContextMenuItem) -> u32 {
    if item.is_separator {
        MF_SEPARATOR
    } else if !item.enabled && item.checked {
        0x000B
    } else if !item.enabled {
        0x0003
    } else if item.checked {
        0x0008
    } else {
        MF_STRING
    }
}

/// The flags to append `item` with: a separator, or a string that is grayed
/// when disabled and checked when checked.
pub fn menu_item_flags(item: &ContextMenuItem) -> (r: u32)
    ensures
        r == item_flags(*item),
{
    if item.is_separator {
        MF_SEPARATOR
    } else {
        let mut flags = MF_STRING;
        if !item.enabled {
            flags = flags | MF_DISABLED | MF_GRAYED;
        }
        if item.checked {
            flags = flags | MF_CHECKED;
        }
        proof {
            assert((0u32 | 2u32) | 1u32 == 3u32) by (bit_vector);
            assert(3u32 | 8u32 == 11u32) by (bit_vector);
            assert(0u32 | 8u32 == 8u32) by (bit_vector);
        }
        flags
    }
}

/// The command identifier of the item at `index`: command 0 means that
/// nothing was chosen, so items are numbered from 1.
pub fn menu_command_id(index: usize) -> (r: usize)
    requires
        index < usize::MAX,
    ensures
        r == index + 1,
{
    index + 1
}

/// The label of an item as a zero-terminated UTF-16 string.
pub fn menu_label_wide(item: &ContextMenuItem) -> (r: Vec<u16>)
    ensures
        r@ == utf16_of(item.label@).push(0),
{
    to_wide_nul(item.label.as_str())
}

/// The flags for showing a popup menu that returns the chosen command,
/// aligned to the right when the system asks for right-aligned menus.
pub fn popup_menu_flags(right_aligned: bool) -> (r: u32)
    ensures
        r == (if right_aligned {
            TPM_RIGHTALIGN
        } else {
            TPM_LEFTALIGN
        }) | TPM_LEFTBUTTON | TPM_RETURNCMD,
{
    let align = if right_aligned {
        TPM_RIGHTALIGN
    } else {
        TPM_LEFTALIGN
    };
    align | TPM_LEFTBUTTON | TPM_RETURNCMD
}

/// The item a popup menu's returned command designates: command `c > 0`
/// is item `c - 1` when there is such an item.
pub fn selected_item(command: i32, item_count: usize) -> (r: Option<usize>)
    ensures
        r == (if command > 0 && command - 1 < item_count {
            Some((command - 1) as usize)
        } else {
            None::<usize>
        }),
{
    if command > 0 {
        let index = (command - 1) as usize;
        if index < item_count {
            Some(index)
        } else {
            None
        }
    } else {
        None
    }
}

/// The command of an item maps back to that item.
pub proof fn lemma_command_round_trip(index: usize, item_count: usize)
    requires
        index < item_count,
        index + 1 <= i32::MAX,
    ensures
        ({
            let command = (index + 1) as i32;
            command > 0 && command - 1 < item_count && (command - 1) as usize == index
        }),
{
}

} // verus!
