//! Drag-and-drop decisions for text drags: when a drag continues, drops or is
//! cancelled, which clipboard formats the text data object serves, and the
//! UTF-16 buffer it serves.
use vstd::prelude::*;
use crate::text::{to_wide_nul, utf16_of};

verus! {

pub const S_OK: i32 = 0;
pub const DRAGDROP_S_DROP: i32 = 0x0004_0100;
pub const DRAGDROP_S_CANCEL: i32 = 0x0004_0101;
pub const DRAGDROP_S_USEDEFAULTCURSORS: i32 = 0x0004_0102;
pub const MK_LBUTTON: u32 = 0x0001;
pub const DROPEFFECT_COPY: u32 = 1;
pub const DROPEFFECT_MOVE: u32 = 2;
pub const CF_UNICODETEXT: u16 = 13;
pub const TYMED_HGLOBAL: u32 = 1;
pub const DVASPECT_CONTENT: u32 = 1;

/// The drop source of a text drag: default cursors, and the basic
/// continue / cancel / drop policy.
#[derive(Clone, Copy, Debug, PartialEq, Eq, Structural)]
pub struct DropSource;

impl DropSource {
    pub fn new() -> (r: Self)
        ensures
            r == DropSource,
    {
        DropSource
    }

    /// Escape cancels the drag; releasing the left button drops; otherwise
    /// the drag continues.
    pub fn query_continue_drag(&self, escape_pressed: bool, key_state: u32) -> (r: i32)
        ensures
            r == (if escape_pressed {
                DRAGDROP_S_CANCEL
            } else if key_state & MK_LBUTTON == 0 {
                DRAGDROP_S_DROP
            } else {
                S_OK
            }),
    {
        if escape_pressed {
            DRAGDROP_S_CANCEL
        } else if key_state & MK_LBUTTON == 0 {
            DRAGDROP_S_DROP
        } else {
            S_OK
        }
    }

    /// The default cursors are used whatever the effect.
    pub fn give_feedback(&self, effect: u32) -> (r: i32)
        ensures
            r == DRAGDROP_S_USEDEFAULTCURSORS,
    {
        DRAGDROP_S_USEDEFAULTCURSORS
    }
}

/// The effects a text drag allows: copying, and moving when `allow_move`.
pub fn allowed_drop_effects(allow_move: bool) -> (r: u32)
    ensures
        r == (if allow_move {
            3u32
        } else {
            DROPEFFECT_COPY
        }),
{
    if allow_move {
        assert(1u32 | 2u32 == 3u32) by (bit_vector);
        DROPEFFECT_COPY | DROPEFFECT_MOVE
    } else {
        DROPEFFECT_COPY
    }
}

/// The fields of a `FORMATETC` request that decide whether text is served.
#[derive(Clone, Copy, Debug, PartialEq, Eq, Structural)]
pub struct FormatRequest {
    pub cf_format: u16,
    pub tymed: u32,
    pub aspect: u32,
    pub lindex: i32,
}

/// `GetData` serves Unicode text in global memory, for the content aspect
/// and the whole object (`lindex == -1`), and nothing else.
pub fn serves_format(fmt: &FormatRequest) -> (r: bool)
    ensures
        r == (fmt.cf_format == CF_UNICODETEXT && fmt.tymed == TYMED_HGLOBAL && fmt.aspect
            == DVASPECT_CONTENT && fmt.lindex == -1),
{
    fmt.cf_format == CF_UNICODETEXT && fmt.tymed == TYMED_HGLOBAL && fmt.aspect == DVASPECT_CONTENT
        && fmt.lindex == -1
}

/// `QueryGetData` accepts any request for Unicode text whose storage media
/// include global memory, for the content aspect and the whole object.
pub fn accepts_format(fmt: &FormatRequest) -> (r: bool)
    ensures
        r == (fmt.cf_format == CF_UNICODETEXT && fmt.tymed & TYMED_HGLOBAL != 0 && fmt.aspect
            == DVASPECT_CONTENT && fmt.lindex == -1),
{
    fmt.cf_format == CF_UNICODETEXT && fmt.tymed & TYMED_HGLOBAL != 0 && fmt.aspect
        == DVASPECT_CONTENT && fmt.lindex == -1
}

/// Text data served as a zero-terminated UTF-16 buffer.
pub struct TextDataObject {
    pub text_w: Vec<u16>,
}

impl TextDataObject {
    pub fn new(text: &str) -> (r: Self)
        ensures
            r.text_w@ == utf16_of(text@).push(0),
    {
        TextDataObject { text_w: to_wide_nul(text) }
    }

    /// The size in bytes of the served buffer.
    pub fn byte_len(&self) -> (r: usize)
        requires
            self.text_w.len() * 2 <= usize::MAX,
        ensures
            r == self.text_w.len() * 2,
    {
        self.text_w.len() * 2
    }
}

/// The stage of an OLE drag over the window.
#[derive(Clone, Copy, Debug, PartialEq, Eq, Structural)]
pub enum DragStage {
    Enter,
    Over,
    Drop,
    Leave,
}

/// The call a drop-target widget under the pointer receives.
#[derive(Clone, Copy, Debug, PartialEq, Eq, Structural)]
pub enum DropTargetCall {
    DragEnter,
    DragOver,
    Drop,
    DragLeave,
}

/// Whether the widget the drag was over must be told that the drag left it:
/// on a drag-over, when there was such a widget and the first widget under
/// the pointer (`under_pointer`) is another one or there is none.
pub fn drag_leave_needed(stage: DragStage, previous: Option<u64>, under_pointer: Option<u64>) -> (r: bool)
    ensures
        r == (stage == DragStage::Over && previous is Some && under_pointer != previous),
{
    match (stage, previous) {
        (DragStage::Over, Some(p)) => match under_pointer {
            Some(u) => u != p,
            None => true,
        },
        _ => false,
    }
}

/// The call the drop target `target` receives: a drag-over reaching a widget
/// the drag was not over yet enters it.
pub fn drop_target_call(stage: DragStage, previous: Option<u64>, target: u64) -> (r: DropTargetCall)
    ensures
        r == match stage {
            DragStage::Enter => DropTargetCall::DragEnter,
            DragStage::Over => if previous == Some(target) {
                DropTargetCall::DragOver
            } else {
                DropTargetCall::DragEnter
            },
            DragStage::Drop => DropTargetCall::Drop,
            DragStage::Leave => DropTargetCall::DragLeave,
        },
{
    match stage {
        DragStage::Enter => DropTargetCall::DragEnter,
        DragStage::Over => match previous {
            Some(p) => if p == target {
                DropTargetCall::DragOver
            } else {
                DropTargetCall::DragEnter
            },
            None => DropTargetCall::DragEnter,
        },
        DragStage::Drop => DropTargetCall::Drop,
        DragStage::Leave => DropTargetCall::DragLeave,
    }
}

} // verus!
