//! Keyboard focus by widget id.
use vstd::prelude::*;

verus! {

pub struct FocusManager {
    pub focused_widget: Option<u64>,
}

impl FocusManager {
    pub fn new() -> (r: Self)
        ensures
            r.focused_widget is None,
    {
        FocusManager { focused_widget: None }
    }

    pub fn is_focused(&self, target_id: u64) -> (r: bool)
        ensures
            r == (self.focused_widget == Some(target_id)),
    {
        match self.focused_widget {
            Some(id) => id == target_id,
            None => false,
        }
    }

    pub fn focus(&mut self, id: u64)
        ensures
            final(self).focused_widget == Some(id),
    {
        self.focused_widget = Some(id);
    }

    /// Releases the focus if `target_id` holds it.
    pub fn release_focus(&mut self, target_id: u64)
        ensures
            old(self).focused_widget == Some(target_id) ==> final(self).focused_widget is None,
            old(self).focused_widget != Some(target_id) ==> final(self).focused_widget == old(
                self).focused_widget,
    {
        if let Some(id) = self.focused_widget {
            if id == target_id {
                self.focused_widget = None;
            }
        }
    }
}

} // verus!
