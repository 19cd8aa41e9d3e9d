//! Keyboard focus by widget id or, for widgets without an id, by tree key.
use vstd::prelude::*;

verus! {

/// What holds the focus: a widget id, or the tree key of a widget without one.
#[derive(Clone, Copy, Debug, PartialEq, Eq, Structural)]
pub enum FocusTarget {
    ById(u64),
    ByKey(u64),
}

/// Whether a widget with id `target_id` and key `target_key` is `focused`.
pub open spec fn focus_matches(focused: Option<FocusTarget>, target_id: Option<u64>, target_key: u64) -> bool {
    match focused {
        Some(FocusTarget::ById(id)) => target_id == Some(id),
        Some(FocusTarget::ByKey(key)) => key == target_key,
        None => false,
    }
}

pub struct FocusManager {
    focused_widget: Option<FocusTarget>,
}

impl FocusManager {
    pub closed spec fn focused(&self) -> Option<FocusTarget> {
        self.focused_widget
    }

    pub fn new() -> (r: Self)
        ensures
            r.focused() is None,
    {
        FocusManager { focused_widget: None }
    }

    pub fn is_focused(&self, target_id: Option<u64>, target_key: u64) -> (r: bool)
        ensures
            r == focus_matches(self.focused(), target_id, target_key),
    {
        match self.focused_widget {
            Some(FocusTarget::ById(id)) => match target_id {
                Some(t) => id == t,
                None => false,
            },
            Some(FocusTarget::ByKey(key)) => key == target_key,
            None => false,
        }
    }

    /// Focuses the widget: by its id when it has one, else by its key.
    pub fn focus(&mut self, id: Option<u64>, key: u64)
        ensures
            final(self).focused() == Some(
                match id {
                    Some(i) => FocusTarget::ById(i),
                    None => FocusTarget::ByKey(key),
                },
            ),
    {
        match id {
            Some(i) => self.focused_widget = Some(FocusTarget::ById(i)),
            None => self.focused_widget = Some(FocusTarget::ByKey(key)),
        }
    }

    /// Releases the focus if the widget holds it.
    pub fn release_focus(&mut self, target_id: Option<u64>, target_key: u64)
        ensures
            focus_matches(old(self).focused(), target_id, target_key) ==> final(self).focused() is None,
            !focus_matches(old(self).focused(), target_id, target_key) ==> final(self).focused() == old(
                self).focused(),
    {
        if self.is_focused(target_id, target_key) {
            self.focused_widget = None;
        }
    }
}

/// Focusing a widget makes it focused; releasing it then leaves nothing
/// focused, while releasing another widget keeps the focus.
pub proof fn lemma_focus_release(id: Option<u64>, key: u64, other_id: Option<u64>, other_key: u64)
    ensures
        ({
            let t = match id {
                Some(i) => FocusTarget::ById(i),
                None => FocusTarget::ByKey(key),
            };
            &&& focus_matches(Some(t), id, key)
            &&& (!focus_matches(Some(t), other_id, other_key) ==> focus_matches(
                Some(t),
                id,
                key,
            ))
        }),
{
}

} // verus!
