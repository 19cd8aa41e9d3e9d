//! The caption-button rectangles registered for each window, looked up by
//! the non-client hit test.
use vstd::prelude::*;
use std::collections::HashMap;
use crate::input::TitlebarHitRegions;

verus! {

/// The titlebar hit regions of each window, keyed by window handle.
pub struct TitlebarHitRegionMap {
    regions: HashMap<usize, TitlebarHitRegions>,
}

impl TitlebarHitRegionMap {
    pub closed spec fn view(&self) -> Map<usize, TitlebarHitRegions> {
        self.regions@
    }

    pub fn new() -> (r: Self)
        ensures
            r.view() == Map::<usize, TitlebarHitRegions>::empty(),
    {
        TitlebarHitRegionMap { regions: HashMap::new() }
    }

    /// Sets the regions of window `hwnd`.
    pub fn set(&mut self, hwnd: usize, regions: TitlebarHitRegions)
        ensures
            final(self).view() == old(self).view().insert(hwnd, regions),
    {
        broadcast use vstd::std_specs::hash::group_hash_axioms;
        self.regions.insert(hwnd, regions);
    }

    /// Forgets the regions of window `hwnd`.
    pub fn clear(&mut self, hwnd: usize)
        ensures
            final(self).view() == old(self).view().remove(hwnd),
    {
        broadcast use vstd::std_specs::hash::group_hash_axioms;
        self.regions.remove(&hwnd);
    }

    /// The regions of window `hwnd`, if set.
    pub fn get(&self, hwnd: usize) -> (r: Option<TitlebarHitRegions>)
        ensures
            r == (if self.view().contains_key(hwnd) {
                Some(self.view()[hwnd])
            } else {
                None::<TitlebarHitRegions>
            }),
    {
        broadcast use vstd::std_specs::hash::group_hash_axioms;
        match self.regions.get(&hwnd) {
            Some(r) => Some(*r),
            None => None,
        }
    }
}

/// Sets the caption-button regions of window `hwnd`.
pub fn set_titlebar_hit_regions(map: &mut TitlebarHitRegionMap, hwnd: usize, regions: TitlebarHitRegions)
    ensures
        final(map).view() == old(map).view().insert(hwnd, regions),
{
    map.set(hwnd, regions);
}

/// Forgets the caption-button regions of window `hwnd`.
pub fn clear_titlebar_hit_regions(map: &mut TitlebarHitRegionMap, hwnd: usize)
    ensures
        final(map).view() == old(map).view().remove(hwnd),
{
    map.clear(hwnd);
}

/// The caption-button regions of window `hwnd`, if set.
pub fn get_titlebar_hit_regions(map: &TitlebarHitRegionMap, hwnd: usize) -> (r: Option<TitlebarHitRegions>)
    ensures
        r == (if map.view().contains_key(hwnd) {
            Some(map.view()[hwnd])
        } else {
            None::<TitlebarHitRegions>
        }),
{
    map.get(hwnd)
}

/// A lookup gives back what was last set for the same window, nothing after
/// the window's regions were cleared, and setting or clearing one window's
/// regions leaves every other window's as they were.
pub proof fn lemma_regions_read_back(
    m: Map<usize, TitlebarHitRegions>,
    hwnd: usize,
    other: usize,
    regions: TitlebarHitRegions,
)
    requires
        other != hwnd,
    ensures
        m.insert(hwnd, regions).contains_key(hwnd) && m.insert(hwnd, regions)[hwnd] == regions,
        !m.remove(hwnd).contains_key(hwnd),
        m.insert(hwnd, regions).contains_key(other) == m.contains_key(other),
        m.contains_key(other) ==> m.insert(hwnd, regions)[other] == m[other],
        m.remove(hwnd).contains_key(other) == m.contains_key(other),
        m.contains_key(other) ==> m.remove(hwnd)[other] == m[other],
{
}

/// The map after `changes` in turn: `(hwnd, Some(regions))` sets a window's
/// regions, `(hwnd, None)` clears them.
pub open spec fn after_changes(
    m: Map<usize, TitlebarHitRegions>,
    changes: Seq<(usize, Option<TitlebarHitRegions>)>,
) -> Map<usize, TitlebarHitRegions>
    decreases changes.len(),
{
    if changes.len() == 0 {
        m
    } else {
        let before = after_changes(m, changes.drop_last());
        let c = changes.last();
        match c.1 {
            Some(regions) => before.insert(c.0, regions),
            None => before.remove(c.0),
        }
    }
}

/// Regions set for a window are read back unchanged however many other
/// windows are set or cleared afterwards.
pub proof fn lemma_regions_survive_other_changes(
    m: Map<usize, TitlebarHitRegions>,
    hwnd: usize,
    regions: TitlebarHitRegions,
    changes: Seq<(usize, Option<TitlebarHitRegions>)>,
)
    requires
        forall|i: int| 0 <= i < changes.len() ==> (#[trigger] changes[i]).0 != hwnd,
    ensures
        after_changes(m.insert(hwnd, regions), changes).contains_key(hwnd),
        after_changes(m.insert(hwnd, regions), changes)[hwnd] == regions,
    decreases changes.len(),
{
    if changes.len() > 0 {
        let front = changes.drop_last();
        assert forall|i: int| 0 <= i < front.len() implies (#[trigger] front[i]).0 != hwnd by {
            assert(front[i] == changes[i]);
        }
        lemma_regions_survive_other_changes(m, hwnd, regions, front);
        assert(changes.last().0 != hwnd);
    }
}

} // verus!
