//! Clicking rows of the result list and of the saved list: plain, Ctrl (adding to the
//! selection) and Shift (a range from the anchor) clicks.
use vstd::prelude::*;
use vstd::std_specs::hash::obeys_key_model;
use std::collections::HashSet;
use crate::panel::{CrosshairApp, MemoryPanelState};

verus! {

broadcast use vstd::std_specs::hash::group_hash_axioms;

/// The number of result rows the result list shows.
pub const MAX_VISIBLE_RESULTS: usize = 1000;

/// The rows `lo..=hi`.
pub open spec fn rows_between(lo: int, hi: int) -> Set<usize> {
    Set::new(|r: usize| lo <= r <= hi)
}

/// The result selection after a click on row `index`: Shift with an anchor selects (or
/// clears) the shown rows from the anchor to `index`, anything else that row alone;
/// without Ctrl the earlier selection is dropped first.
pub open spec fn result_click(sel: Set<usize>, anchor: Option<usize>, index: usize, selected: bool, shift: bool, additive: bool) -> Set<usize> {
    let base = if additive {
        sel
    } else {
        Set::empty()
    };
    match anchor {
        Some(a) if shift => {
            let lo = if a <= index { a } else { index };
            let hi = if a <= index { index } else { a };
            let top = if hi < MAX_VISIBLE_RESULTS - 1 { hi as int } else { MAX_VISIBLE_RESULTS - 1 };
            if selected {
                base.union(rows_between(lo as int, top))
            } else {
                base.difference(rows_between(lo as int, top))
            }
        },
        _ => if selected {
            base.insert(index)
        } else {
            base.remove(index)
        },
    }
}

/// The saved-row selection after a click on row `index`: Shift with an anchor adds the
/// rows from the anchor to `index`; Ctrl toggles the row; a plain click selects it alone.
pub open spec fn saved_click(sel: Set<usize>, anchor: Option<usize>, index: usize, selected: bool, shift: bool, additive: bool) -> Set<usize> {
    let base = if additive {
        sel
    } else {
        Set::empty()
    };
    match anchor {
        Some(a) if shift => {
            let lo = if a <= index { a } else { index };
            let hi = if a <= index { index } else { a };
            base.union(rows_between(lo as int, hi as int))
        },
        _ => if additive && selected {
            base.remove(index)
        } else {
            base.insert(index)
        },
    }
}

/// Adds (or removes) the rows `lo..=hi` to `sel`.
pub fn mark_rows(sel: &mut HashSet<usize>, lo: usize, hi: usize, add: bool)
    ensures
        final(sel)@ == if add {
            old(sel)@.union(rows_between(lo as int, hi as int))
        } else {
            old(sel)@.difference(rows_between(lo as int, hi as int))
        },
{
    assert(obeys_key_model::<usize>());
    if lo > hi {
        assert(rows_between(lo as int, hi as int) =~= Set::empty());
        assert(old(sel)@.union(Set::empty()) =~= old(sel)@);
        assert(old(sel)@.difference(Set::empty()) =~= old(sel)@);
        return;
    }
    let mut r = lo;
    loop
        invariant
            obeys_key_model::<usize>(),
            lo <= r <= hi,
            sel@ == if add {
                old(sel)@.union(rows_between(lo as int, r as int - 1))
            } else {
                old(sel)@.difference(rows_between(lo as int, r as int - 1))
            },
        decreases hi - r,
    {
        if add {
            sel.insert(r);
            assert(sel@ =~= old(sel)@.union(rows_between(lo as int, r as int)));
        } else {
            sel.remove(&r);
            assert(sel@ =~= old(sel)@.difference(rows_between(lo as int, r as int)));
        }
        if r == hi {
            return;
        }
        r = r + 1;
    }
}

impl CrosshairApp {
    /// A click on result row `index`, which becomes `selected`; `shift` and `additive`
    /// (Ctrl or Command) are the modifiers held. A click without Shift moves the anchor.
    pub fn select_memory_result(&mut self, index: usize, selected: bool, shift: bool, additive: bool)
        ensures
            final(self).memory_panel.selected_results@ == result_click(
                old(self).memory_panel.selected_results@,
                old(self).memory_panel.selection_anchor,
                index,
                selected,
                shift,
                additive,
            ),
            final(self).memory_panel.selection_anchor == (if shift {
                old(self).memory_panel.selection_anchor
            } else {
                Some(index)
            }),
            final(self).memory_panel == (MemoryPanelState {
                saved_list_active: false,
                selected_results: final(self).memory_panel.selected_results,
                selection_anchor: final(self).memory_panel.selection_anchor,
                ..old(self).memory_panel
            }),
            final(self).state == old(self).state,
            final(self).capture_hotkey_combo_keys == old(self).capture_hotkey_combo_keys,
            final(self).capture_hotkey_combo_vks == old(self).capture_hotkey_combo_vks,
    {
        assert(obeys_key_model::<usize>());
        self.memory_panel.saved_list_active = false;
        match self.memory_panel.selection_anchor {
            Some(anchor) if shift => {
                if !additive {
                    self.memory_panel.selected_results.clear();
                }
                let (start, end) = if anchor <= index {
                    (anchor, index)
                } else {
                    (index, anchor)
                };
                let top = if end < MAX_VISIBLE_RESULTS - 1 {
                    end
                } else {
                    MAX_VISIBLE_RESULTS - 1
                };
                mark_rows(&mut self.memory_panel.selected_results, start, top, selected);
            },
            _ => {
                if !additive {
                    self.memory_panel.selected_results.clear();
                }
                if selected {
                    self.memory_panel.selected_results.insert(index);
                } else {
                    self.memory_panel.selected_results.remove(&index);
                }
            },
        }
        if !shift {
            self.memory_panel.selection_anchor = Some(index);
        }
    }

    /// A click on saved row `index`, which was `selected`; `shift` and `additive` (Ctrl or
    /// Command) are the modifiers held. A click without Shift moves the anchor.
    pub fn select_saved_memory_row(&mut self, index: usize, selected: bool, shift: bool, additive: bool)
        ensures
            final(self).memory_panel.selected_saved@ == saved_click(
                old(self).memory_panel.selected_saved@,
                old(self).memory_panel.saved_selection_anchor,
                index,
                selected,
                shift,
                additive,
            ),
            final(self).memory_panel.saved_selection_anchor == (if shift {
                old(self).memory_panel.saved_selection_anchor
            } else {
                Some(index)
            }),
            final(self).memory_panel == (MemoryPanelState {
                saved_list_active: true,
                selected_saved: final(self).memory_panel.selected_saved,
                saved_selection_anchor: final(self).memory_panel.saved_selection_anchor,
                ..old(self).memory_panel
            }),
            final(self).state == old(self).state,
            final(self).capture_hotkey_combo_keys == old(self).capture_hotkey_combo_keys,
            final(self).capture_hotkey_combo_vks == old(self).capture_hotkey_combo_vks,
    {
        assert(obeys_key_model::<usize>());
        self.memory_panel.saved_list_active = true;
        match self.memory_panel.saved_selection_anchor {
            Some(anchor) if shift => {
                if !additive {
                    self.memory_panel.selected_saved.clear();
                }
                let (start, end) = if anchor <= index {
                    (anchor, index)
                } else {
                    (index, anchor)
                };
                mark_rows(&mut self.memory_panel.selected_saved, start, end, true);
            },
            _ => {
                if !additive {
                    self.memory_panel.selected_saved.clear();
                }
                if additive && selected {
                    self.memory_panel.selected_saved.remove(&index);
                } else {
                    self.memory_panel.selected_saved.insert(index);
                }
            },
        }
        if !shift {
            self.memory_panel.saved_selection_anchor = Some(index);
        }
    }
}

} // verus!
