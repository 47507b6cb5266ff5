//! The code list: how its rows read, renaming and removing entries, and keeping the
//! write flag of each entry in step with what its instruction does.
use vstd::prelude::*;
use crate::library::MemoryCodeEntry;
use crate::panel::{AppState, CrosshairApp, MemoryPanelState};
use crate::scan::str_eq;
use crate::text::{chars_of, owned, push_str, string_of, trim, trim_bounds};

verus! {

/// The instruction column of a code-list row: a replaced entry by its name and the note
/// that it was replaced; else its name and instruction when it has a name of its own;
/// else its instruction.
pub open spec fn code_row_text(e: MemoryCodeEntry) -> Seq<char> {
    if e.replaced {
        e.name@ + " (Replaced: NOP)"@
    } else if e.name@.len() > 0 && e.name@ != e.instruction@ {
        e.name@ + ": "@ + e.instruction@
    } else {
        e.instruction@
    }
}

/// The instruction column of a code-list row.
pub fn code_row_instruction_text(e: &MemoryCodeEntry) -> (s: String)
    ensures
        s@ == code_row_text(*e),
{
    if e.replaced {
        let mut s = e.name.clone();
        push_str(&mut s, " (Replaced: NOP)");
        s
    } else if e.name.unicode_len() > 0 && !str_eq(e.name.as_str(), e.instruction.as_str()) {
        let mut s = e.name.clone();
        push_str(&mut s, ": ");
        push_str(&mut s, e.instruction.as_str());
        s
    } else {
        e.instruction.clone()
    }
}

/// The action button of a code-list row: the note that its patch is active, else what a
/// watch of its instruction finds.
pub open spec fn code_row_action(e: MemoryCodeEntry) -> Seq<char> {
    if e.replaced {
        "NOP Active"@
    } else if e.writes {
        "Find written"@
    } else {
        "Find accessed"@
    }
}

/// The action button of a code-list row.
pub fn code_row_action_label(e: &MemoryCodeEntry) -> (s: &'static str)
    ensures
        s@ == code_row_action(*e),
{
    if e.replaced {
        "NOP Active"
    } else if e.writes {
        "Find written"
    } else {
        "Find accessed"
    }
}

/// Whether the entries `after` are `before` with each write flag set to what `writes`
/// read for it, where it was read.
pub open spec fn writes_corrected(before: Seq<MemoryCodeEntry>, after: Seq<MemoryCodeEntry>, writes: Seq<Option<bool>>) -> bool {
    &&& after.len() == before.len()
    &&& forall|i: int| 0 <= i < before.len() ==> #[trigger] after[i] == match writes[i] {
        Some(w) => MemoryCodeEntry { writes: w, ..before[i] },
        None => before[i],
    }
}

/// Whether the write flag read for an entry differs from its own.
pub open spec fn flag_differs(read: Option<bool>, e: MemoryCodeEntry) -> bool {
    match read {
        Some(w) => w != e.writes,
        None => false,
    }
}

/// Whether some entry's write flag differs from what was read for it.
pub open spec fn writes_changed(before: Seq<MemoryCodeEntry>, writes: Seq<Option<bool>>) -> bool {
    exists|i: int| 0 <= i < before.len() && flag_differs(#[trigger] writes[i], before[i])
}

impl CrosshairApp {
    /// Sets the write flag of each code-list entry to what reading its instruction gave
    /// (`writes`, one per entry, `None` where it could not be read), and says whether any
    /// changed, when the list is to be written.
    pub fn correct_code_writes(&mut self, writes: &Vec<Option<bool>>) -> (changed: bool)
        requires
            writes@.len() == old(self).state.memory_code_list@.len(),
        ensures
            writes_corrected(old(self).state.memory_code_list@, final(self).state.memory_code_list@, writes@),
            changed == writes_changed(old(self).state.memory_code_list@, writes@),
            final(self).state == (AppState { memory_code_list: final(self).state.memory_code_list, ..old(self).state }),
            final(self).memory_panel == old(self).memory_panel,
            final(self).capture_hotkey_combo_keys == old(self).capture_hotkey_combo_keys,
            final(self).capture_hotkey_combo_vks == old(self).capture_hotkey_combo_vks,
    {
        let ghost before = self.state.memory_code_list@;
        let n = self.state.memory_code_list.len();
        let mut changed = false;
        let mut i: usize = 0;
        while i < n
            invariant
                i <= n,
                n == before.len(),
                writes@.len() == n,
                self.state.memory_code_list@.len() == n,
                forall|k: int| 0 <= k < i ==> #[trigger] self.state.memory_code_list@[k] == match writes@[k] {
                    Some(w) => MemoryCodeEntry { writes: w, ..before[k] },
                    None => before[k],
                },
                forall|k: int| i <= k < n ==> #[trigger] self.state.memory_code_list@[k] == before[k],
                changed == exists|k: int| 0 <= k < i && flag_differs(#[trigger] writes@[k], before[k]),
                self.state == (AppState { memory_code_list: self.state.memory_code_list, ..old(self).state }),
                self.memory_panel == old(self).memory_panel,
                self.capture_hotkey_combo_keys == old(self).capture_hotkey_combo_keys,
                self.capture_hotkey_combo_vks == old(self).capture_hotkey_combo_vks,
            decreases n - i,
        {
            if let Some(w) = writes[i] {
                if self.state.memory_code_list[i].writes != w {
                    self.state.memory_code_list[i].writes = w;
                    changed = true;
                } else {
                    assert(self.state.memory_code_list@[i as int] == MemoryCodeEntry { writes: w, ..before[i as int] });
                }
            }
            assert(changed == exists|k: int| 0 <= k < i + 1 && flag_differs(#[trigger] writes@[k], before[k])) by {
                if changed && !(exists|k: int| 0 <= k < i && flag_differs(#[trigger] writes@[k], before[k])) {
                    assert(flag_differs(writes@[i as int], before[i as int]));
                }
            }
            i = i + 1;
        }
        changed
    }

    /// Starts renaming code-list entry `index`: the name field starts from its name.
    /// Nothing changes without such an entry.
    pub fn begin_code_rename(&mut self, index: usize)
        ensures
            index >= old(self).state.memory_code_list@.len() ==> *final(self) == *old(self),
            index < old(self).state.memory_code_list@.len() ==> {
                &&& final(self).memory_panel.edit_code_name_index == Some(index)
                &&& final(self).memory_panel.edit_code_name_input@ == old(self).state.memory_code_list@[index as int].name@
                &&& *final(self) == (CrosshairApp {
                    memory_panel: MemoryPanelState {
                        edit_code_name_index: final(self).memory_panel.edit_code_name_index,
                        edit_code_name_input: final(self).memory_panel.edit_code_name_input,
                        ..old(self).memory_panel
                    },
                    ..*old(self)
                })
            },
    {
        if index < self.state.memory_code_list.len() {
            self.memory_panel.edit_code_name_index = Some(index);
            self.memory_panel.edit_code_name_input = self.state.memory_code_list[index].name.clone();
        }
    }

    /// Saves the name typed for the entry being renamed, trimmed, and ends the renaming;
    /// says whether a name was saved, when the list is to be written.
    pub fn save_code_rename(&mut self) -> (saved: bool)
        ensures
            final(self).memory_panel == (MemoryPanelState { edit_code_name_index: None, ..old(self).memory_panel }),
            final(self).capture_hotkey_combo_keys == old(self).capture_hotkey_combo_keys,
            final(self).capture_hotkey_combo_vks == old(self).capture_hotkey_combo_vks,
            saved == (old(self).memory_panel.edit_code_name_index matches Some(i) && i < old(self).state.memory_code_list@.len()),
            saved ==> {
                let i = old(self).memory_panel.edit_code_name_index.unwrap();
                &&& final(self).state.memory_code_list@.len() == old(self).state.memory_code_list@.len()
                &&& final(self).state.memory_code_list@[i as int].name@ == trim(old(self).memory_panel.edit_code_name_input@)
                &&& final(self).state.memory_code_list@[i as int] == (MemoryCodeEntry {
                    name: final(self).state.memory_code_list@[i as int].name,
                    ..old(self).state.memory_code_list@[i as int]
                })
                &&& forall|k: int| 0 <= k < old(self).state.memory_code_list@.len() && k != i
                    ==> #[trigger] final(self).state.memory_code_list@[k] == old(self).state.memory_code_list@[k]
                &&& final(self).state == (AppState { memory_code_list: final(self).state.memory_code_list, ..old(self).state })
            },
            !saved ==> final(self).state == old(self).state,
    {
        let index = self.memory_panel.edit_code_name_index;
        self.memory_panel.edit_code_name_index = None;
        match index {
            Some(i) => {
                if i < self.state.memory_code_list.len() {
                    let v = chars_of(self.memory_panel.edit_code_name_input.as_str());
                    assert(v@.subrange(0, v@.len() as int) == v@);
                    let (lo, hi) = trim_bounds(&v, 0, v.len());
                    let name = string_of(&v, lo, hi);
                    self.state.memory_code_list[i].name = name;
                    true
                } else {
                    false
                }
            },
            None => false,
        }
    }

    /// Removes code-list entry `index`, the entries after it moving up.
    pub fn remove_code_entry(&mut self, index: usize)
        requires
            index < old(self).state.memory_code_list@.len(),
        ensures
            final(self).state.memory_code_list@ == old(self).state.memory_code_list@.remove(index as int),
            final(self).state == (AppState { memory_code_list: final(self).state.memory_code_list, ..old(self).state }),
            final(self).memory_panel == old(self).memory_panel,
            final(self).capture_hotkey_combo_keys == old(self).capture_hotkey_combo_keys,
            final(self).capture_hotkey_combo_vks == old(self).capture_hotkey_combo_vks,
    {
        self.state.memory_code_list.remove(index);
    }

    /// The code-list entries not replaced yet, in order, as Replace all patches them.
    pub fn code_entries_to_replace(&self) -> (r: Vec<usize>)
        ensures
            r@ == unreplaced(self.state.memory_code_list@, self.state.memory_code_list@.len()),
    {
        let mut r: Vec<usize> = Vec::new();
        let mut i: usize = 0;
        while i < self.state.memory_code_list.len()
            invariant
                i <= self.state.memory_code_list@.len(),
                r@ == unreplaced(self.state.memory_code_list@, i as nat),
            decreases self.state.memory_code_list@.len() - i,
        {
            if !self.state.memory_code_list[i].replaced {
                r.push(i);
            }
            i = i + 1;
        }
        r
    }
}

/// The indices below `n` of the entries not replaced, in order.
pub open spec fn unreplaced(list: Seq<MemoryCodeEntry>, n: nat) -> Seq<usize>
    decreases n,
{
    if n == 0 {
        seq![]
    } else {
        let rest = unreplaced(list, (n - 1) as nat);
        if !list[n - 1].replaced {
            rest.push((n - 1) as usize)
        } else {
            rest
        }
    }
}

} // verus!
