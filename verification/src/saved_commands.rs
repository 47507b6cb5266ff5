//! Commands of the saved-address table: selecting rows from the keyboard, changing their
//! type, freezing them, saving them to the library, and what a row's dialogs open with.
use vstd::prelude::*;
use vstd::std_specs::hash::obeys_key_model;
use std::collections::HashSet;
use crate::scan::{ScanValue, ScanValueType};
use crate::saved::{freeze_synced, increasing, increasing_elements, set_elements, SavedMemoryAddress};
use crate::panel::{AppState, CrosshairApp, MemoryPanelState};
use crate::library::{entries_view, fallback_app_name, persisted, string_opt};
use crate::number::{dec_digits, hex_digits, hex_padded, push_dec_digits, push_hex_digits};
use crate::text::{owned, push_str};
use crate::address::format_prefixed_memory_address;
use crate::code_access::{value_text, value_text_spec, ValueRead};
use crate::address_dialog::AddressDialog;
use crate::pointer::{join_hex, pointer_root_text, push_join_hex};
use crate::memory_view::{MemoryViewDialog, MemoryViewKind, StructureClass};
use crate::structure::{default_elements, default_structure_elements};
use crate::view::MemoryDisplayType;

verus! {

broadcast use vstd::std_specs::hash::group_hash_axioms;

/// The rows below `n`.
pub open spec fn rows_below(n: nat) -> Set<usize> {
    Set::new(|i: usize| i < n)
}

impl CrosshairApp {
    /// Selects every saved row.
    pub fn select_all_saved(&mut self)
        ensures
            final(self).memory_panel.selected_saved@ == rows_below(old(self).memory_panel.saved@.len()),
            *final(self) == (CrosshairApp {
                memory_panel: MemoryPanelState { selected_saved: final(self).memory_panel.selected_saved, ..old(self).memory_panel },
                ..*old(self)
            }),
    {
        assert(obeys_key_model::<usize>());
        let n = self.memory_panel.saved.len();
        let mut sel: HashSet<usize> = HashSet::new();
        let mut i: usize = 0;
        while i < n
            invariant
                obeys_key_model::<usize>(),
                i <= n,
                sel@ == Set::new(|k: usize| k < i),
            decreases n - i,
        {
            sel.insert(i);
            assert(sel@ =~= Set::new(|k: usize| k < i + 1));
            i = i + 1;
        }
        assert(sel@ =~= rows_below(n as nat));
        self.memory_panel.selected_saved = sel;
    }
}

/// The largest element of a set of row indices, when it has one.
pub open spec fn is_max(s: Set<usize>, m: usize) -> bool {
    s.contains(m) && forall|x: usize| #[trigger] s.contains(x) ==> x <= m
}

/// The smallest element of a set of row indices, when it has one.
pub open spec fn is_min(s: Set<usize>, m: usize) -> bool {
    s.contains(m) && forall|x: usize| #[trigger] s.contains(x) ==> m <= x
}

/// The largest and smallest of a nonempty set of indices.
fn extremes(set: &HashSet<usize>) -> (r: Option<(usize, usize)>)
    ensures
        match r {
            Some((lo, hi)) => is_min(set@, lo) && is_max(set@, hi),
            None => set@ == Set::<usize>::empty(),
        },
{
    let v = set_elements(set);
    if v.len() == 0 {
        assert(set@ =~= Set::<usize>::empty()) by {
            assert forall|x: usize| !set@.contains(x) by {
                if set@.contains(x) {
                    assert(v@.to_set().contains(x));
                }
            }
        }
        return None;
    }
    let mut lo = v[0];
    let mut hi = v[0];
    let mut i: usize = 1;
    while i < v.len()
        invariant
            1 <= i <= v@.len(),
            v@.to_set() == set@,
            v@.contains(lo) && v@.contains(hi),
            forall|k: int| 0 <= k < i ==> lo <= #[trigger] v@[k] && v@[k] <= hi,
        decreases v@.len() - i,
    {
        if v[i] < lo {
            lo = v[i];
        }
        if v[i] > hi {
            hi = v[i];
        }
        i = i + 1;
    }
    assert forall|x: usize| #[trigger] set@.contains(x) implies lo <= x && x <= hi by {
        assert(v@.to_set().contains(x));
        let k = choose|k: int| 0 <= k < v@.len() && v@[k] == x;
    }
    assert(v@.to_set().contains(lo));
    assert(v@.to_set().contains(hi));
    Some((lo, hi))
}

impl CrosshairApp {
    /// Extends the saved-row selection to the top of the list: every row up to the last
    /// selected one is selected, and the first row becomes the anchor. Nothing changes
    /// without a selection.
    pub fn extend_saved_selection_up(&mut self)
        ensures
            old(self).memory_panel.selected_saved@ == Set::<usize>::empty() ==> *final(self) == *old(self),
            old(self).memory_panel.selected_saved@ != Set::<usize>::empty() ==> {
                &&& exists|m: usize| is_max(old(self).memory_panel.selected_saved@, m)
                    && final(self).memory_panel.selected_saved@ == old(self).memory_panel.selected_saved@.union(
                    Set::new(|i: usize| i <= m),
                )
                &&& *final(self) == (CrosshairApp {
                    memory_panel: MemoryPanelState {
                        selected_saved: final(self).memory_panel.selected_saved,
                        saved_selection_anchor: Some(0),
                        ..old(self).memory_panel
                    },
                    ..*old(self)
                })
            },
    {
        assert(obeys_key_model::<usize>());
        let (_, hi) = match extremes(&self.memory_panel.selected_saved) {
            Some(e) => e,
            None => return,
        };
        let ghost before = self.memory_panel.selected_saved@;
        let mut i: usize = 0;
        while i < hi
            invariant
                obeys_key_model::<usize>(),
                i <= hi,
                self.memory_panel.selected_saved@ == before.union(Set::new(|k: usize| k < i)),
                *self == (CrosshairApp {
                    memory_panel: MemoryPanelState { selected_saved: self.memory_panel.selected_saved, ..old(self).memory_panel },
                    ..*old(self)
                }),
            decreases hi - i,
        {
            self.memory_panel.selected_saved.insert(i);
            assert(self.memory_panel.selected_saved@ =~= before.union(Set::new(|k: usize| k < i + 1)));
            i = i + 1;
        }
        self.memory_panel.selected_saved.insert(hi);
        assert(self.memory_panel.selected_saved@ =~= before.union(Set::new(|k: usize| k <= hi)));
        self.memory_panel.saved_selection_anchor = Some(0);
    }

    /// Extends the saved-row selection to the end of the list: every row from the first
    /// selected one to the last row is selected, and the last row becomes the anchor.
    /// Nothing changes without a selection.
    pub fn extend_saved_selection_down(&mut self)
        ensures
            old(self).memory_panel.selected_saved@ == Set::<usize>::empty() ==> *final(self) == *old(self),
            old(self).memory_panel.selected_saved@ != Set::<usize>::empty() ==> {
                let n = old(self).memory_panel.saved@.len();
                &&& exists|m: usize| is_min(old(self).memory_panel.selected_saved@, m)
                    && final(self).memory_panel.selected_saved@ == old(self).memory_panel.selected_saved@.union(
                    Set::new(|i: usize| m <= i < n),
                )
                &&& *final(self) == (CrosshairApp {
                    memory_panel: MemoryPanelState {
                        selected_saved: final(self).memory_panel.selected_saved,
                        saved_selection_anchor: if n > 0 { Some((n - 1) as usize) } else { None },
                        ..old(self).memory_panel
                    },
                    ..*old(self)
                })
            },
    {
        assert(obeys_key_model::<usize>());
        let (lo, _) = match extremes(&self.memory_panel.selected_saved) {
            Some(e) => e,
            None => return,
        };
        let n = self.memory_panel.saved.len();
        let ghost before = self.memory_panel.selected_saved@;
        let mut i: usize = lo;
        while i < n
            invariant
                obeys_key_model::<usize>(),
                n == self.memory_panel.saved@.len(),
                lo <= i || i >= n,
                self.memory_panel.selected_saved@ == before.union(Set::new(|k: usize| lo <= k < i && k < n)),
                *self == (CrosshairApp {
                    memory_panel: MemoryPanelState { selected_saved: self.memory_panel.selected_saved, ..old(self).memory_panel },
                    ..*old(self)
                }),
            decreases n - i,
        {
            self.memory_panel.selected_saved.insert(i);
            assert(self.memory_panel.selected_saved@ =~= before.union(Set::new(|k: usize| lo <= k < i + 1 && k < n)));
            i = i + 1;
        }
        assert(self.memory_panel.selected_saved@ =~= before.union(Set::new(|k: usize| lo <= k < n)));
        self.memory_panel.saved_selection_anchor = if n > 0 { Some(n - 1) } else { None };
    }
}

/// Whether row `i` of `rows` is selected in `sel` and exists.
pub open spec fn picked(sel: Set<usize>, rows: Seq<SavedMemoryAddress>, i: int) -> bool {
    0 <= i < rows.len() && sel.contains(i as usize)
}

/// Whether `after` holds `before` with each picked row changed by `f` and the others kept.
pub open spec fn rows_changed(
    before: Seq<SavedMemoryAddress>,
    after: Seq<SavedMemoryAddress>,
    sel: Set<usize>,
    f: spec_fn(SavedMemoryAddress) -> SavedMemoryAddress,
) -> bool {
    &&& after.len() == before.len()
    &&& forall|i: int| 0 <= i < before.len() ==> #[trigger] after[i] == if sel.contains(i as usize) {
        f(before[i])
    } else {
        before[i]
    }
}

/// A row given the type `value_type`: numeric, no longer a text row.
pub open spec fn retyped(r: SavedMemoryAddress, value_type: ScanValueType) -> SavedMemoryAddress {
    SavedMemoryAddress { value_type, text_encoding: None, ..r }
}

/// A row frozen at its current value (`freeze`) or thawed; text rows are not frozen.
pub open spec fn frozen_as(r: SavedMemoryAddress, freeze: bool) -> SavedMemoryAddress {
    if r.text_encoding is Some {
        r
    } else {
        SavedMemoryAddress { frozen: if freeze { r.current } else { None }, ..r }
    }
}

/// Applies one change to each selected row.
fn change_selected_rows(
    rows: &mut Vec<SavedMemoryAddress>,
    sel: &HashSet<usize>,
    value_type: Option<ScanValueType>,
    freeze: bool,
)
    ensures
        rows_changed(old(rows)@, final(rows)@, sel@, |r: SavedMemoryAddress| match value_type {
            Some(t) => retyped(r, t),
            None => frozen_as(r, freeze),
        }),
{
    assert(obeys_key_model::<usize>());
    let n = rows.len();
    let mut i: usize = 0;
    while i < n
        invariant
            obeys_key_model::<usize>(),
            i <= n,
            n == rows@.len(),
            rows@.len() == old(rows)@.len(),
            forall|k: int| 0 <= k < i ==> #[trigger] rows@[k] == if sel@.contains(k as usize) {
                match value_type {
                    Some(t) => retyped(old(rows)@[k], t),
                    None => frozen_as(old(rows)@[k], freeze),
                }
            } else {
                old(rows)@[k]
            },
            forall|k: int| i <= k < n ==> #[trigger] rows@[k] == old(rows)@[k],
        decreases n - i,
    {
        if sel.contains(&i) {
            match value_type {
                Some(t) => {
                    rows[i].value_type = t;
                    rows[i].text_encoding = None;
                },
                None => {
                    if rows[i].text_encoding.is_none() {
                        rows[i].frozen = if freeze { rows[i].current } else { None };
                    }
                },
            }
        }
        i = i + 1;
    }
}

impl CrosshairApp {
    /// Gives every selected saved row the type `value_type`, as a numeric row, and writes
    /// the library. `first_module` is the first module of the process.
    pub fn set_selected_saved_type(&mut self, value_type: ScanValueType, first_module: Option<String>)
        ensures
            rows_changed(old(self).memory_panel.saved@, final(self).memory_panel.saved@, old(self).memory_panel.selected_saved@,
                |r: SavedMemoryAddress| retyped(r, value_type)),
            final(self).memory_panel == (MemoryPanelState { saved: final(self).memory_panel.saved, ..old(self).memory_panel }),
            entries_view(final(self).state.memory_pointer_list@) == persisted(
                entries_view(old(self).state.memory_pointer_list@),
                final(self).memory_panel.saved@,
                fallback_app_name(old(self).memory_panel.process_pid, string_opt(first_module)),
            ),
            final(self).state == (AppState { memory_pointer_list: final(self).state.memory_pointer_list, ..old(self).state }),
            final(self).capture_hotkey_combo_keys == old(self).capture_hotkey_combo_keys,
            final(self).capture_hotkey_combo_vks == old(self).capture_hotkey_combo_vks,
    {
        change_selected_rows(&mut self.memory_panel.saved, &self.memory_panel.selected_saved, Some(value_type), false);
        self.persist_memory_pointers(first_module);
    }

    /// Whether every selected row exists and is frozen.
    pub fn selected_all_frozen(&self) -> (b: bool)
        ensures
            b == forall|i: usize| #[trigger] self.memory_panel.selected_saved@.contains(i) ==> i < self.memory_panel.saved@.len()
                && self.memory_panel.saved@[i as int].frozen is Some,
    {
        let v = set_elements(&self.memory_panel.selected_saved);
        let mut i: usize = 0;
        while i < v.len()
            invariant
                i <= v@.len(),
                v@.to_set() == self.memory_panel.selected_saved@,
                forall|k: int| 0 <= k < i ==> (#[trigger] v@[k]) < self.memory_panel.saved@.len()
                    && self.memory_panel.saved@[v@[k] as int].frozen is Some,
            decreases v@.len() - i,
        {
            let k = v[i];
            if k >= self.memory_panel.saved.len() || self.memory_panel.saved[k].frozen.is_none() {
                assert(self.memory_panel.selected_saved@.contains(k)) by {
                    assert(v@.to_set().contains(k));
                }
                return false;
            }
            i = i + 1;
        }
        assert forall|x: usize| #[trigger] self.memory_panel.selected_saved@.contains(x) implies x < self.memory_panel.saved@.len()
            && self.memory_panel.saved@[x as int].frozen is Some by {
            assert(v@.to_set().contains(x));
            let k = choose|k: int| 0 <= k < v@.len() && v@[k] == x;
        }
        true
    }

    /// Freezes every selected numeric row at its current value (`freeze`), or thaws it, and
    /// hands the frozen rows to the freeze worker.
    pub fn freeze_selected_saved(&mut self, freeze: bool)
        ensures
            rows_changed(old(self).memory_panel.saved@, final(self).memory_panel.saved@, old(self).memory_panel.selected_saved@,
                |r: SavedMemoryAddress| frozen_as(r, freeze)),
            freeze_synced(final(self).memory_panel, old(self).memory_panel.freeze_worker_started),
            final(self).memory_panel == (MemoryPanelState {
                saved: final(self).memory_panel.saved,
                freeze_pid: final(self).memory_panel.freeze_pid,
                freeze_targets: final(self).memory_panel.freeze_targets,
                freeze_worker_started: final(self).memory_panel.freeze_worker_started,
                ..old(self).memory_panel
            }),
            final(self).state == old(self).state,
            final(self).capture_hotkey_combo_keys == old(self).capture_hotkey_combo_keys,
            final(self).capture_hotkey_combo_vks == old(self).capture_hotkey_combo_vks,
    {
        change_selected_rows(&mut self.memory_panel.saved, &self.memory_panel.selected_saved, None, freeze);
        self.sync_memory_freeze_targets();
    }
}

/// Whether row `s` is row `r` after it was marked for the library: a numeric row is marked
/// and, without a description, described by its address; a text row is left as it is.
pub open spec fn library_marked(r: SavedMemoryAddress, s: SavedMemoryAddress) -> bool {
    if r.text_encoding is Some {
        s == r
    } else {
        &&& s == (SavedMemoryAddress { saved_to_library: true, description: s.description, ..r })
        &&& s.description@ == if r.description@.len() == 0 {
            seq!['0', 'x'] + hex_padded(r.address as nat, 8)
        } else {
            r.description@
        }
    }
}

/// The selected numeric rows.
pub open spec fn selected_numeric(sel: Set<usize>, rows: Seq<SavedMemoryAddress>) -> Set<usize> {
    Set::new(|i: usize| sel.contains(i) && i < rows.len() && rows[i as int].text_encoding is None)
}

/// The rows with the indices in `done` marked for the library.
pub open spec fn marked_rows(before: Seq<SavedMemoryAddress>, after: Seq<SavedMemoryAddress>, done: Set<usize>) -> bool {
    &&& after.len() == before.len()
    &&& forall|i: int| 0 <= i < before.len() ==> if done.contains(i as usize) {
        library_marked(before[i], #[trigger] after[i])
    } else {
        after[i] == before[i]
    }
}

impl CrosshairApp {
    /// Saves the selected numeric rows to the library: each is marked for it and, without a
    /// description, described by its address. The library is written and the status says
    /// how many rows were saved. `first_module` is the first module of the process.
    pub fn save_selected_to_library(&mut self, first_module: Option<String>)
        ensures
            marked_rows(old(self).memory_panel.saved@, final(self).memory_panel.saved@,
                selected_numeric(old(self).memory_panel.selected_saved@, old(self).memory_panel.saved@)),
            final(self).memory_panel.status@ == dec_digits(
                selected_numeric(old(self).memory_panel.selected_saved@, old(self).memory_panel.saved@).len(),
            ) + " address(es) saved to library"@,
            final(self).memory_panel == (MemoryPanelState {
                saved: final(self).memory_panel.saved,
                status: final(self).memory_panel.status,
                ..old(self).memory_panel
            }),
            entries_view(final(self).state.memory_pointer_list@) == persisted(
                entries_view(old(self).state.memory_pointer_list@),
                final(self).memory_panel.saved@,
                fallback_app_name(old(self).memory_panel.process_pid, string_opt(first_module)),
            ),
            final(self).state == (AppState { memory_pointer_list: final(self).state.memory_pointer_list, ..old(self).state }),
            final(self).capture_hotkey_combo_keys == old(self).capture_hotkey_combo_keys,
            final(self).capture_hotkey_combo_vks == old(self).capture_hotkey_combo_vks,
    {
        let order = set_elements(&self.memory_panel.selected_saved);
        let ghost before = self.memory_panel.saved@;
        let ghost sel = self.memory_panel.selected_saved@;
        let n = self.memory_panel.saved.len();
        let mut marked: Vec<usize> = Vec::new();
        let mut j: usize = 0;
        while j < order.len()
            invariant
                j <= order@.len(),
                order@.to_set() == sel,
                order@.no_duplicates(),
                n == before.len(),
                sel == self.memory_panel.selected_saved@,
                marked@.no_duplicates(),
                marked@.to_set() == Set::new(|x: usize| order@.subrange(0, j as int).contains(x) && x < n
                    && before[x as int].text_encoding is None),
                marked_rows(before, self.memory_panel.saved@, marked@.to_set()),
                *self == (CrosshairApp {
                    memory_panel: MemoryPanelState { saved: self.memory_panel.saved, ..old(self).memory_panel },
                    ..*old(self)
                }),
            decreases order@.len() - j,
        {
            let k = order[j];
            let ghost prev = marked@.to_set();
            let ghost px = order@.subrange(0, j as int);
            let ghost nx = order@.subrange(0, j + 1);
            proof {
                assert(nx == px.push(k));
                px.lemma_push_to_set_commute(k);
                assert forall|x: usize| nx.contains(x) <==> px.contains(x) || x == k by {
                    assert(nx.to_set().contains(x) <==> nx.contains(x));
                    assert(px.to_set().contains(x) <==> px.contains(x));
                }
                assert(!order@.subrange(0, j as int).contains(k)) by {
                    if order@.subrange(0, j as int).contains(k) {
                        let a = choose|a: int| 0 <= a < j && order@.subrange(0, j as int)[a] == k;
                        assert(order@[a] == order@[j as int]);
                    }
                }
            }
            if k < n && self.memory_panel.saved[k].text_encoding.is_none() {
                assert(!marked@.contains(k)) by {
                    if marked@.contains(k) {
                        assert(marked@.to_set().contains(k));
                    }
                }
                assert(self.memory_panel.saved@[k as int] == before[k as int]) by {
                    assert(!prev.contains(k)) by {
                        if prev.contains(k) {
                            assert(marked@.contains(k));
                        }
                    }
                }
                self.memory_panel.saved[k].saved_to_library = true;
                if crate::text::chars_of(self.memory_panel.saved[k].description.as_str()).len() == 0 {
                    self.memory_panel.saved[k].description = format_prefixed_memory_address(self.memory_panel.saved[k].address);
                }
                let ghost pm = marked@;
                marked.push(k);
                assert(marked@.to_set() =~= prev.insert(k)) by {
                    assert(marked@ == pm.push(k));
                    pm.lemma_push_to_set_commute(k);
                }
                assert forall|a: int, b: int| 0 <= a < b < marked@.len() implies marked@[a] != marked@[b] by {
                    if b == marked@.len() - 1 {
                        assert(marked@[a] == pm[a]);
                        assert(pm.contains(pm[a]));
                    }
                }
            }
            assert(marked@.to_set() =~= Set::new(|x: usize| nx.contains(x) && x < n && before[x as int].text_encoding is None));
            j = j + 1;
        }
        assert(order@.subrange(0, order@.len() as int) == order@);
        let ghost chosen = selected_numeric(sel, before);
        assert(marked@.to_set() =~= chosen) by {
            assert forall|x: usize| order@.contains(x) <==> sel.contains(x) by {
                if order@.contains(x) {
                    assert(order@.to_set().contains(x));
                }
                if sel.contains(x) {
                    assert(order@.to_set().contains(x));
                }
            }
        }
        proof {
            marked@.unique_seq_to_set();
        }
        let count = marked.len();
        self.persist_memory_pointers(first_module);
        let mut status = String::new();
        push_dec_digits(&mut status, count as u64);
        push_str(&mut status, " address(es) saved to library");
        self.memory_panel.status = status;
    }
}

/// What a saved row's value column shows: its text, else its value as the panel writes it
/// (a float by its given decimal text), else `?`.
pub open spec fn row_value_text(r: SavedMemoryAddress, float_text: Option<Seq<char>>) -> Seq<char> {
    match r.current_text {
        Some(t) => t@,
        None => match r.current {
            Some(v) => value_text_spec(v, r.hexadecimal, float_text),
            None => "?"@,
        },
    }
}

/// The text of a saved row's value column; `float_text` is its value in decimal when it is a float.
pub fn saved_row_value_text(row: &SavedMemoryAddress, float_text: Option<String>) -> (s: String)
    ensures
        s@ == row_value_text(*row, string_opt(float_text)),
{
    match &row.current_text {
        Some(t) => t.clone(),
        None => match row.current {
            Some(v) => value_text(&ValueRead { value: v, float_text }, row.hexadecimal),
            None => owned("?"),
        },
    }
}

/// What the address dialog of a saved row opens with: a plain row by its address; a
/// pointer row by its root (`module+OFFSET`, or its base) and its offsets.
pub open spec fn row_dialog(r: SavedMemoryAddress, index: usize, d: AddressDialog) -> bool {
    &&& d.index == index
    &&& match r.pointer {
        None => d.address@ == seq!['0', 'x'] + hex_padded(r.address as nat, 8) && d.offsets@ == Seq::<char>::empty() && !d.pointer,
        Some(p) => d.address@ == pointer_root_text(p) && d.offsets@ == join_hex(p.offsets@) && d.pointer,
    }
    &&& d.description@ == r.description@
    &&& d.value_type == r.value_type
    &&& d.hexadecimal == r.hexadecimal
}

impl CrosshairApp {
    /// The address dialog of saved row `index`.
    pub fn address_dialog_for_row(&self, index: usize) -> (d: AddressDialog)
        requires
            index < self.memory_panel.saved@.len(),
        ensures
            row_dialog(self.memory_panel.saved@[index as int], index, d),
    {
        let r = &self.memory_panel.saved[index];
        let (address, offsets, pointer) = match &r.pointer {
            None => (format_prefixed_memory_address(r.address), String::new(), false),
            Some(p) => {
                let root = match &p.module {
                    Some((module, offset)) => {
                        let mut s = module.clone();
                        crate::text::push_char(&mut s, '+');
                        push_hex_digits(&mut s, *offset as u64);
                        assert(s@ =~= module@ + seq!['+'] + hex_digits(*offset as nat));
                        s
                    },
                    None => format_prefixed_memory_address(p.base),
                };
                let mut list = String::new();
                push_join_hex(&mut list, &p.offsets);
                assert(list@ =~= join_hex(p.offsets@));
                (root, list, true)
            },
        };
        AddressDialog {
            index,
            address,
            offsets,
            pointer,
            description: r.description.clone(),
            value_type: r.value_type,
            hexadecimal: r.hexadecimal,
        }
    }
}

/// Whether `d` is the memory view a saved row opens at `address`: its bytes, or its fields
/// as a structure, with absolute addresses.
pub open spec fn row_view(d: MemoryViewDialog, address: usize, pointer_width: usize, structure: bool) -> bool {
    &&& d.address == address
    &&& d.tracked_base is None
    &&& d.kind == (if structure { MemoryViewKind::Structure } else { MemoryViewKind::Bytes })
    &&& d.display_type == MemoryDisplayType::ByteHex
    &&& !d.relative_addresses
    &&& d.pinned
    &&& default_elements(d.elements@)
    &&& d.pointer_width == pointer_width
    &&& d.classes@.len() == 1
    &&& d.classes@[0].name@ == "Class_0"@
    &&& d.classes@[0].address == address
    &&& default_elements(d.classes@[0].elements@)
    &&& d.selected_class == 0
    &&& d.class_detection_status@ == Seq::<char>::empty()
    &&& !d.class_detection_attempted
    &&& !d.auto_dissected
    &&& d.history@.len() == 0
    &&& d.structure_back_step@ == "10"@
    &&& d.structure_forward_step@ == (if structure { "10"@ } else { "C"@ })
    &&& d.selected_structure_address is None
}

/// The memory view a saved row at `address` opens: its bytes (`structure` unset) or its
/// fields; `pointer_width` is the pointer width of the process when known, else 8 bytes.
pub fn saved_memory_view(address: usize, pointer_width: Option<usize>, structure: bool) -> (d: MemoryViewDialog)
    ensures
        row_view(d, address, match pointer_width {
            Some(w) => w,
            None => 8,
        }, structure),
{
    let width = match pointer_width {
        Some(w) => w,
        None => 8,
    };
    let mut classes: Vec<StructureClass> = Vec::new();
    classes.push(StructureClass { name: owned("Class_0"), address, elements: default_structure_elements() });
    MemoryViewDialog {
        address,
        tracked_base: None,
        kind: if structure { MemoryViewKind::Structure } else { MemoryViewKind::Bytes },
        display_type: MemoryDisplayType::ByteHex,
        relative_addresses: false,
        pinned: true,
        elements: default_structure_elements(),
        pointer_width: width,
        classes,
        selected_class: 0,
        class_detection_status: String::new(),
        class_detection_attempted: false,
        auto_dissected: false,
        history: Vec::new(),
        structure_back_step: owned("10"),
        structure_forward_step: if structure { owned("10") } else { owned("C") },
        selected_structure_address: None,
    }
}

impl CrosshairApp {
    /// The selected saved rows in increasing order, as a new group is made of them.
    pub fn group_dialog_indices(&self) -> (r: Vec<usize>)
        ensures
            increasing(r@),
            r@.to_set() == self.memory_panel.selected_saved@,
    {
        increasing_elements(&self.memory_panel.selected_saved)
    }
}

} // verus!
