//! The panel's saved-address list and the state around it: which rows are selected,
//! grouping, sorting and deleting rows, and what the freeze worker is given.
use vstd::prelude::*;
use vstd::std_specs::hash::obeys_key_model;
use std::collections::{HashMap, HashSet};
use crate::scan::{MemoryScanAction, ScanValue, ScanValueType};
use crate::pointer::{PointerModel, PointerSpec};
use crate::panel::{AppState, CrosshairApp, MemoryPanelState};
use crate::library::{entries_view, fallback_app_name, persisted, string_opt};

verus! {

broadcast use vstd::std_specs::hash::group_hash_axioms;

/// How the text of a text-scan result is encoded.
#[derive(Clone, Copy, Debug, PartialEq, Eq, Structural)]
pub enum TextEncoding {
    Utf8,
    Utf16,
}

/// A result of a numeric scan: where it was found and the value read there.
#[derive(Clone, Copy, Debug, PartialEq, Eq, Structural)]
pub struct ScanCandidate {
    pub address: usize,
    pub value: ScanValue,
}

/// A result of a text scan: where it was found and the text read there.
pub struct TextScanCandidate {
    pub address: usize,
    pub current: String,
}

/// A row of the saved-address list.
pub struct SavedMemoryAddress {
    pub address: usize,
    pub value_type: ScanValueType,
    pub current: Option<ScanValue>,
    pub text_encoding: Option<TextEncoding>,
    pub text_byte_len: usize,
    pub current_text: Option<String>,
    pub description: String,
    pub group: String,
    pub hexadecimal: bool,
    pub pointer: Option<PointerSpec>,
    pub frozen: Option<ScanValue>,
    pub saved_to_library: bool,
}

/// A value that the freeze worker keeps writing, with the pointer it re-resolves.
pub struct FreezeTarget {
    pub address: usize,
    pub value: ScanValue,
    pub pointer: Option<PointerSpec>,
}

/// A key combination bound to a scan action, carried by its label such as `Ctrl+F5`.
pub struct HotkeyBinding {
    pub label: String,
}

/// A value-write that is read back shortly after to see whether the game overwrote it.
pub struct PendingWriteCheck {
    pub address: usize,
    pub value_type: ScanValueType,
    pub expected: ScanValue,
}

/// The rows of `s` whose index is (`keep_selected`) or is not (`!keep_selected`) in `sel`,
/// in order.
pub open spec fn keep_rows<T>(s: Seq<T>, sel: Set<usize>, keep_selected: bool) -> Seq<T>
    decreases s.len(),
{
    if s.len() == 0 {
        Seq::empty()
    } else {
        let rest = keep_rows(s.drop_last(), sel, keep_selected);
        if sel.contains((s.len() - 1) as usize) == keep_selected {
            rest.push(s.last())
        } else {
            rest
        }
    }
}

/// The index of a selected row once row `deleted` is gone.
pub open spec fn reindex_one(i: usize, deleted: usize) -> usize {
    if i > deleted {
        (i - 1) as usize
    } else {
        i
    }
}

/// The selection once row `deleted` is gone: `deleted` leaves, later rows move up one.
pub open spec fn reindexed(sel: Set<usize>, deleted: usize) -> Set<usize> {
    Set::new(|j: usize| exists|i: usize| #[trigger] sel.contains(i) && i != deleted && reindex_one(i, deleted) == j)
}

/// The indices `lo..hi`.
pub open spec fn index_range(lo: int, hi: int) -> Set<usize> {
    Set::new(|j: usize| lo <= j < hi)
}

/// Keeps the rows of `saved` whose index is or is not in `sel`.
fn filter_saved(saved: Vec<SavedMemoryAddress>, sel: &HashSet<usize>, keep_selected: bool) -> (r: Vec<SavedMemoryAddress>)
    ensures
        r@ == keep_rows(saved@, sel@, keep_selected),
{
    assert(obeys_key_model::<usize>());
    let ghost all = saved@;
    let n = saved.len();
    let mut out: Vec<SavedMemoryAddress> = Vec::new();
    let mut index: usize = 0;
    for entry in it: saved.into_iter()
        invariant
            obeys_key_model::<usize>(),
            it.seq() == all,
            index == it.index(),
            all.len() == n,
            out@ == keep_rows(all.subrange(0, index as int), sel@, keep_selected),
    {
        assert(index < all.len());
        proof {
            let pre = all.subrange(0, index + 1);
            assert(pre.drop_last() == all.subrange(0, index as int));
            assert(pre.last() == entry);
        }
        if sel.contains(&index) == keep_selected {
            out.push(entry);
        }
        index = index + 1;
    }
    assert(all.subrange(0, all.len() as int) == all);
    out
}

/// The selection `sel` with each index moved as `reindex_one` says.
fn reindex_selection(sel: &HashSet<usize>, deleted: usize) -> (r: HashSet<usize>)
    ensures
        r@ == reindexed(sel@, deleted),
{
    assert(obeys_key_model::<usize>());
    let mut out: HashSet<usize> = HashSet::new();
    let ghost mut done: Set<usize> = Set::empty();
    for x in it: sel.iter()
        invariant
            obeys_key_model::<usize>(),
            it.seq().unref().to_set() == sel@,
            done == it.seq().unref().take(it.index() as int).to_set(),
            out@ == reindexed(done, deleted),
            it.index() == it.seq().len() ==> done == sel@,
    {
        let i = *x;
        let ghost old_done = done;
        let ghost old_out = out@;
        proof {
            assert(it.seq().unref().take(it.index() + 1) == it.seq().unref().take(it.index() as int).push(i));
            it.seq().unref().take(it.index() as int).lemma_push_to_set_commute(i);
            done = done.insert(i);
        }
        if i != deleted {
            out.insert(if i > deleted { i - 1 } else { i });
        }
        assert(out@ =~= reindexed(done, deleted)) by {
            assert forall|j: usize| reindexed(done, deleted).contains(j) implies out@.contains(j) by {
                let k = choose|k: usize| #[trigger] done.contains(k) && k != deleted && reindex_one(k, deleted) == j;
                if k != i {
                    assert(old_done.contains(k));
                    assert(reindexed(old_done, deleted).contains(j));
                }
            }
            assert forall|j: usize| out@.contains(j) implies reindexed(done, deleted).contains(j) by {
                if old_out.contains(j) {
                    let k = choose|k: usize| #[trigger] old_done.contains(k) && k != deleted && reindex_one(k, deleted) == j;
                    assert(done.contains(k));
                } else {
                    assert(done.contains(i));
                }
            }
        }
        assert(it.index() + 1 == it.seq().len() ==> it.seq().unref().take(it.index() + 1) == it.seq().unref());
    }
    out
}

/// The set of indices `lo..hi`.
fn range_set(lo: usize, hi: usize) -> (r: HashSet<usize>)
    ensures
        r@ == index_range(lo as int, hi as int),
{
    assert(obeys_key_model::<usize>());
    let mut out: HashSet<usize> = HashSet::new();
    let mut i = lo;
    while i < hi
        invariant
            obeys_key_model::<usize>(),
            lo <= i <= hi || (hi < lo && i == lo),
            out@ == index_range(lo as int, if i < lo { lo as int } else { i as int }),
        decreases hi - i,
    {
        out.insert(i);
        assert(out@ =~= index_range(lo as int, i + 1));
        i = i + 1;
    }
    assert(out@ =~= index_range(lo as int, hi as int));
    out
}

/// What a freeze target holds: its address, its value, and the pointer re-resolved.
pub open spec fn target_view(t: FreezeTarget) -> (usize, ScanValue, Option<PointerModel>) {
    (t.address, t.value, match t.pointer {
        Some(p) => Some(p@),
        None => None,
    })
}

/// The views of the freeze targets.
pub open spec fn targets_view(ts: Seq<FreezeTarget>) -> Seq<(usize, ScanValue, Option<PointerModel>)> {
    ts.map_values(|t: FreezeTarget| target_view(t))
}

/// The freeze targets of the saved rows: one for each frozen row, in order.
pub open spec fn frozen_targets(saved: Seq<SavedMemoryAddress>) -> Seq<(usize, ScanValue, Option<PointerModel>)>
    decreases saved.len(),
{
    if saved.len() == 0 {
        Seq::empty()
    } else {
        let rest = frozen_targets(saved.drop_last());
        match saved.last().frozen {
            Some(v) => rest.push((saved.last().address, v, match saved.last().pointer {
                Some(p) => Some(p@),
                None => None,
            })),
            None => rest,
        }
    }
}

/// Whether the freeze worker's configuration matches the saved rows of `p`: the frozen
/// rows as targets, and the process only when there is a target.
pub open spec fn freeze_synced(p: MemoryPanelState, was_started: bool) -> bool {
    let targets = frozen_targets(p.saved@);
    &&& targets_view(p.freeze_targets@) == targets
    &&& p.freeze_pid == (if targets.len() > 0 {
        p.process_pid
    } else {
        None
    })
    &&& p.freeze_worker_started == (was_started || targets.len() > 0)
}

impl CrosshairApp {
    /// Hands the frozen saved rows to the freeze worker, starting it when there is one.
    pub fn sync_memory_freeze_targets(&mut self)
        ensures
            freeze_synced(final(self).memory_panel, old(self).memory_panel.freeze_worker_started),
            final(self).memory_panel == (MemoryPanelState {
                freeze_pid: final(self).memory_panel.freeze_pid,
                freeze_targets: final(self).memory_panel.freeze_targets,
                freeze_worker_started: final(self).memory_panel.freeze_worker_started,
                ..old(self).memory_panel
            }),
            final(self).state == old(self).state,
            final(self).capture_hotkey_combo_keys == old(self).capture_hotkey_combo_keys,
            final(self).capture_hotkey_combo_vks == old(self).capture_hotkey_combo_vks,
    {
        let ghost saved = self.memory_panel.saved@;
        let mut targets: Vec<FreezeTarget> = Vec::new();
        let mut i: usize = 0;
        while i < self.memory_panel.saved.len()
            invariant
                saved == self.memory_panel.saved@,
                i <= saved.len(),
                targets_view(targets@) == frozen_targets(saved.subrange(0, i as int)),
            decreases saved.len() - i,
        {
            let row = &self.memory_panel.saved[i];
            proof {
                let pre = saved.subrange(0, i + 1);
                assert(pre.drop_last() == saved.subrange(0, i as int));
                assert(pre.last() == *row);
            }
            if let Some(value) = row.frozen {
                let pointer = match &row.pointer {
                    Some(p) => Some(p.duplicate()),
                    None => None,
                };
                let t = FreezeTarget { address: row.address, value, pointer };
                let ghost tv = target_view(t);
                targets.push(t);
                assert(targets_view(targets@) =~= frozen_targets(saved.subrange(0, i as int)).push(tv));
            }
            i = i + 1;
        }
        assert(saved.subrange(0, saved.len() as int) == saved);
        if targets.len() > 0 {
            self.memory_panel.freeze_worker_started = true;
            self.memory_panel.freeze_pid = self.memory_panel.process_pid;
        } else {
            self.memory_panel.freeze_pid = None;
        }
        self.memory_panel.freeze_targets = targets;
    }

    /// Drops row `deleted` from the selection and moves the later selected rows up one.
    pub fn reindex_saved_selection_after_delete(&mut self, deleted: usize)
        ensures
            final(self).memory_panel.selected_saved@ == reindexed(old(self).memory_panel.selected_saved@, deleted),
            final(self).memory_panel == (MemoryPanelState {
                selected_saved: final(self).memory_panel.selected_saved,
                ..old(self).memory_panel
            }),
            final(self).state == old(self).state,
            final(self).capture_hotkey_combo_keys == old(self).capture_hotkey_combo_keys,
            final(self).capture_hotkey_combo_vks == old(self).capture_hotkey_combo_vks,
    {
        let next = reindex_selection(&self.memory_panel.selected_saved, deleted);
        self.memory_panel.selected_saved = next;
    }
}

/// Whether `after` is `before` once the saved rows changed: the freeze worker follows the
/// new rows, the library holds the rows marked for it, and the rest of the state is kept.
pub open spec fn list_change_applied(before: CrosshairApp, after: CrosshairApp, first_module: Option<String>) -> bool {
    &&& freeze_synced(after.memory_panel, before.memory_panel.freeze_worker_started)
    &&& entries_view(after.state.memory_pointer_list@) == persisted(
        entries_view(before.state.memory_pointer_list@),
        after.memory_panel.saved@,
        fallback_app_name(before.memory_panel.process_pid, string_opt(first_module)),
    )
    &&& after.state == (AppState { memory_pointer_list: after.state.memory_pointer_list, ..before.state })
    &&& after.capture_hotkey_combo_keys == before.capture_hotkey_combo_keys
    &&& after.capture_hotkey_combo_vks == before.capture_hotkey_combo_vks
}

impl CrosshairApp {
    /// Deletes the selected saved rows; the selection and the value editor are cleared.
    /// `first_module` is as for `persist_memory_pointers`.
    pub fn delete_selected_saved_memory(&mut self, first_module: Option<String>)
        ensures
            final(self).memory_panel.saved@ == keep_rows(old(self).memory_panel.saved@, old(self).memory_panel.selected_saved@, false),
            final(self).memory_panel.selected_saved@ == Set::<usize>::empty(),
            final(self).memory_panel == (MemoryPanelState {
                saved: final(self).memory_panel.saved,
                selected_saved: final(self).memory_panel.selected_saved,
                edit_value_index: None,
                edit_value_open: false,
                freeze_pid: final(self).memory_panel.freeze_pid,
                freeze_targets: final(self).memory_panel.freeze_targets,
                freeze_worker_started: final(self).memory_panel.freeze_worker_started,
                ..old(self).memory_panel
            }),
            list_change_applied(*old(self), *final(self), first_module),
    {
        let mut rows: Vec<SavedMemoryAddress> = Vec::new();
        std::mem::swap(&mut rows, &mut self.memory_panel.saved);
        self.memory_panel.saved = filter_saved(rows, &self.memory_panel.selected_saved, false);
        self.memory_panel.selected_saved.clear();
        self.memory_panel.edit_value_index = None;
        self.memory_panel.edit_value_open = false;
        self.sync_memory_freeze_targets();
        self.persist_memory_pointers(first_module);
    }

    /// Keeps only the selected saved rows, which then become rows `0..n`, all selected.
    /// `first_module` is as for `persist_memory_pointers`.
    pub fn delete_unselected_saved_memory(&mut self, first_module: Option<String>)
        ensures
            final(self).memory_panel.saved@ == keep_rows(old(self).memory_panel.saved@, old(self).memory_panel.selected_saved@, true),
            final(self).memory_panel.selected_saved@ == index_range(0, final(self).memory_panel.saved@.len() as int),
            final(self).memory_panel.saved_selection_anchor == (if final(self).memory_panel.saved@.len() > 0 {
                Some(0usize)
            } else {
                None
            }),
            final(self).memory_panel == (MemoryPanelState {
                saved: final(self).memory_panel.saved,
                selected_saved: final(self).memory_panel.selected_saved,
                saved_selection_anchor: final(self).memory_panel.saved_selection_anchor,
                edit_value_index: None,
                edit_value_open: false,
                freeze_pid: final(self).memory_panel.freeze_pid,
                freeze_targets: final(self).memory_panel.freeze_targets,
                freeze_worker_started: final(self).memory_panel.freeze_worker_started,
                ..old(self).memory_panel
            }),
            list_change_applied(*old(self), *final(self), first_module),
    {
        let mut rows: Vec<SavedMemoryAddress> = Vec::new();
        std::mem::swap(&mut rows, &mut self.memory_panel.saved);
        self.memory_panel.saved = filter_saved(rows, &self.memory_panel.selected_saved, true);
        self.memory_panel.selected_saved = range_set(0, self.memory_panel.saved.len());
        self.memory_panel.saved_selection_anchor = if self.memory_panel.saved.len() > 0 {
            Some(0)
        } else {
            None
        };
        self.memory_panel.edit_value_index = None;
        self.memory_panel.edit_value_open = false;
        self.sync_memory_freeze_targets();
        self.persist_memory_pointers(first_module);
    }
}

/// Whether `b` is the row `a` moved into the group `name`.
pub open spec fn regrouped(a: SavedMemoryAddress, b: SavedMemoryAddress, name: Seq<char>) -> bool {
    &&& b.group@ == name
    &&& b == (SavedMemoryAddress { group: b.group, ..a })
}

/// The smallest element of a non-empty sequence.
pub open spec fn seq_min(s: Seq<usize>) -> usize
    decreases s.len(),
{
    if s.len() <= 1 {
        s[0]
    } else {
        let m = seq_min(s.drop_last());
        if s.last() < m {
            s.last()
        } else {
            m
        }
    }
}

/// Where the grouped rows go: before the first listed row, or at the end when none is
/// listed, and never past the rows that stay.
pub open spec fn group_insert_at(indices: Seq<usize>, len: nat, remaining: nat) -> int {
    let first = if indices.len() == 0 {
        len as int
    } else {
        seq_min(indices) as int
    };
    if first < remaining {
        first
    } else {
        remaining as int
    }
}

/// Whether `after` is `before` with the rows whose index is in `sel` moved, in order and
/// into group `name`, to position `at` among the other rows.
pub open spec fn grouped_rows_placed(
    before: Seq<SavedMemoryAddress>,
    after: Seq<SavedMemoryAddress>,
    sel: Set<usize>,
    name: Seq<char>,
    at: int,
) -> bool {
    let moved = keep_rows(before, sel, true);
    let stay = keep_rows(before, sel, false);
    &&& 0 <= at <= stay.len()
    &&& after.len() == stay.len() + moved.len()
    &&& forall|i: int| 0 <= i < at ==> after[i] == stay[i]
    &&& forall|i: int| 0 <= i < moved.len() ==> regrouped(moved[i], #[trigger] after[at + i], name)
    &&& forall|i: int| at <= i < stay.len() ==> after[i + moved.len()] == #[trigger] stay[i]
}

/// The set of the elements of `indices`, and the smallest of them.
fn index_set(indices: &[usize]) -> (r: (HashSet<usize>, Option<usize>))
    ensures
        r.0@ == indices@.to_set(),
        match r.1 {
            Some(m) => indices@.len() > 0 && m == seq_min(indices@),
            None => indices@.len() == 0,
        },
{
    assert(obeys_key_model::<usize>());
    let mut set: HashSet<usize> = HashSet::new();
    let mut least: Option<usize> = None;
    let mut i: usize = 0;
    while i < indices.len()
        invariant
            obeys_key_model::<usize>(),
            i <= indices@.len(),
            set@ == indices@.subrange(0, i as int).to_set(),
            match least {
                Some(m) => i > 0 && m == seq_min(indices@.subrange(0, i as int)),
                None => i == 0,
            },
        decreases indices@.len() - i,
    {
        let x = indices[i];
        proof {
            let pre = indices@.subrange(0, i + 1);
            assert(pre == indices@.subrange(0, i as int).push(x));
            assert(pre.drop_last() == indices@.subrange(0, i as int));
            indices@.subrange(0, i as int).lemma_push_to_set_commute(x);
        }
        set.insert(x);
        least = match least {
            Some(m) => if x < m {
                Some(x)
            } else {
                Some(m)
            },
            None => Some(x),
        };
        i = i + 1;
    }
    assert(indices@.subrange(0, indices@.len() as int) == indices@);
    (set, least)
}

/// Splits the rows into those whose index is in `sel`, moved into group `name`, and the
/// others.
fn split_group_rows(rows: Vec<SavedMemoryAddress>, sel: &HashSet<usize>, name: &str) -> (r: (Vec<SavedMemoryAddress>, Vec<SavedMemoryAddress>))
    ensures
        r.0@.len() == keep_rows(rows@, sel@, true).len(),
        forall|k: int| 0 <= k < r.0@.len() ==> regrouped(keep_rows(rows@, sel@, true)[k], #[trigger] r.0@[k], name@),
        r.1@ == keep_rows(rows@, sel@, false),
{
    assert(obeys_key_model::<usize>());
    let ghost all = rows@;
    let n = rows.len();
    let mut moved: Vec<SavedMemoryAddress> = Vec::new();
    let mut stay: Vec<SavedMemoryAddress> = Vec::new();
    let mut index: usize = 0;
    for entry in it: rows.into_iter()
        invariant
            obeys_key_model::<usize>(),
            it.seq() == all,
            index == it.index(),
            all.len() == n,
            moved@.len() == keep_rows(all.subrange(0, index as int), sel@, true).len(),
            forall|k: int| 0 <= k < moved@.len() ==> regrouped(keep_rows(all.subrange(0, index as int), sel@, true)[k], #[trigger] moved@[k], name@),
            stay@ == keep_rows(all.subrange(0, index as int), sel@, false),
    {
        assert(index < all.len());
        let ghost pre = all.subrange(0, index + 1);
        proof {
            assert(pre.drop_last() == all.subrange(0, index as int));
            assert(pre.last() == entry);
        }
        if sel.contains(&index) {
            let mut e = entry;
            e.group = crate::text::owned(name);
            let ghost prev = moved@;
            moved.push(e);
            assert forall|k: int| 0 <= k < moved@.len() implies regrouped(keep_rows(pre, sel@, true)[k], #[trigger] moved@[k], name@) by {
                if k < prev.len() {
                    assert(moved@[k] == prev[k]);
                }
            }
        } else {
            stay.push(entry);
        }
        index = index + 1;
    }
    assert(all.subrange(0, all.len() as int) == all);
    (moved, stay)
}

impl CrosshairApp {
    /// Moves the rows listed in `indices` into group `name`, keeping their order, and
    /// places them together before the first listed row; the moved rows become the
    /// selection, the first of them the anchor, and the library is written.
    /// `first_module` is as for `persist_memory_pointers`.
    #[verifier::rlimit(40)]
    pub fn add_saved_addresses_to_group(&mut self, indices: &[usize], name: &str, first_module: Option<String>)
        requires
            indices@.to_set().len() <= old(self).memory_panel.saved@.len(),
            old(self).memory_panel.saved@.len() <= isize::MAX,
        ensures
            ({
                let sel = indices@.to_set();
                let at = group_insert_at(
                    indices@,
                    old(self).memory_panel.saved@.len(),
                    keep_rows(old(self).memory_panel.saved@, sel, false).len(),
                );
                &&& grouped_rows_placed(old(self).memory_panel.saved@, final(self).memory_panel.saved@, sel, name@, at)
                &&& final(self).memory_panel.selected_saved@ == index_range(at, at + sel.len())
                &&& final(self).memory_panel.saved_selection_anchor == Some(at as usize)
            }),
            final(self).memory_panel == (MemoryPanelState {
                saved: final(self).memory_panel.saved,
                selected_saved: final(self).memory_panel.selected_saved,
                saved_selection_anchor: final(self).memory_panel.saved_selection_anchor,
                ..old(self).memory_panel
            }),
            entries_view(final(self).state.memory_pointer_list@) == persisted(
                entries_view(old(self).state.memory_pointer_list@),
                final(self).memory_panel.saved@,
                fallback_app_name(old(self).memory_panel.process_pid, string_opt(first_module)),
            ),
            final(self).state == (AppState { memory_pointer_list: final(self).state.memory_pointer_list, ..old(self).state }),
            final(self).capture_hotkey_combo_keys == old(self).capture_hotkey_combo_keys,
            final(self).capture_hotkey_combo_vks == old(self).capture_hotkey_combo_vks,
    {
        assert(obeys_key_model::<usize>());
        let ghost before = self.memory_panel.saved@;
        let n = self.memory_panel.saved.len();
        let (selected, least) = index_set(indices);
        let count = selected.len();
        let mut rows: Vec<SavedMemoryAddress> = Vec::new();
        std::mem::swap(&mut rows, &mut self.memory_panel.saved);
        let (mut moved, mut stay) = split_group_rows(rows, &selected, name);
        let first = match least {
            Some(m) => m,
            None => n,
        };
        let at = if first < stay.len() {
            first
        } else {
            stay.len()
        };
        let ghost stay0 = stay@;
        let ghost moved0 = moved@;
        proof {
            lemma_keep_rows_len(before, selected@);
        }
        let mut tail = stay.split_off(at);
        stay.append(&mut moved);
        stay.append(&mut tail);
        self.memory_panel.saved = stay;
        self.memory_panel.selected_saved = range_set(at, at + count);
        self.memory_panel.saved_selection_anchor = Some(at);
        assert forall|i: int| 0 <= i < moved0.len() implies regrouped(keep_rows(before, selected@, true)[i], #[trigger] self.memory_panel.saved@[at + i], name@) by {
            assert(self.memory_panel.saved@[at + i] == moved0[i]);
        }
        assert forall|i: int| at <= i < stay0.len() implies self.memory_panel.saved@[i + moved0.len()] == #[trigger] stay0[i] by {}
        self.persist_memory_pointers(first_module);
    }
}

/// Splitting the rows by a selection keeps every row once.
pub proof fn lemma_keep_rows_len<T>(s: Seq<T>, sel: Set<usize>)
    ensures
        keep_rows(s, sel, true).len() + keep_rows(s, sel, false).len() == s.len(),
    decreases s.len(),
{
    if s.len() > 0 {
        lemma_keep_rows_len(s.drop_last(), sel);
    }
}

/// Whether a row at `a1` that was row `i1` comes before a row at `a2` that was row `i2`:
/// by address, ties in their old order (ascending) or in reverse old order (descending).
pub open spec fn row_before(a1: usize, i1: int, a2: usize, i2: int, descending: bool) -> bool {
    if descending {
        a1 > a2 || (a1 == a2 && i1 > i2)
    } else {
        a1 < a2 || (a1 == a2 && i1 < i2)
    }
}

/// Whether `after` is `before` reordered by `perm` (row `i` of `after` was row `perm[i]`)
/// and sorted by address as `row_before` says.
pub open spec fn sorted_by_address(before: Seq<SavedMemoryAddress>, after: Seq<SavedMemoryAddress>, perm: Seq<int>, descending: bool) -> bool {
    &&& perm.len() == before.len()
    &&& after.len() == before.len()
    &&& forall|i: int| 0 <= i < perm.len() ==> 0 <= #[trigger] perm[i] < before.len() && after[i] == before[perm[i]]
    &&& forall|i: int, j: int| 0 <= i < j < perm.len() ==> #[trigger] perm[i] != #[trigger] perm[j]
    &&& forall|i: int, j: int| 0 <= i < j < perm.len() ==> row_before(
        #[trigger] after[i].address,
        perm[i],
        #[trigger] after[j].address,
        perm[j],
        descending,
    )
}

/// The selection carried along a reordering: new row `j` is selected when its old row was.
pub open spec fn moved_selection(sel: Set<usize>, perm: Seq<int>) -> Set<usize> {
    Set::new(|j: usize| j < perm.len() && sel.contains(perm[j as int] as usize))
}

/// Whether `anchor` is the smallest element of `sel`, or `None` when `sel` is empty.
pub open spec fn smallest(sel: Set<usize>, anchor: Option<usize>) -> bool {
    match anchor {
        Some(a) => sel.contains(a) && forall|x: usize| #[trigger] sel.contains(x) ==> a <= x,
        None => sel == Set::<usize>::empty(),
    }
}

/// The sort order chosen by the next click: ascending (1) unless it was ascending, then
/// descending (2).
pub open spec fn next_sort(mode: u8) -> u8 {
    if mode == 1 {
        2
    } else {
        1
    }
}

/// Whether a new row at `a` goes before an already placed row at `existing`.
pub open spec fn goes_before(existing: usize, a: usize, descending: bool) -> bool {
    if descending {
        existing <= a
    } else {
        existing > a
    }
}

/// The first position among the sorted rows where a new row at `address` goes.
fn insert_position(rows: &Vec<(usize, SavedMemoryAddress)>, address: usize, descending: bool) -> (p: usize)
    ensures
        p <= rows@.len(),
        forall|k: int| 0 <= k < p ==> !goes_before((#[trigger] rows@[k]).1.address, address, descending),
        p < rows@.len() ==> goes_before(rows@[p as int].1.address, address, descending),
{
    let mut p: usize = 0;
    while p < rows.len()
        invariant
            p <= rows@.len(),
            forall|k: int| 0 <= k < p ==> !goes_before((#[trigger] rows@[k]).1.address, address, descending),
        decreases rows@.len() - p,
    {
        let existing = rows[p].1.address;
        let first = if descending {
            existing <= address
        } else {
            existing > address
        };
        if first {
            return p;
        }
        p = p + 1;
    }
    p
}

/// The ordered invariant of the rows placed so far, the first `k` of `all`.
pub open spec fn placed(rows: Seq<(usize, SavedMemoryAddress)>, all: Seq<SavedMemoryAddress>, k: int, descending: bool) -> bool {
    &&& rows.len() == k
    &&& forall|i: int| 0 <= i < rows.len() ==> (#[trigger] rows[i]).0 < k && rows[i].1 == all[rows[i].0 as int]
    &&& forall|i: int, j: int| 0 <= i < j < rows.len() ==> (#[trigger] rows[i]).0 != (#[trigger] rows[j]).0
    &&& forall|i: int, j: int| 0 <= i < j < rows.len() ==> row_before(
        (#[trigger] rows[i]).1.address,
        rows[i].0 as int,
        (#[trigger] rows[j]).1.address,
        rows[j].0 as int,
        descending,
    )
}

/// Sorts the rows by address, each paired with its old index.
fn sort_rows(saved: Vec<SavedMemoryAddress>, descending: bool) -> (rows: Vec<(usize, SavedMemoryAddress)>)
    ensures
        placed(rows@, saved@, saved@.len() as int, descending),
{
    let ghost all = saved@;
    let n = saved.len();
    let mut rows: Vec<(usize, SavedMemoryAddress)> = Vec::new();
    let mut index: usize = 0;
    for entry in it: saved.into_iter()
        invariant
            it.seq() == all,
            index == it.index(),
            all.len() == n,
            placed(rows@, all, index as int, descending),
    {
        assert(index < all.len());
        let address = entry.address;
        let p = insert_position(&rows, address, descending);
        let ghost old_rows = rows@;
        rows.insert(p, (index, entry));
        proof {
            let r = rows@;
            assert(r.len() == index + 1);
            assert forall|i: int| 0 <= i < r.len() implies (#[trigger] r[i]).0 < index + 1 && r[i].1 == all[r[i].0 as int] by {
                if i < p {
                    assert(r[i] == old_rows[i]);
                } else if i > p {
                    assert(r[i] == old_rows[i - 1]);
                }
            }
            assert forall|i: int, j: int| 0 <= i < j < r.len() implies (#[trigger] r[i]).0 != (#[trigger] r[j]).0 by {
                if i < p && j < p {
                    assert(r[i] == old_rows[i] && r[j] == old_rows[j]);
                } else if i > p && j > p {
                    assert(r[i] == old_rows[i - 1] && r[j] == old_rows[j - 1]);
                } else if i < p && j > p {
                    assert(r[i] == old_rows[i] && r[j] == old_rows[j - 1]);
                } else if i == p {
                    assert(r[j] == old_rows[j - 1]);
                } else {
                    assert(r[i] == old_rows[i]);
                }
            }
            assert forall|i: int, j: int| 0 <= i < j < r.len() implies row_before(
                (#[trigger] r[i]).1.address,
                r[i].0 as int,
                (#[trigger] r[j]).1.address,
                r[j].0 as int,
                descending,
            ) by {
                if i < p && j < p {
                    assert(r[i] == old_rows[i] && r[j] == old_rows[j]);
                } else if i > p && j > p {
                    assert(r[i] == old_rows[i - 1] && r[j] == old_rows[j - 1]);
                } else if i < p && j > p {
                    assert(r[i] == old_rows[i] && r[j] == old_rows[j - 1]);
                    assert(!goes_before(old_rows[i].1.address, address, descending));
                    assert(goes_before(old_rows[p as int].1.address, address, descending));
                    if j - 1 > p {
                        assert(row_before(old_rows[p as int].1.address, old_rows[p as int].0 as int, old_rows[j - 1].1.address, old_rows[j - 1].0 as int, descending));
                    }
                } else if i == p {
                    assert(r[j] == old_rows[j - 1]);
                    assert(goes_before(old_rows[p as int].1.address, address, descending));
                    if j - 1 > p {
                        assert(row_before(old_rows[p as int].1.address, old_rows[p as int].0 as int, old_rows[j - 1].1.address, old_rows[j - 1].0 as int, descending));
                    }
                } else {
                    assert(r[i] == old_rows[i]);
                    assert(!goes_before(old_rows[i].1.address, address, descending));
                }
            }
        }
        index = index + 1;
    }
    rows
}

impl CrosshairApp {
    /// Sorts the saved rows by address, ascending on the first click and then alternating;
    /// rows at the same address keep their order (reversed when descending), and the
    /// selection follows its rows, its smallest row becoming the anchor.
    pub fn sort_saved_addresses(&mut self)
        ensures
            final(self).memory_panel.saved_address_sort == next_sort(old(self).memory_panel.saved_address_sort),
            exists|perm: Seq<int>| {
                &&& sorted_by_address(
                    old(self).memory_panel.saved@,
                    final(self).memory_panel.saved@,
                    perm,
                    final(self).memory_panel.saved_address_sort == 2,
                )
                &&& final(self).memory_panel.selected_saved@ == moved_selection(old(self).memory_panel.selected_saved@, perm)
            },
            smallest(final(self).memory_panel.selected_saved@, final(self).memory_panel.saved_selection_anchor),
            final(self).memory_panel == (MemoryPanelState {
                saved: final(self).memory_panel.saved,
                selected_saved: final(self).memory_panel.selected_saved,
                saved_selection_anchor: final(self).memory_panel.saved_selection_anchor,
                saved_address_sort: final(self).memory_panel.saved_address_sort,
                ..old(self).memory_panel
            }),
            final(self).state == old(self).state,
            final(self).capture_hotkey_combo_keys == old(self).capture_hotkey_combo_keys,
            final(self).capture_hotkey_combo_vks == old(self).capture_hotkey_combo_vks,
    {
        assert(obeys_key_model::<usize>());
        self.memory_panel.saved_address_sort = if self.memory_panel.saved_address_sort == 1 {
            2
        } else {
            1
        };
        let descending = self.memory_panel.saved_address_sort == 2;
        let ghost before = self.memory_panel.saved@;
        let ghost old_sel = self.memory_panel.selected_saved@;
        let mut taken: Vec<SavedMemoryAddress> = Vec::new();
        std::mem::swap(&mut taken, &mut self.memory_panel.saved);
        let rows = sort_rows(taken, descending);
        let ghost rv = rows@;
        let ghost perm = rv.map_values(|r: (usize, SavedMemoryAddress)| r.0 as int);
        let n = rows.len();
        let mut out: Vec<SavedMemoryAddress> = Vec::new();
        let mut sel: HashSet<usize> = HashSet::new();
        let mut anchor: Option<usize> = None;
        let mut k: usize = 0;
        for row in it: rows.into_iter()
            invariant
                obeys_key_model::<usize>(),
                it.seq() == rv,
                k == it.index(),
                rv.len() == n,
                placed(rv, before, before.len() as int, descending),
                perm == rv.map_values(|r: (usize, SavedMemoryAddress)| r.0 as int),
                old_sel == self.memory_panel.selected_saved@,
                out@ == rv.subrange(0, k as int).map_values(|r: (usize, SavedMemoryAddress)| r.1),
                sel@ == Set::new(|j: usize| j < k && old_sel.contains(perm[j as int] as usize)),
                smallest(sel@, anchor),
        {
            assert(k < rv.len());
            let (old_index, entry) = row;
            let ghost prev = out@;
            out.push(entry);
            assert(out@ =~= rv.subrange(0, k + 1).map_values(|r: (usize, SavedMemoryAddress)| r.1)) by {
                assert forall|i: int| 0 <= i < k + 1 implies #[trigger] out@[i] == rv.subrange(0, k + 1).map_values(|r: (usize, SavedMemoryAddress)| r.1)[i] by {
                    if i < k {
                        assert(out@[i] == prev[i]);
                    }
                }
            }
            let ghost prev_sel = sel@;
            if self.memory_panel.selected_saved.contains(&old_index) {
                sel.insert(k);
                if anchor.is_none() {
                    anchor = Some(k);
                }
            }
            assert(sel@ =~= Set::new(|j: usize| j < k + 1 && old_sel.contains(perm[j as int] as usize)));
            k = k + 1;
        }
        proof {
            assert(out@ =~= rv.map_values(|r: (usize, SavedMemoryAddress)| r.1)) by {
                assert(rv.subrange(0, rv.len() as int) == rv);
            }
            assert(sorted_by_address(before, out@, perm, descending)) by {
                assert forall|i: int, j: int| 0 <= i < j < perm.len() implies row_before(
                    #[trigger] out@[i].address,
                    perm[i],
                    #[trigger] out@[j].address,
                    perm[j],
                    descending,
                ) by {
                    assert(out@[i] == rv[i].1 && out@[j] == rv[j].1);
                }
                assert forall|i: int, j: int| 0 <= i < j < perm.len() implies #[trigger] perm[i] != #[trigger] perm[j] by {
                    assert(rv[i].0 != rv[j].0);
                }
            }
            assert(sel@ =~= moved_selection(old_sel, perm));
        }
        self.memory_panel.saved = out;
        self.memory_panel.selected_saved = sel;
        self.memory_panel.saved_selection_anchor = anchor;
    }
}

/// The elements of a set of indices, each once, in the order the set yields them.
pub fn set_elements(set: &HashSet<usize>) -> (r: Vec<usize>)
    ensures
        r@.to_set() == set@,
        r@.no_duplicates(),
{
    assert(obeys_key_model::<usize>());
    let mut r: Vec<usize> = Vec::new();
    for x in it: set.iter()
        invariant
            it.seq().unref().to_set() == set@,
            it.seq().unref().no_duplicates(),
            r@ == it.seq().unref().take(it.index() as int),
            it.index() == it.seq().len() ==> r@.to_set() == set@ && r@.no_duplicates(),
    {
        proof {
            assert(it.seq().unref().take(it.index() + 1) == it.seq().unref().take(it.index() as int).push(*x));
        }
        r.push(*x);
        assert(it.index() + 1 == it.seq().len() ==> r@ == it.seq().unref());
    }
    r
}

/// Whether `s` is strictly increasing.
pub open spec fn increasing(s: Seq<usize>) -> bool {
    forall|a: int, b: int| 0 <= a < b < s.len() ==> s[a] < s[b]
}

/// The elements of a set of indices in increasing order.
pub fn increasing_elements(set: &HashSet<usize>) -> (r: Vec<usize>)
    ensures
        increasing(r@),
        r@.to_set() == set@,
{
    let v = set_elements(set);
    let mut out: Vec<usize> = Vec::new();
    let mut i: usize = 0;
    while i < v.len()
        invariant
            i <= v@.len(),
            v@.no_duplicates(),
            increasing(out@),
            out@.to_set() == v@.subrange(0, i as int).to_set(),
        decreases v@.len() - i,
    {
        let x = v[i];
        let mut p: usize = 0;
        while p < out.len() && out[p] < x
            invariant
                p <= out@.len(),
                forall|k: int| 0 <= k < p ==> out@[k] < x,
            decreases out@.len() - p,
        {
            p = p + 1;
        }
        proof {
            assert(!v@.subrange(0, i as int).contains(x)) by {
                if v@.subrange(0, i as int).contains(x) {
                    let a = choose|a: int| 0 <= a < i && v@.subrange(0, i as int)[a] == x;
                    assert(v@[a] == v@[i as int]);
                }
            }
            assert(!out@.contains(x)) by {
                if out@.contains(x) {
                    assert(out@.to_set().contains(x));
                    assert(v@.subrange(0, i as int).to_set().contains(x));
                }
            }
        }
        let ghost old_out = out@;
        out.insert(p, x);
        proof {
            assert(out@ == old_out.insert(p as int, x));
            assert forall|a: int, b: int| 0 <= a < b < out@.len() implies out@[a] < out@[b] by {
                if b < p {
                    assert(out@[a] == old_out[a] && out@[b] == old_out[b]);
                } else if a > p {
                    assert(out@[a] == old_out[a - 1] && out@[b] == old_out[b - 1]);
                } else if a < p && b > p {
                    assert(out@[a] == old_out[a] && out@[b] == old_out[b - 1]);
                    assert(old_out[a] < x);
                    assert(old_out[p as int] != x) by {
                        assert(old_out.contains(old_out[p as int]));
                    }
                    assert(!(old_out[p as int] < x));
                } else if a == p {
                    assert(out@[b] == old_out[b - 1]);
                    assert(old_out[p as int] != x) by {
                        assert(old_out.contains(old_out[p as int]));
                    }
                    assert(!(old_out[p as int] < x));
                } else {
                    assert(out@[a] == old_out[a]);
                    assert(old_out[a] < x);
                }
            }
            assert(out@.to_set() =~= v@.subrange(0, i + 1).to_set()) by {
                assert(v@.subrange(0, i + 1) == v@.subrange(0, i as int).push(x));
                assert forall|y: usize| out@.contains(y) <==> old_out.contains(y) || y == x by {
                    if out@.contains(y) {
                        let k = choose|k: int| 0 <= k < out@.len() && out@[k] == y;
                        if k < p {
                            assert(old_out[k] == y);
                        } else if k > p {
                            assert(old_out[k - 1] == y);
                        }
                    }
                    if old_out.contains(y) {
                        let k = choose|k: int| 0 <= k < old_out.len() && old_out[k] == y;
                        if k < p {
                            assert(out@[k] == y);
                        } else {
                            assert(out@[k + 1] == y);
                        }
                    }
                    if y == x {
                        assert(out@[p as int] == x);
                    }
                }
                let nx = v@.subrange(0, i + 1);
                let px = v@.subrange(0, i as int);
                assert(nx == px.push(x));
                assert forall|y: usize| nx.contains(y) <==> px.contains(y) || y == x by {
                    if nx.contains(y) {
                        let k = choose|k: int| 0 <= k < nx.len() && nx[k] == y;
                        if k < i {
                            assert(px[k] == y);
                        }
                    }
                    if px.contains(y) {
                        let k = choose|k: int| 0 <= k < px.len() && px[k] == y;
                        assert(nx[k] == y);
                    }
                    if y == x {
                        assert(nx[i as int] == x);
                    }
                }
                assert forall|y: usize| out@.to_set().contains(y) <==> v@.subrange(0, i + 1).to_set().contains(y) by {
                    assert(old_out.to_set().contains(y) <==> v@.subrange(0, i as int).to_set().contains(y));
                }
            }
        }
        i = i + 1;
    }
    assert(v@.subrange(0, v@.len() as int) == v@);
    out
}

} // verus!
