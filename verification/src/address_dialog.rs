//! The address dialog of a saved row: reading the address and pointer offsets typed into
//! it, and applying them to the row.
use vstd::prelude::*;
use crate::scan::{ScanValue, ScanValueType};
use crate::saved::{list_change_applied, SavedMemoryAddress};
use crate::panel::{AppState, CrosshairApp, MemoryPanelState};
use crate::pointer::{rfind_char, PointerModel, PointerSpec};
use crate::address::{address_edit_spec, address_spec, hex_offset_spec, parse_address_edit, parse_hex_offset_range, parse_memory_address};
use crate::text::{chars_of, contains_seq, has_prefix, is_ws_exec, last_index, owned, split_fields, split_ranges, string_of, trim, trim_bounds};
use crate::entity::blank;
use crate::library::{entries_view, fallback_app_name, persisted, string_opt};

verus! {

/// The fields of the address dialog that applying it reads.
pub struct AddressDialog {
    /// The saved row being edited.
    pub index: usize,
    pub address: String,
    pub offsets: String,
    /// Whether the row is a pointer.
    pub pointer: bool,
    pub description: String,
    pub value_type: ScanValueType,
    pub hexadecimal: bool,
}

/// The separators of the dialog's offset list.
pub open spec fn offset_seps() -> Seq<char> {
    seq![',', ';', ' ']
}

/// The offsets of the fields that are not blank, or `None` when one is not hexadecimal.
pub open spec fn dialog_offsets(fields: Seq<Seq<char>>) -> Option<Seq<usize>>
    decreases fields.len(),
{
    if fields.len() == 0 {
        Some(Seq::empty())
    } else {
        match dialog_offsets(fields.drop_last()) {
            None => None,
            Some(offs) => if blank(fields.last()) {
                Some(offs)
            } else {
                match hex_offset_spec(fields.last()) {
                    Some(o) => Some(offs.push(o as usize)),
                    None => None,
                }
            },
        }
    }
}

/// The module root typed as `module+offset`: a module name (trimmed) that has a `.` and
/// does not start with `0x` or `0X`, then a hexadecimal offset.
pub open spec fn module_root_spec(a: Seq<char>) -> Option<(Seq<char>, usize)> {
    match last_index(a, '+') {
        None => None,
        Some(plus) => {
            let m = trim(a.subrange(0, plus));
            if contains_seq(m, seq!['.']) && !has_prefix(m, seq!['0', 'x']) && !has_prefix(m, seq!['0', 'X']) {
                match hex_offset_spec(a.subrange(plus + 1, a.len() as int)) {
                    Some(o) => Some((m, o as usize)),
                    None => None,
                }
            } else {
                None
            }
        },
    }
}

/// The pointer a pointer dialog describes, or why it describes none.
pub open spec fn dialog_pointer_spec(address: Seq<char>, offsets: Seq<char>) -> Result<PointerModel, Seq<char>> {
    match dialog_offsets(split_fields(offsets, offset_seps())) {
        None => Err("Invalid pointer offsets"@),
        Some(offs) => {
            let a = trim(address);
            match module_root_spec(a) {
                Some((m, o)) => Ok(PointerModel { base: 0, module: Some((m, o)), offsets: offs }),
                None => match address_spec(a) {
                    Some(base) => Ok(PointerModel { base: base as usize, module: None, offsets: offs }),
                    None => Err("Invalid address"@),
                },
            }
        },
    }
}

/// Reads the non-blank fields of an offset list.
fn read_dialog_offsets(v: &Vec<char>, ranges: &Vec<(usize, usize)>, fields: Ghost<Seq<Seq<char>>>) -> (r: Option<Vec<usize>>)
    requires
        ranges@.len() == fields@.len(),
        forall|k: int| 0 <= k < ranges@.len() ==> (#[trigger] ranges@[k]).0 <= ranges@[k].1 <= v@.len()
            && v@.subrange(ranges@[k].0 as int, ranges@[k].1 as int) == fields@[k],
    ensures
        match r {
            Some(o) => dialog_offsets(fields@) == Some(o@),
            None => dialog_offsets(fields@) is None,
        },
{
    let mut out: Vec<usize> = Vec::new();
    let mut k: usize = 0;
    while k < ranges.len()
        invariant
            ranges@.len() == fields@.len(),
            forall|j: int| 0 <= j < ranges@.len() ==> (#[trigger] ranges@[j]).0 <= ranges@[j].1 <= v@.len()
                && v@.subrange(ranges@[j].0 as int, ranges@[j].1 as int) == fields@[j],
            k <= ranges@.len(),
            dialog_offsets(fields@.subrange(0, k as int)) == Some(out@),
        decreases ranges@.len() - k,
    {
        let (a, b) = ranges[k];
        assert(ranges@[k as int] == (a, b));
        proof {
            let pre = fields@.subrange(0, k + 1);
            assert(pre.drop_last() == fields@.subrange(0, k as int));
            assert(pre.last() == fields@[k as int]);
        }
        let (ta, tb) = trim_bounds(v, a, b);
        if ta < tb {
            match parse_hex_offset_range(v, a, b) {
                Some(x) => {
                    out.push(x);
                },
                None => {
                    proof {
                        lemma_dialog_offsets_fail(fields@, k as int + 1);
                    }
                    return None;
                },
            }
        }
        k = k + 1;
    }
    assert(fields@.subrange(0, fields@.len() as int) =~= fields@);
    Some(out)
}

/// A prefix with a field that is not hexadecimal makes the whole list invalid.
proof fn lemma_dialog_offsets_fail(fields: Seq<Seq<char>>, n: int)
    requires
        0 <= n <= fields.len(),
        dialog_offsets(fields.subrange(0, n)) is None,
    ensures
        dialog_offsets(fields) is None,
    decreases fields.len() - n,
{
    if n < fields.len() {
        let pre = fields.subrange(0, n + 1);
        assert(pre.drop_last() == fields.subrange(0, n));
        lemma_dialog_offsets_fail(fields, n + 1);
    } else {
        assert(fields.subrange(0, n) == fields);
    }
}

/// Whether `v[lo..hi]` begins with `c0 c1`.
fn starts_with_pair(v: &Vec<char>, lo: usize, hi: usize, c0: char, c1: char) -> (b: bool)
    requires
        lo <= hi <= v@.len(),
    ensures
        b == has_prefix(v@.subrange(lo as int, hi as int), seq![c0, c1]),
{
    let b = hi - lo >= 2 && v[lo] == c0 && v[lo + 1] == c1;
    proof {
        let s = v@.subrange(lo as int, hi as int);
        if hi - lo >= 2 {
            assert(s.subrange(0, 2)[0] == v@[lo as int]);
            assert(s.subrange(0, 2)[1] == v@[lo + 1]);
            if b {
                assert(s.subrange(0, 2) =~= seq![c0, c1]);
            }
        }
    }
    b
}

/// The module root typed in `v[lo..hi]`.
fn read_module_root(v: &Vec<char>, lo: usize, hi: usize) -> (r: Option<(String, usize)>)
    requires
        lo <= hi <= v@.len(),
    ensures
        match r {
            Some((m, o)) => module_root_spec(v@.subrange(lo as int, hi as int)) == Some((m@, o)),
            None => module_root_spec(v@.subrange(lo as int, hi as int)) is None,
        },
{
    let ghost a = v@.subrange(lo as int, hi as int);
    let plus = match rfind_char(v, lo, hi, '+') {
        Some(p) => p,
        None => return None,
    };
    assert(a.subrange(0, plus - lo) == v@.subrange(lo as int, plus as int));
    assert(a.subrange(plus + 1 - lo, a.len() as int) == v@.subrange(plus + 1, hi as int));
    let (ma, mb) = trim_bounds(v, lo, plus);
    let module = crate::text::copy_range(v, ma, mb);
    let mut dot: Vec<char> = Vec::new();
    dot.push('.');
    assert(dot@ == seq!['.']);
    let has_dot = crate::text::contains_chars(&module, &dot);
    let hex_lower = starts_with_pair(v, ma, mb, '0', 'x');
    let hex_upper = starts_with_pair(v, ma, mb, '0', 'X');
    if !has_dot || hex_lower || hex_upper {
        return None;
    }
    match parse_hex_offset_range(v, plus + 1, hi) {
        Some(o) => Some((string_of(v, ma, mb), o)),
        None => None,
    }
}

/// The pointer a pointer dialog describes, or why it describes none.
pub fn address_dialog_pointer(dialog: &AddressDialog) -> (r: Result<PointerSpec, String>)
    ensures
        match r {
            Ok(p) => dialog_pointer_spec(dialog.address@, dialog.offsets@) == Ok::<PointerModel, Seq<char>>(p@),
            Err(e) => dialog_pointer_spec(dialog.address@, dialog.offsets@) == Err::<PointerModel, Seq<char>>(e@),
        },
{
    let ov = chars_of(dialog.offsets.as_str());
    assert(ov@.subrange(0, ov@.len() as int) == ov@);
    let mut seps: Vec<char> = Vec::new();
    seps.push(',');
    seps.push(';');
    seps.push(' ');
    assert(seps@ == offset_seps());
    let ranges = split_ranges(&ov, 0, ov.len(), &seps);
    let offsets = match read_dialog_offsets(&ov, &ranges, Ghost(split_fields(ov@, offset_seps()))) {
        Some(o) => o,
        None => return Err(owned("Invalid pointer offsets")),
    };
    let av = chars_of(dialog.address.as_str());
    assert(av@.subrange(0, av@.len() as int) == av@);
    let (a, b) = trim_bounds(&av, 0, av.len());
    match read_module_root(&av, a, b) {
        Some((m, o)) => {
            let ghost offs = offsets@;
            let p = PointerSpec { base: 0, module: Some((m, o)), offsets };
            assert(p@.offsets == offs);
            Ok(p)
        },
        None => {
            let text = string_of(&av, a, b);
            match parse_memory_address(text.as_str()) {
                Some(base) => {
                    let ghost offs = offsets@;
                    let p = PointerSpec { base, module: None, offsets };
                    assert(p@.offsets == offs);
                    Ok(p)
                },
                None => Err(owned("Invalid address")),
            }
        },
    }
}

/// The rows once the dialog's description, type and hexadecimal flag are written to row
/// `i` (when it exists), which then holds no text.
pub open spec fn rows_described(rows: Seq<SavedMemoryAddress>, dialog: AddressDialog) -> Seq<SavedMemoryAddress> {
    if dialog.index < rows.len() {
        rows.update(dialog.index as int, SavedMemoryAddress {
            description: dialog.description,
            value_type: dialog.value_type,
            text_encoding: None,
            hexadecimal: dialog.hexadecimal,
            ..rows[dialog.index as int]
        })
    } else {
        rows
    }
}

/// Whether `after` is `before` with row `i` (when it exists) moved to `address` and
/// unfrozen, its pointer being `pointer` (a pointer of that model, or none).
pub open spec fn row_moved(before: Seq<SavedMemoryAddress>, after: Seq<SavedMemoryAddress>, i: usize, address: usize, pointer: Option<PointerModel>) -> bool {
    if i < before.len() {
        &&& after.len() == before.len()
        &&& forall|j: int| 0 <= j < before.len() && j != i ==> after[j] == before[j]
        &&& after[i as int] == (SavedMemoryAddress { address, frozen: None, pointer: after[i as int].pointer, ..before[i as int] })
        &&& match pointer {
            Some(m) => after[i as int].pointer matches Some(q) && q@ == m,
            None => after[i as int].pointer is None,
        }
    } else {
        after == before
    }
}

/// Writes the dialog's description, type and hexadecimal flag to its row.
fn describe_row(rows: &mut Vec<SavedMemoryAddress>, dialog: &AddressDialog)
    ensures
        final(rows)@ == rows_described(old(rows)@, *dialog),
{
    if dialog.index < rows.len() {
        let i = dialog.index;
        rows[i].description = dialog.description.clone();
        rows[i].value_type = dialog.value_type;
        rows[i].text_encoding = None;
        rows[i].hexadecimal = dialog.hexadecimal;
    }
}

/// Moves row `i` to `address`, unfrozen, with `pointer`.
fn move_row(rows: &mut Vec<SavedMemoryAddress>, i: usize, address: usize, pointer: Option<PointerSpec>)
    ensures
        row_moved(old(rows)@, final(rows)@, i, address, match pointer {
            Some(p) => Some(p@),
            None => None,
        }),
{
    if i < rows.len() {
        rows[i].address = address;
        rows[i].pointer = pointer;
        rows[i].frozen = None;
    }
}

impl CrosshairApp {
    /// Applies the address dialog to its row: the description, type and hexadecimal flag,
    /// then either a pointer (its address being where it leads, `resolved`, in the selected
    /// process, or 0) or a plain address, `+`/`-` offsets moving from the row's address;
    /// the row is unfrozen and the library written. Invalid offsets or an invalid address
    /// only set the status, after the description is written. `first_module` is as for
    /// `persist_memory_pointers`.
    pub fn apply_memory_address_dialog(&mut self, dialog: &AddressDialog, resolved: Option<usize>, first_module: Option<String>)
        ensures
            final(self).capture_hotkey_combo_keys == old(self).capture_hotkey_combo_keys,
            final(self).capture_hotkey_combo_vks == old(self).capture_hotkey_combo_vks,
            ({
                let p = old(self).memory_panel;
                let q = final(self).memory_panel;
                let rows = rows_described(p.saved@, *dialog);
                let i = dialog.index;
                let current: int = if i < p.saved@.len() { p.saved@[i as int].address as int } else { 0 };
                let outcome: Result<(usize, Option<PointerModel>), Seq<char>> = if dialog.pointer {
                    match dialog_pointer_spec(dialog.address@, dialog.offsets@) {
                        Err(e) => Err(e),
                        Ok(m) => Ok((
                            if p.process_pid is Some {
                                match resolved {
                                    Some(a) => a,
                                    None => 0usize,
                                }
                            } else {
                                0usize
                            },
                            Some(m),
                        )),
                    }
                } else {
                    match address_edit_spec(current, trim(dialog.address@)) {
                        None => Err("Invalid address"@),
                        Some(a) => Ok((a as usize, None)),
                    }
                };
                match outcome {
                    Err(e) => {
                        &&& q.saved@ == rows
                        &&& q.status@ == e
                        &&& q == (MemoryPanelState { saved: q.saved, status: q.status, ..p })
                        &&& final(self).state == old(self).state
                    },
                    Ok((a, m)) => {
                        &&& row_moved(rows, q.saved@, i, a, m)
                        &&& q == (MemoryPanelState { saved: q.saved, ..p })
                        &&& entries_view(final(self).state.memory_pointer_list@) == persisted(
                            entries_view(old(self).state.memory_pointer_list@),
                            q.saved@,
                            fallback_app_name(p.process_pid, string_opt(first_module)),
                        )
                        &&& final(self).state == (AppState { memory_pointer_list: final(self).state.memory_pointer_list, ..old(self).state })
                    },
                }
            }),
    {
        describe_row(&mut self.memory_panel.saved, dialog);
        let i = dialog.index;
        if dialog.pointer {
            let pointer = match address_dialog_pointer(dialog) {
                Ok(p) => p,
                Err(e) => {
                    self.memory_panel.status = e;
                    return;
                },
            };
            let address = match self.memory_panel.process_pid {
                Some(_) => match resolved {
                    Some(a) => a,
                    None => 0,
                },
                None => 0,
            };
            move_row(&mut self.memory_panel.saved, i, address, Some(pointer));
        } else {
            let current = if i < self.memory_panel.saved.len() {
                self.memory_panel.saved[i].address
            } else {
                0
            };
            let av = chars_of(dialog.address.as_str());
            assert(av@.subrange(0, av@.len() as int) == av@);
            let (a, b) = trim_bounds(&av, 0, av.len());
            let typed = string_of(&av, a, b);
            let base = match parse_address_edit(current, typed.as_str()) {
                Some(x) => x,
                None => {
                    self.memory_panel.status = owned("Invalid address");
                    return;
                },
            };
            move_row(&mut self.memory_panel.saved, i, base, None);
        }
        self.persist_memory_pointers(first_module);
    }
}

} // verus!
