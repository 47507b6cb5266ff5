//! Editing the value of saved rows: which rows an edit applies to, and what the rows,
//! the pending write checks and the status become once the writes were made.
use vstd::prelude::*;
use vstd::std_specs::hash::obeys_key_model;
use crate::scan::{ScanValue, ScanValueType};
use crate::saved::{PendingWriteCheck, SavedMemoryAddress, TextEncoding};
use crate::panel::{CrosshairApp, MemoryPanelState};
use crate::number::{dec_digits, push_dec_digits};
use crate::text::{owned, push_str};
use crate::scan::{editable_scan_value, editable_text_spec, parse_scan_value, scan_parse_spec, ScanParse, ScanParseModel};

verus! {

broadcast use vstd::std_specs::hash::group_hash_axioms;

/// What came of writing the edited value at one row.
pub struct TargetWrite {
    /// The row written.
    pub target: usize,
    /// Whether the write succeeded.
    pub written: bool,
    /// The value read back after a numeric write, when it could be read.
    pub observed: Option<ScanValue>,
}

/// The rows, and count of rows written, after a text edit: each successful write at a
/// row that holds text in `encoding` records `input` as the row's text.
pub open spec fn text_commit(rows: Seq<SavedMemoryAddress>, writes: Seq<TargetWrite>, encoding: TextEncoding, input: String) -> (Seq<SavedMemoryAddress>, nat)
    decreases writes.len(),
{
    if writes.len() == 0 {
        (rows, 0)
    } else {
        let (r, n) = text_commit(rows, writes.drop_last(), encoding, input);
        let w = writes.last();
        if w.target < r.len() && r[w.target as int].text_encoding == Some(encoding) && w.written {
            (r.update(w.target as int, SavedMemoryAddress { current_text: Some(input), ..r[w.target as int] }), n + 1)
        } else {
            (r, n)
        }
    }
}

/// The rows, the write checks added, and the count of rows written after a numeric edit
/// of `value`: each successful write at a numeric row of `value_type` records the value
/// read back (or `value`), queues a check that `value` stays, and moves a freeze to
/// `value`.
pub open spec fn value_commit(rows: Seq<SavedMemoryAddress>, writes: Seq<TargetWrite>, value_type: ScanValueType, value: ScanValue) -> (Seq<SavedMemoryAddress>, Seq<(usize, ScanValueType, ScanValue)>, nat)
    decreases writes.len(),
{
    if writes.len() == 0 {
        (rows, Seq::empty(), 0)
    } else {
        let (r, checks, n) = value_commit(rows, writes.drop_last(), value_type, value);
        let w = writes.last();
        if w.target < r.len() && r[w.target as int].text_encoding is None && r[w.target as int].value_type == value_type && w.written {
            let row = r[w.target as int];
            (
                r.update(w.target as int, SavedMemoryAddress {
                    current: Some(match w.observed {
                        Some(o) => o,
                        None => value,
                    }),
                    frozen: if row.frozen is Some {
                        Some(value)
                    } else {
                        None
                    },
                    ..row
                }),
                checks.push((row.address, row.value_type, value)),
                n + 1,
            )
        } else {
            (r, checks, n)
        }
    }
}

/// The address, type and expected value of each write check.
pub open spec fn checks_view(c: Seq<PendingWriteCheck>) -> Seq<(usize, ScanValueType, ScanValue)> {
    c.map_values(|k: PendingWriteCheck| (k.address, k.value_type, k.expected))
}

/// Whether `p` is `before` with the value editor closed after `count` rows were written.
pub open spec fn editor_closed(before: MemoryPanelState, p: MemoryPanelState, count: nat) -> bool {
    &&& p.edit_value_index is None
    &&& !p.edit_value_open
    &&& p.status@ == "Value written to "@ + dec_digits(count) + " address(es)"@
}

impl CrosshairApp {
    /// The rows an edit of row `index` applies to: every selected row when `index` is
    /// selected, else `index` alone.
    pub fn commit_targets(&self, index: usize) -> (r: Vec<usize>)
        ensures
            self.memory_panel.selected_saved@.contains(index) ==> r@.to_set() == self.memory_panel.selected_saved@ && r@.no_duplicates(),
            !self.memory_panel.selected_saved@.contains(index) ==> r@ == seq![index],
    {
        assert(obeys_key_model::<usize>());
        if !self.memory_panel.selected_saved.contains(&index) {
            let mut r: Vec<usize> = Vec::new();
            r.push(index);
            assert(r@ =~= seq![index]);
            return r;
        }
        crate::saved::set_elements(&self.memory_panel.selected_saved)
    }
}

/// Records `input` as the text of every row a successful text write reached.
fn commit_text_rows(rows: &mut Vec<SavedMemoryAddress>, writes: &[TargetWrite], enc: TextEncoding, input: &String) -> (written: u64)
    ensures
        (final(rows)@, written as nat) == text_commit(old(rows)@, writes@, enc, *input),
{
    let ghost ws = writes@;
    let ghost start = rows@;
    let mut written: u64 = 0;
    let mut i: usize = 0;
    while i < writes.len()
        invariant
            i <= ws.len(),
            ws == writes@,
            start == old(rows)@,
            written <= i,
            (rows@, written as nat) == text_commit(start, ws.subrange(0, i as int), enc, *input),
        decreases ws.len() - i,
    {
        proof {
            let pre = ws.subrange(0, i + 1);
            assert(pre.drop_last() == ws.subrange(0, i as int));
            assert(pre.last() == ws[i as int]);
        }
        let t = writes[i].target;
        if t < rows.len() && rows[t].text_encoding == Some(enc) && writes[i].written {
            rows[t].current_text = Some(input.clone());
            written = written + 1;
        }
        i = i + 1;
    }
    assert(ws.subrange(0, ws.len() as int) == ws);
    written
}

/// Records the value written at every row a successful numeric write reached, and
/// queues a check for each.
fn commit_value_rows(
    rows: &mut Vec<SavedMemoryAddress>,
    checks: &mut Vec<PendingWriteCheck>,
    writes: &[TargetWrite],
    vt: ScanValueType,
    v: ScanValue,
) -> (written: u64)
    ensures
        ({
            let (r, c, n) = value_commit(old(rows)@, writes@, vt, v);
            &&& final(rows)@ == r
            &&& checks_view(final(checks)@) == checks_view(old(checks)@) + c
            &&& written == n
        }),
{
    let ghost ws = writes@;
    let ghost start = rows@;
    let ghost start_checks = checks_view(checks@);
    let mut written: u64 = 0;
    let mut i: usize = 0;
    while i < writes.len()
        invariant
            i <= ws.len(),
            ws == writes@,
            start == old(rows)@,
            start_checks == checks_view(old(checks)@),
            written <= i,
            ({
                let (r, c, n) = value_commit(start, ws.subrange(0, i as int), vt, v);
                &&& rows@ == r
                &&& checks_view(checks@) == start_checks + c
                &&& written == n
            }),
        decreases ws.len() - i,
    {
        proof {
            let pre = ws.subrange(0, i + 1);
            assert(pre.drop_last() == ws.subrange(0, i as int));
            assert(pre.last() == ws[i as int]);
        }
        let t = writes[i].target;
        if t < rows.len() && rows[t].text_encoding.is_none() && rows[t].value_type == vt && writes[i].written {
            let ghost before_checks = checks@;
            let observed = match writes[i].observed {
                Some(o) => o,
                None => v,
            };
            let address = rows[t].address;
            rows[t].current = Some(observed);
            checks.push(PendingWriteCheck { address, value_type: vt, expected: v });
            if rows[t].frozen.is_some() {
                rows[t].frozen = Some(v);
            }
            assert(checks_view(checks@) =~= checks_view(before_checks).push((address, vt, v)));
            written = written + 1;
        }
        i = i + 1;
    }
    assert(ws.subrange(0, ws.len() as int) == ws);
    written
}

impl CrosshairApp {
    /// Finishes an edit of row `index` once the writes were made: `writes` are the
    /// outcomes of the writes `plan_saved_memory_writes` asked for, and `value` is the value
    /// that plan writes (for a numeric row). Only rows of the edited row's kind count.
    /// Without a process or row nothing happens; a numeric edit without a value only
    /// reports `Invalid value`.
    pub fn commit_saved_memory_value(&mut self, index: usize, value: Option<ScanValue>, writes: &[TargetWrite])
        ensures
            final(self).state == old(self).state,
            final(self).capture_hotkey_combo_keys == old(self).capture_hotkey_combo_keys,
            final(self).capture_hotkey_combo_vks == old(self).capture_hotkey_combo_vks,
            ({
                let p = old(self).memory_panel;
                let q = final(self).memory_panel;
                if p.process_pid is None || index >= p.saved@.len() {
                    q == p
                } else {
                    match p.saved@[index as int].text_encoding {
                        Some(enc) => {
                            let (rows, n) = text_commit(p.saved@, writes@, enc, p.edit_value_input);
                            &&& q.saved@ == rows
                            &&& editor_closed(p, q, n)
                            &&& q == (MemoryPanelState {
                                saved: q.saved,
                                edit_value_index: None,
                                edit_value_open: false,
                                status: q.status,
                                ..p
                            })
                        },
                        None => match value {
                            None => q.status@ == "Invalid value"@ && q == (MemoryPanelState { status: q.status, ..p }),
                            Some(v) => {
                                let (rows, checks, n) = value_commit(p.saved@, writes@, p.saved@[index as int].value_type, v);
                                &&& q.saved@ == rows
                                &&& checks_view(q.pending_write_checks@) == checks_view(p.pending_write_checks@) + checks
                                &&& editor_closed(p, q, n)
                                &&& q == (MemoryPanelState {
                                    saved: q.saved,
                                    pending_write_checks: q.pending_write_checks,
                                    edit_value_index: None,
                                    edit_value_open: false,
                                    status: q.status,
                                    ..p
                                })
                            },
                        },
                    }
                }
            }),
    {
        if self.memory_panel.process_pid.is_none() || index >= self.memory_panel.saved.len() {
            return;
        }
        let written: u64 = match self.memory_panel.saved[index].text_encoding {
            Some(enc) => {
                let input = self.memory_panel.edit_value_input.clone();
                commit_text_rows(&mut self.memory_panel.saved, writes, enc, &input)
            },
            None => {
                let v = match value {
                    Some(v) => v,
                    None => {
                        self.memory_panel.status = owned("Invalid value");
                        return;
                    },
                };
                let vt = self.memory_panel.saved[index].value_type;
                commit_value_rows(&mut self.memory_panel.saved, &mut self.memory_panel.pending_write_checks, writes, vt, v)
            },
        };
        self.memory_panel.edit_value_index = None;
        self.memory_panel.edit_value_open = false;
        let mut status = owned("Value written to ");
        push_dec_digits(&mut status, written);
        push_str(&mut status, " address(es)");
        self.memory_panel.status = status;
    }
}

/// The text the value editor starts with for a row: its text, else its value as
/// `editable_scan_value` writes it (for a float in decimal, `float_text`), else nothing.
pub open spec fn edit_start_text(r: SavedMemoryAddress, hex: bool, float_text: Option<String>) -> Seq<char> {
    match r.current_text {
        Some(t) => t@,
        None => match r.current {
            Some(v) => match editable_text_spec(v, hex) {
                Some(t) => t,
                None => match float_text {
                    Some(f) => f@,
                    None => Seq::empty(),
                },
            },
            None => Seq::empty(),
        },
    }
}

impl CrosshairApp {
    /// Opens the value editor on row `index`, when it exists. `float_text` is the row's
    /// float value in compact decimal, which the editor shows for a float in decimal mode.
    pub fn begin_saved_memory_value_edit(&mut self, index: usize, float_text: Option<String>)
        ensures
            final(self).state == old(self).state,
            final(self).capture_hotkey_combo_keys == old(self).capture_hotkey_combo_keys,
            final(self).capture_hotkey_combo_vks == old(self).capture_hotkey_combo_vks,
            index >= old(self).memory_panel.saved@.len() ==> final(self).memory_panel == old(self).memory_panel,
            index < old(self).memory_panel.saved@.len() ==> {
                &&& final(self).memory_panel.edit_value_input@ == edit_start_text(
                    old(self).memory_panel.saved@[index as int],
                    old(self).memory_panel.hex,
                    float_text,
                )
                &&& final(self).memory_panel == (MemoryPanelState {
                    edit_value_index: Some(index),
                    edit_value_input: final(self).memory_panel.edit_value_input,
                    edit_value_open: true,
                    ..old(self).memory_panel
                })
            },
    {
        if index >= self.memory_panel.saved.len() {
            return;
        }
        let hex = self.memory_panel.hex;
        let input = match &self.memory_panel.saved[index].current_text {
            Some(t) => t.clone(),
            None => match self.memory_panel.saved[index].current {
                Some(v) => match editable_scan_value(v, hex) {
                    Some(t) => t,
                    None => match float_text {
                        Some(f) => f,
                        None => String::new(),
                    },
                },
                None => String::new(),
            },
        };
        self.memory_panel.edit_value_index = Some(index);
        self.memory_panel.edit_value_input = input;
        self.memory_panel.edit_value_open = true;
    }
}

/// A write an edit asks for: the row and the address to write at, and the byte length
/// of its text for a text row.
pub struct EditWrite {
    pub target: usize,
    pub address: usize,
    pub text_byte_len: usize,
}

/// The writes an edit asks for: the edited text in the text encoding of the edited row,
/// or the edited value of the numeric row's type.
pub enum EditWrites {
    Text { encoding: TextEncoding, text: String, writes: Vec<EditWrite> },
    Value { value_type: ScanValueType, value: ScanValue, writes: Vec<EditWrite> },
}

/// The rows an edit of row `index` applies to.
pub open spec fn edit_target_set(p: MemoryPanelState, index: usize) -> Set<usize> {
    if p.selected_saved@.contains(index) {
        p.selected_saved@
    } else {
        set![index]
    }
}

/// Whether row `t` takes an edit of row `index`: it exists and is of the same kind, a
/// text row in the same encoding or a numeric row of the same type.
pub open spec fn takes_edit(rows: Seq<SavedMemoryAddress>, index: usize, t: usize) -> bool {
    &&& t < rows.len()
    &&& match rows[index as int].text_encoding {
        Some(enc) => rows[t as int].text_encoding == Some(enc),
        None => rows[t as int].text_encoding is None && rows[t as int].value_type == rows[index as int].value_type,
    }
}

/// Whether `writes` asks, once each, for a write at every target row of an edit of row
/// `index` that takes it, at the row's address.
pub open spec fn writes_planned(p: MemoryPanelState, index: usize, writes: Seq<EditWrite>) -> bool {
    &&& forall|i: int, j: int| 0 <= i < j < writes.len() ==> (#[trigger] writes[i]).target != (#[trigger] writes[j]).target
    &&& forall|i: int| 0 <= i < writes.len() ==> {
        let w = #[trigger] writes[i];
        &&& edit_target_set(p, index).contains(w.target)
        &&& takes_edit(p.saved@, index, w.target)
        &&& w.address == p.saved@[w.target as int].address
        &&& w.text_byte_len == p.saved@[w.target as int].text_byte_len
    }
    &&& forall|t: usize| #[trigger] edit_target_set(p, index).contains(t) && takes_edit(p.saved@, index, t)
        ==> exists|i: int| 0 <= i < writes.len() && writes[i].target == t
}

/// The value an edit of numeric row `index` writes: the edited text as
/// `parse_scan_value` reads it for the row's type, or, where it defers to the
/// floating-point step, what that step gave.
pub open spec fn edit_value(p: MemoryPanelState, index: usize, evaluated: Option<ScanValue>) -> Option<ScanValue> {
    match scan_parse_spec(p.edit_value_input@, p.saved@[index as int].value_type, p.hex) {
        ScanParseModel::Parsed(v) => Some(v),
        ScanParseModel::Invalid => None,
        _ => evaluated,
    }
}

impl CrosshairApp {
    /// The writes an edit of row `index` asks for before anything is written. For a
    /// numeric row the edited text is read by `parse_scan_value`; where that defers to the
    /// floating-point step (an expression or a float type), `evaluated` is what the step
    /// gave. None without a process or row; for a numeric row whose text is no value, none
    /// either, and the status says `Invalid value`: then nothing is to be written.
    pub fn plan_saved_memory_writes(&mut self, index: usize, evaluated: Option<ScanValue>) -> (r: Option<EditWrites>)
        ensures
            final(self).state == old(self).state,
            final(self).capture_hotkey_combo_keys == old(self).capture_hotkey_combo_keys,
            final(self).capture_hotkey_combo_vks == old(self).capture_hotkey_combo_vks,
            ({
                let p = old(self).memory_panel;
                let q = final(self).memory_panel;
                if p.process_pid is None || index >= p.saved@.len() {
                    r is None && q == p
                } else {
                    match p.saved@[index as int].text_encoding {
                        Some(enc) => q == p && match r {
                            Some(EditWrites::Text { encoding, text, writes }) => encoding == enc && text@ == p.edit_value_input@
                                && writes_planned(p, index, writes@),
                            _ => false,
                        },
                        None => match edit_value(p, index, evaluated) {
                            None => r is None && q.status@ == "Invalid value"@ && q == (MemoryPanelState { status: q.status, ..p }),
                            Some(v) => q == p && match r {
                                Some(EditWrites::Value { value_type, value: wv, writes }) => value_type == p.saved@[index as int].value_type
                                    && wv == v && writes_planned(p, index, writes@),
                                _ => false,
                            },
                        },
                    }
                }
            }),
    {
        if self.memory_panel.process_pid.is_none() || index >= self.memory_panel.saved.len() {
            return None;
        }
        let text_row = self.memory_panel.saved[index].text_encoding;
        let v = match text_row {
            Some(_) => None,
            None => {
                let parse = parse_scan_value(
                    self.memory_panel.edit_value_input.as_str(),
                    self.memory_panel.saved[index].value_type,
                    self.memory_panel.hex,
                );
                let value = match parse {
                    ScanParse::Parsed(v) => Some(v),
                    ScanParse::Invalid => None,
                    _ => evaluated,
                };
                match value {
                    Some(v) => Some(v),
                    None => {
                        self.memory_panel.status = owned("Invalid value");
                        return None;
                    },
                }
            },
        };
        let targets = self.commit_targets(index);
        proof {
            assert(targets@.to_set() == edit_target_set(self.memory_panel, index)) by {
                if !self.memory_panel.selected_saved@.contains(index) {
                    assert(targets@.to_set() =~= set![index]) by {
                        assert(targets@[0] == index);
                    }
                }
            }
            if !self.memory_panel.selected_saved@.contains(index) {
                assert(targets@.no_duplicates());
            }
        }
        let writes = planned_writes(&self.memory_panel.saved, index, &targets);
        match text_row {
            Some(enc) => Some(EditWrites::Text { encoding: enc, text: self.memory_panel.edit_value_input.clone(), writes }),
            None => Some(EditWrites::Value {
                value_type: self.memory_panel.saved[index].value_type,
                value: v.unwrap(),
                writes,
            }),
        }
    }
}

/// The writes at the rows `targets` that take an edit of row `index`, in order.
fn planned_writes(rows: &Vec<SavedMemoryAddress>, index: usize, targets: &Vec<usize>) -> (w: Vec<EditWrite>)
    requires
        index < rows@.len(),
        targets@.no_duplicates(),
    ensures
        forall|i: int, j: int| 0 <= i < j < w@.len() ==> (#[trigger] w@[i]).target != (#[trigger] w@[j]).target,
        forall|i: int| 0 <= i < w@.len() ==> {
            let x = #[trigger] w@[i];
            &&& targets@.contains(x.target)
            &&& takes_edit(rows@, index, x.target)
            &&& x.address == rows@[x.target as int].address
            &&& x.text_byte_len == rows@[x.target as int].text_byte_len
        },
        forall|t: usize| #[trigger] targets@.contains(t) && takes_edit(rows@, index, t)
            ==> exists|i: int| 0 <= i < w@.len() && w@[i].target == t,
{
    let mut w: Vec<EditWrite> = Vec::new();
    let mut k: usize = 0;
    while k < targets.len()
        invariant
            k <= targets@.len(),
            index < rows@.len(),
            targets@.no_duplicates(),
            forall|i: int| 0 <= i < w@.len() ==> exists|j: int| 0 <= j < k && targets@[j] == (#[trigger] w@[i]).target,
            forall|i: int, j: int| 0 <= i < j < w@.len() ==> (#[trigger] w@[i]).target != (#[trigger] w@[j]).target,
            forall|i: int| 0 <= i < w@.len() ==> {
                let x = #[trigger] w@[i];
                &&& targets@.contains(x.target)
                &&& takes_edit(rows@, index, x.target)
                &&& x.address == rows@[x.target as int].address
                &&& x.text_byte_len == rows@[x.target as int].text_byte_len
            },
            forall|j: int| 0 <= j < k && takes_edit(rows@, index, #[trigger] targets@[j])
                ==> exists|i: int| 0 <= i < w@.len() && w@[i].target == targets@[j],
        decreases targets@.len() - k,
    {
        let t = targets[k];
        let ghost w0 = w@;
        let same = t < rows.len() && match rows[index].text_encoding {
            Some(enc) => rows[t].text_encoding == Some(enc),
            None => rows[t].text_encoding.is_none() && rows[t].value_type == rows[index].value_type,
        };
        if same {
            let ghost before = w@;
            w.push(EditWrite { target: t, address: rows[t].address, text_byte_len: rows[t].text_byte_len });
            assert forall|i: int, j: int| 0 <= i < j < w@.len() implies (#[trigger] w@[i]).target != (#[trigger] w@[j]).target by {
                if j == w@.len() - 1 {
                    let m = choose|m: int| 0 <= m < k && targets@[m] == before[i].target;
                    assert(targets@[m] != targets@[k as int]);
                }
            }
            assert(w@[w@.len() - 1].target == targets@[k as int]);
        }
        assert(targets@.contains(t));
        assert forall|j: int| 0 <= j < k + 1 && takes_edit(rows@, index, #[trigger] targets@[j])
            implies exists|i: int| 0 <= i < w@.len() && w@[i].target == targets@[j] by {
            if j < k {
                let i = choose|i: int| 0 <= i < w0.len() && w0[i].target == targets@[j];
                assert(w@[i] == w0[i]);
            } else {
                assert(same);
                assert(w@[w@.len() - 1].target == targets@[j]);
            }
        }
        assert forall|i: int| 0 <= i < w@.len() implies exists|j: int| 0 <= j < k + 1 && targets@[j] == (#[trigger] w@[i]).target by {
            if i < w0.len() {
                assert(w@[i] == w0[i]);
                let j = choose|j: int| 0 <= j < k && targets@[j] == w0[i].target;
            } else {
                assert(w@[i].target == targets@[k as int]);
            }
        }
        k = k + 1;
    }
    assert forall|t: usize| #[trigger] targets@.contains(t) && takes_edit(rows@, index, t)
        implies exists|i: int| 0 <= i < w@.len() && w@[i].target == t by {
        let j = choose|j: int| 0 <= j < targets@.len() && targets@[j] == t;
    }
    w
}

} // verus!
