//! Scan jobs and their results: clearing a scan, taking in a finished job, and saving
//! selected results or watched addresses as rows of the saved list.
use vstd::prelude::*;
use vstd::std_specs::hash::obeys_key_model;
use crate::scan::{MemoryScanAction, ScanValue, ScanValueType};
use crate::saved::{SavedMemoryAddress, ScanCandidate, TextEncoding, TextScanCandidate};
use crate::panel::{AppState, CrosshairApp, MemoryPanelState};
use crate::number::{dec_digits, push_dec_digits};
use crate::address::format_prefixed_memory_address;
use crate::number::hex_padded;
use crate::text::{chars_of, owned, push_str};
use crate::pointer::{format_pointer_expression, parse_pointer_expression, pointer_expression_spec, pointer_root_text, with_offsets, PointerModel, PointerSpec};
use crate::address::{address_spec, parse_memory_address};

verus! {

broadcast use vstd::std_specs::hash::group_hash_axioms;

/// The results a scan job produced.
pub enum ScanJobCandidates {
    Numeric(Vec<ScanCandidate>),
    Text(Vec<TextScanCandidate>),
}

/// A finished scan job: the process it scanned, the action, and its results or error.
pub struct ScanJobOutcome {
    pub pid: u32,
    pub action: MemoryScanAction,
    pub result: Result<ScanJobCandidates, String>,
}

/// The label of an action, as its button shows it.
pub open spec fn action_label(a: MemoryScanAction) -> Seq<char> {
    match a {
        MemoryScanAction::FirstScan => "First scan"@,
        MemoryScanAction::Unknown => "Unknown"@,
        MemoryScanAction::Exact => "New value"@,
        MemoryScanAction::Increased => "Increased"@,
        MemoryScanAction::Decreased => "Decreased"@,
        MemoryScanAction::Changed => "Changed"@,
        MemoryScanAction::Unchanged => "Unchanged"@,
        MemoryScanAction::Less => "Less than"@,
        MemoryScanAction::Greater => "Greater than"@,
        MemoryScanAction::Between => "Between"@,
    }
}

/// Whether `p` is `before` with its scan cleared and `status` shown.
pub open spec fn scan_cleared(before: MemoryPanelState, p: MemoryPanelState, status: Seq<char>) -> bool {
    &&& p.candidates@.len() == 0
    &&& p.live_candidate_values@ == Map::<usize, ScanValue>::empty()
    &&& p.text_candidates@.len() == 0
    &&& p.selected_results@ == Set::<usize>::empty()
    &&& p.marked_result_addresses@ == Set::<usize>::empty()
    &&& p.visible_scan_ranges@ == seq![None::<(usize, usize)>, None]
    &&& p.pending_write_checks@.len() == 0
    &&& p.status@ == status
    &&& p.last_action@ == status
    &&& p == (MemoryPanelState {
        job_pending: false,
        scanning: false,
        candidates: p.candidates,
        live_candidate_values: p.live_candidate_values,
        text_candidates: p.text_candidates,
        selected_results: p.selected_results,
        marked_result_addresses: p.marked_result_addresses,
        selection_anchor: None,
        visible_scan_ranges: p.visible_scan_ranges,
        pending_write_checks: p.pending_write_checks,
        has_scan_session: false,
        status: p.status,
        last_action: p.last_action,
        ..before
    })
}

/// What taking in a received job outcome does to the panel.
pub open spec fn job_taken(before: MemoryPanelState, p: MemoryPanelState, received: Option<ScanJobOutcome>) -> bool {
    match received {
        None => p == before,
        Some(o) => if !before.job_pending {
            p == before
        } else if before.process_pid != Some(o.pid) {
            p == (MemoryPanelState { job_pending: false, scanning: false, ..before })
        } else {
            match o.result {
                Ok(ScanJobCandidates::Numeric(c)) => {
                    &&& p.candidates@ == c@
                    &&& p.live_candidate_values@ == Map::<usize, ScanValue>::empty()
                    &&& p.text_candidates@.len() == 0
                    &&& p.status@ == action_label(o.action) + " — "@ + dec_digits(c@.len()) + " result(s)"@
                    &&& p == (MemoryPanelState {
                        job_pending: false,
                        scanning: false,
                        candidates: p.candidates,
                        live_candidate_values: p.live_candidate_values,
                        text_candidates: p.text_candidates,
                        status: p.status,
                        ..before
                    })
                },
                Ok(ScanJobCandidates::Text(c)) => {
                    &&& p.text_candidates@ == c@
                    &&& p.candidates@.len() == 0
                    &&& p.live_candidate_values@ == Map::<usize, ScanValue>::empty()
                    &&& p.status@ == action_label(o.action) + " — "@ + dec_digits(c@.len()) + " text result(s)"@
                    &&& p == (MemoryPanelState {
                        job_pending: false,
                        scanning: false,
                        candidates: p.candidates,
                        live_candidate_values: p.live_candidate_values,
                        text_candidates: p.text_candidates,
                        status: p.status,
                        ..before
                    })
                },
                Err(e) => {
                    &&& p.status@ == action_label(o.action) + " failed: "@ + e@
                    &&& p == (MemoryPanelState { job_pending: false, scanning: false, status: p.status, ..before })
                },
            }
        },
    }
}

impl CrosshairApp {
    /// Drops the scan in progress and its results, and shows `status`.
    pub fn reset_memory_scan(&mut self, status: &str)
        ensures
            scan_cleared(old(self).memory_panel, final(self).memory_panel, status@),
            final(self).state == old(self).state,
            final(self).capture_hotkey_combo_keys == old(self).capture_hotkey_combo_keys,
            final(self).capture_hotkey_combo_vks == old(self).capture_hotkey_combo_vks,
    {
        self.memory_panel.job_pending = false;
        self.memory_panel.scanning = false;
        self.memory_panel.candidates.clear();
        self.memory_panel.live_candidate_values.clear();
        self.memory_panel.text_candidates.clear();
        self.memory_panel.selected_results.clear();
        self.memory_panel.marked_result_addresses.clear();
        self.memory_panel.selection_anchor = None;
        self.memory_panel.visible_scan_ranges = [None, None];
        self.memory_panel.pending_write_checks.clear();
        self.memory_panel.has_scan_session = false;
        self.memory_panel.status = owned(status);
        self.memory_panel.last_action = owned(status);
        assert(self.memory_panel.visible_scan_ranges@ =~= seq![None::<(usize, usize)>, None]);
    }

    /// Takes in the outcome of the running scan job, when one has arrived: the job ends,
    /// and when it scanned the selected process its results replace the old ones.
    pub fn poll_memory_job(&mut self, received: Option<ScanJobOutcome>)
        ensures
            job_taken(old(self).memory_panel, final(self).memory_panel, received),
            final(self).state == old(self).state,
            final(self).capture_hotkey_combo_keys == old(self).capture_hotkey_combo_keys,
            final(self).capture_hotkey_combo_vks == old(self).capture_hotkey_combo_vks,
    {
        if !self.memory_panel.job_pending {
            return;
        }
        let outcome = match received {
            Some(o) => o,
            None => return,
        };
        self.memory_panel.job_pending = false;
        self.memory_panel.scanning = false;
        if self.memory_panel.process_pid != Some(outcome.pid) {
            return;
        }
        let action = outcome.action;
        let mut status = owned(action.label());
        match outcome.result {
            Ok(ScanJobCandidates::Numeric(candidates)) => {
                let count = candidates.len();
                self.memory_panel.candidates = candidates;
                self.memory_panel.live_candidate_values.clear();
                self.memory_panel.text_candidates.clear();
                push_str(&mut status, " — ");
                push_dec_digits(&mut status, count as u64);
                push_str(&mut status, " result(s)");
            },
            Ok(ScanJobCandidates::Text(candidates)) => {
                let count = candidates.len();
                self.memory_panel.text_candidates = candidates;
                self.memory_panel.candidates.clear();
                self.memory_panel.live_candidate_values.clear();
                push_str(&mut status, " — ");
                push_dec_digits(&mut status, count as u64);
                push_str(&mut status, " text result(s)");
            },
            Err(error) => {
                push_str(&mut status, " failed: ");
                push_str(&mut status, error.as_str());
            },
        }
        self.memory_panel.status = status;
    }
}

/// The number of UTF-8 bytes of a character.
pub open spec fn utf8_width(c: char) -> nat {
    if (c as u32) < 0x80 {
        1
    } else if (c as u32) < 0x800 {
        2
    } else if (c as u32) < 0x10000 {
        3
    } else {
        4
    }
}

/// The number of UTF-8 bytes of a text, as `str::len` counts them.
pub open spec fn utf8_len(s: Seq<char>) -> nat
    decreases s.len(),
{
    if s.len() == 0 {
        0
    } else {
        utf8_len(s.drop_last()) + utf8_width(s.last())
    }
}

/// The number of UTF-16 code units of a text, as `encode_utf16().count()` counts them.
pub open spec fn utf16_len(s: Seq<char>) -> nat
    decreases s.len(),
{
    if s.len() == 0 {
        0
    } else {
        utf16_len(s.drop_last()) + (if (s.last() as u32) < 0x10000 {
            1nat
        } else {
            2nat
        })
    }
}

/// A text needs at least as many UTF-8 bytes as UTF-16 code units.
pub proof fn lemma_utf16_le_utf8(s: Seq<char>)
    ensures
        utf16_len(s) <= utf8_len(s),
    decreases s.len(),
{
    if s.len() > 0 {
        lemma_utf16_le_utf8(s.drop_last());
    }
}

/// The UTF-8 byte length and the UTF-16 code-unit count of `t`.
fn encoded_lengths(t: &str) -> (r: (usize, usize))
    requires
        utf8_len(t@) <= isize::MAX,
    ensures
        r.0 == utf8_len(t@),
        r.1 == utf16_len(t@),
{
    let v = chars_of(t);
    let mut bytes: usize = 0;
    let mut units: usize = 0;
    let mut i: usize = 0;
    while i < v.len()
        invariant
            v@ == t@,
            utf8_len(t@) <= isize::MAX,
            i <= v@.len(),
            bytes == utf8_len(v@.subrange(0, i as int)),
            units == utf16_len(v@.subrange(0, i as int)),
        decreases v@.len() - i,
    {
        let c = v[i];
        let code = c as u32;
        proof {
            let pre = v@.subrange(0, i + 1);
            assert(pre.drop_last() == v@.subrange(0, i as int));
            assert(pre.last() == c);
            lemma_utf8_prefix(v@, i + 1);
            lemma_utf16_le_utf8(pre);
        }
        let width: usize = if code < 0x80 {
            1
        } else if code < 0x800 {
            2
        } else if code < 0x10000 {
            3
        } else {
            4
        };
        bytes = bytes + width;
        units = units + if code < 0x10000 {
            1
        } else {
            2
        };
        i = i + 1;
    }
    assert(v@.subrange(0, v@.len() as int) == v@);
    (bytes, units)
}

/// A prefix needs no more UTF-8 bytes than the whole text.
pub proof fn lemma_utf8_prefix(s: Seq<char>, n: int)
    requires
        0 <= n <= s.len(),
    ensures
        utf8_len(s.subrange(0, n)) <= utf8_len(s),
    decreases s.len() - n,
{
    if n < s.len() {
        lemma_utf8_prefix(s, n + 1);
        let pre = s.subrange(0, n + 1);
        assert(pre.drop_last() == s.subrange(0, n));
    } else {
        assert(s.subrange(0, n) == s);
    }
}

/// Whether `r` is a fresh numeric row for `address` of type `value_type` holding `current`.
pub open spec fn plain_row(r: SavedMemoryAddress, address: usize, value_type: ScanValueType, current: Option<ScanValue>) -> bool {
    &&& r.address == address
    &&& r.value_type == value_type
    &&& r.current == current
    &&& r.text_encoding is None
    &&& r.text_byte_len == 0
    &&& r.current_text is None
    &&& r.description@ == Seq::<char>::empty()
    &&& r.group@ == Seq::<char>::empty()
    &&& !r.hexadecimal
    &&& r.pointer is None
    &&& r.frozen is None
    &&& !r.saved_to_library
}

/// Whether `r` is a fresh text row for the text result `t` read in `encoding`.
pub open spec fn text_row(r: SavedMemoryAddress, t: TextScanCandidate, encoding: Option<TextEncoding>) -> bool {
    let utf16 = encoding == Some(TextEncoding::Utf16);
    &&& r.address == t.address
    &&& r.value_type == ScanValueType::I8
    &&& r.current is None
    &&& r.text_encoding == encoding
    &&& r.text_byte_len == (if utf16 {
        2 * utf16_len(t.current@)
    } else {
        utf8_len(t.current@)
    })
    &&& r.current_text == Some(t.current)
    &&& r.description@ == (if utf16 {
        "Text (UTF-16)"@
    } else {
        "Text (UTF-8)"@
    })
    &&& r.group@ == Seq::<char>::empty()
    &&& !r.hexadecimal
    &&& r.pointer is None
    &&& r.frozen is None
    &&& !r.saved_to_library
}

/// Where a row added from the results comes from.
pub enum ResultSource {
    /// The text result with this index.
    Text(int),
    /// The numeric result with this index.
    Numeric(int),
}

/// The address and value type of the row a source adds.
pub open spec fn source_key(src: ResultSource, text: Seq<TextScanCandidate>, cands: Seq<ScanCandidate>, vt: ScanValueType) -> (usize, ScanValueType) {
    match src {
        ResultSource::Text(k) => (text[k].address, ScanValueType::I8),
        ResultSource::Numeric(k) => (cands[k].address, vt),
    }
}

/// The address and value type of each row.
pub open spec fn row_keys(rows: Seq<SavedMemoryAddress>) -> Seq<(usize, ScanValueType)> {
    rows.map_values(|r: SavedMemoryAddress| (r.address, r.value_type))
}

/// The rows that saving the selected results adds, for the selected indices below `upto`
/// taken in increasing order: a text result unless a row already has its address, else a
/// numeric result unless a row already has its address and the panel's value type.
pub open spec fn result_sources(
    upto: nat,
    sel: Set<usize>,
    text: Seq<TextScanCandidate>,
    cands: Seq<ScanCandidate>,
    vt: ScanValueType,
    existing: Seq<(usize, ScanValueType)>,
) -> Seq<ResultSource>
    decreases upto,
{
    if upto == 0 {
        Seq::empty()
    } else {
        let prev = result_sources((upto - 1) as nat, sel, text, cands, vt, existing);
        let k = upto - 1;
        let keys = existing + prev.map_values(|s: ResultSource| source_key(s, text, cands, vt));
        if !sel.contains(k as usize) {
            prev
        } else if k < text.len() {
            if exists|i: int| 0 <= i < keys.len() && (#[trigger] keys[i]).0 == text[k].address {
                prev
            } else {
                prev.push(ResultSource::Text(k))
            }
        } else if k < cands.len() {
            if exists|i: int| 0 <= i < keys.len() && #[trigger] keys[i] == (cands[k].address, vt) {
                prev
            } else {
                prev.push(ResultSource::Numeric(k))
            }
        } else {
            prev
        }
    }
}

/// Whether `after` is `before` with one row appended for each source, in order.
pub open spec fn rows_added(
    before: Seq<SavedMemoryAddress>,
    after: Seq<SavedMemoryAddress>,
    sources: Seq<ResultSource>,
    text: Seq<TextScanCandidate>,
    cands: Seq<ScanCandidate>,
    vt: ScanValueType,
    encoding: Option<TextEncoding>,
) -> bool {
    &&& after.len() == before.len() + sources.len()
    &&& after.subrange(0, before.len() as int) == before
    &&& forall|j: int| 0 <= j < sources.len() ==> match #[trigger] sources[j] {
        ResultSource::Text(k) => text_row(after[before.len() + j], text[k], encoding),
        ResultSource::Numeric(k) => plain_row(after[before.len() + j], cands[k].address, vt, Some(cands[k].value)),
    }
}

/// Whether a row of `rows` is at `address` (and, when `vt` is given, of that type).
fn has_row(rows: &Vec<SavedMemoryAddress>, address: usize, vt: Option<ScanValueType>) -> (b: bool)
    ensures
        b == (exists|i: int| 0 <= i < rows@.len() && (#[trigger] row_keys(rows@)[i]).0 == address
            && (vt is None || row_keys(rows@)[i].1 == vt.unwrap())),
{
    let mut i: usize = 0;
    while i < rows.len()
        invariant
            i <= rows@.len(),
            forall|k: int| 0 <= k < i ==> !((#[trigger] row_keys(rows@)[k]).0 == address
                && (vt is None || row_keys(rows@)[k].1 == vt.unwrap())),
        decreases rows@.len() - i,
    {
        let found = rows[i].address == address && match vt {
            Some(t) => rows[i].value_type == t,
            None => true,
        };
        if found {
            assert(row_keys(rows@)[i as int] == (rows@[i as int].address, rows@[i as int].value_type));
            return true;
        }
        assert(row_keys(rows@)[i as int] == (rows@[i as int].address, rows@[i as int].value_type));
        i = i + 1;
    }
    false
}

impl CrosshairApp {
    /// Saves the selected scan results, in increasing order of their index, as rows of the
    /// saved list, skipping those already saved; the status tells how many rows there are.
    #[verifier::rlimit(40)]
    pub fn add_selected_memory_results(&mut self)
        requires
            forall|k: int| 0 <= k < old(self).memory_panel.text_candidates@.len()
                ==> utf8_len((#[trigger] old(self).memory_panel.text_candidates@[k]).current@) <= isize::MAX,
        ensures
            ({
                let p = old(self).memory_panel;
                let upto = if p.text_candidates@.len() > p.candidates@.len() {
                    p.text_candidates@.len()
                } else {
                    p.candidates@.len()
                };
                let sources = result_sources(upto, p.selected_results@, p.text_candidates@, p.candidates@, p.value_type, row_keys(p.saved@));
                rows_added(p.saved@, final(self).memory_panel.saved@, sources, p.text_candidates@, p.candidates@, p.value_type, p.text_encoding)
            }),
            final(self).memory_panel.status@ == dec_digits(final(self).memory_panel.saved@.len()) + " address(es) saved"@,
            final(self).memory_panel == (MemoryPanelState {
                saved: final(self).memory_panel.saved,
                status: final(self).memory_panel.status,
                ..old(self).memory_panel
            }),
            final(self).state == old(self).state,
            final(self).capture_hotkey_combo_keys == old(self).capture_hotkey_combo_keys,
            final(self).capture_hotkey_combo_vks == old(self).capture_hotkey_combo_vks,
    {
        assert(obeys_key_model::<usize>());
        let ghost p0 = self.memory_panel;
        let ghost text = self.memory_panel.text_candidates@;
        let ghost cands = self.memory_panel.candidates@;
        let vt = self.memory_panel.value_type;
        let encoding = self.memory_panel.text_encoding;
        let upto = if self.memory_panel.text_candidates.len() > self.memory_panel.candidates.len() {
            self.memory_panel.text_candidates.len()
        } else {
            self.memory_panel.candidates.len()
        };
        let ghost existing = row_keys(p0.saved@);
        assert(p0.saved@.subrange(0, p0.saved@.len() as int) == p0.saved@);
        assert(row_keys(self.memory_panel.saved@) =~= existing + Seq::<ResultSource>::empty().map_values(|s: ResultSource| source_key(s, text, cands, vt)));
        let mut k: usize = 0;
        while k < upto
            invariant
                obeys_key_model::<usize>(),
                k <= upto,
                text == self.memory_panel.text_candidates@,
                cands == self.memory_panel.candidates@,
                vt == self.memory_panel.value_type,
                encoding == self.memory_panel.text_encoding,
                existing == row_keys(p0.saved@),
                forall|i: int| 0 <= i < text.len() ==> utf8_len((#[trigger] text[i]).current@) <= isize::MAX,
                self.memory_panel == (MemoryPanelState { saved: self.memory_panel.saved, ..p0 }),
                self.state == old(self).state,
                self.capture_hotkey_combo_keys == old(self).capture_hotkey_combo_keys,
                self.capture_hotkey_combo_vks == old(self).capture_hotkey_combo_vks,
                rows_added(p0.saved@, self.memory_panel.saved@, result_sources(k as nat, p0.selected_results@, text, cands, vt, existing), text, cands, vt, encoding),
                row_keys(self.memory_panel.saved@) == existing + result_sources(k as nat, p0.selected_results@, text, cands, vt, existing).map_values(|s: ResultSource| source_key(s, text, cands, vt)),
            decreases upto - k,
        {
            let ghost prev = result_sources(k as nat, p0.selected_results@, text, cands, vt, existing);
            let ghost rows_before = self.memory_panel.saved@;
            if self.memory_panel.selected_results.contains(&k) {
                if k < self.memory_panel.text_candidates.len() {
                    let address = self.memory_panel.text_candidates[k].address;
                    if !has_row(&self.memory_panel.saved, address, None) {
                        let (bytes, units) = encoded_lengths(self.memory_panel.text_candidates[k].current.as_str());
                        let utf16 = match encoding {
                            Some(TextEncoding::Utf16) => true,
                            _ => false,
                        };
                        proof {
                            lemma_utf16_le_utf8(text[k as int].current@);
                            reveal_strlit("Text (UTF-16)");
                            reveal_strlit("Text (UTF-8)");
                        }
                        let row = SavedMemoryAddress {
                            address,
                            value_type: ScanValueType::I8,
                            current: None,
                            text_encoding: encoding,
                            text_byte_len: if utf16 {
                                units * 2
                            } else {
                                bytes
                            },
                            current_text: Some(self.memory_panel.text_candidates[k].current.clone()),
                            description: if utf16 {
                                owned("Text (UTF-16)")
                            } else {
                                owned("Text (UTF-8)")
                            },
                            group: String::new(),
                            hexadecimal: false,
                            pointer: None,
                            frozen: None,
                            saved_to_library: false,
                        };
                        self.memory_panel.saved.push(row);
                        proof {
                            assert(self.memory_panel.saved@.subrange(0, rows_before.len() as int) =~= rows_before);
                            lemma_rows_step(p0.saved@, rows_before, self.memory_panel.saved@, prev, ResultSource::Text(k as int), text, cands, vt, encoding, existing);
                        }
                    }
                } else if k < self.memory_panel.candidates.len() {
                    let address = self.memory_panel.candidates[k].address;
                    let value = self.memory_panel.candidates[k].value;
                    if !has_row(&self.memory_panel.saved, address, Some(vt)) {
                        let row = SavedMemoryAddress {
                            address,
                            value_type: vt,
                            current: Some(value),
                            text_encoding: None,
                            text_byte_len: 0,
                            current_text: None,
                            description: String::new(),
                            group: String::new(),
                            hexadecimal: false,
                            pointer: None,
                            frozen: None,
                            saved_to_library: false,
                        };
                        self.memory_panel.saved.push(row);
                        proof {
                            assert(self.memory_panel.saved@.subrange(0, rows_before.len() as int) =~= rows_before);
                            lemma_rows_step(p0.saved@, rows_before, self.memory_panel.saved@, prev, ResultSource::Numeric(k as int), text, cands, vt, encoding, existing);
                        }
                    }
                }
            }
            k = k + 1;
        }
        let mut status = String::new();
        push_dec_digits(&mut status, self.memory_panel.saved.len() as u64);
        push_str(&mut status, " address(es) saved");
        self.memory_panel.status = status;
    }
}

/// Appending the row of one more source keeps the rows matched with their sources.
proof fn lemma_rows_step(
    base: Seq<SavedMemoryAddress>,
    before: Seq<SavedMemoryAddress>,
    after: Seq<SavedMemoryAddress>,
    prev: Seq<ResultSource>,
    src: ResultSource,
    text: Seq<TextScanCandidate>,
    cands: Seq<ScanCandidate>,
    vt: ScanValueType,
    encoding: Option<TextEncoding>,
    existing: Seq<(usize, ScanValueType)>,
)
    requires
        rows_added(base, before, prev, text, cands, vt, encoding),
        row_keys(before) == existing + prev.map_values(|s: ResultSource| source_key(s, text, cands, vt)),
        after.len() == before.len() + 1,
        after.subrange(0, before.len() as int) == before,
        match src {
            ResultSource::Text(k) => text_row(after.last(), text[k], encoding),
            ResultSource::Numeric(k) => plain_row(after.last(), cands[k].address, vt, Some(cands[k].value)),
        },
    ensures
        rows_added(base, after, prev.push(src), text, cands, vt, encoding),
        row_keys(after) == existing + prev.push(src).map_values(|s: ResultSource| source_key(s, text, cands, vt)),
{
    let ps = prev.push(src);
    assert(after.subrange(0, base.len() as int) == before.subrange(0, base.len() as int));
    assert forall|j: int| 0 <= j < ps.len() implies match #[trigger] ps[j] {
        ResultSource::Text(k) => text_row(after[base.len() + j], text[k], encoding),
        ResultSource::Numeric(k) => plain_row(after[base.len() + j], cands[k].address, vt, Some(cands[k].value)),
    } by {
        if j < prev.len() {
            assert(ps[j] == prev[j]);
            assert(after[base.len() + j] == before[base.len() + j]);
        } else {
            assert(after[base.len() + j] == after.last());
        }
    }
    let f = |s: ResultSource| source_key(s, text, cands, vt);
    assert(row_keys(after) =~= existing + ps.map_values(f)) by {
        let lhs = row_keys(after);
        let rhs = existing + ps.map_values(f);
        let old_rhs = existing + prev.map_values(f);
        assert(row_keys(before).len() == before.len());
        assert(old_rhs.len() == existing.len() + prev.len());
        assert(row_keys(before) == old_rhs);
        assert(lhs.len() == rhs.len());
        assert forall|i: int| 0 <= i < lhs.len() implies lhs[i] == rhs[i] by {
            if i < before.len() {
                assert(after[i] == before[i]);
                assert(row_keys(before)[i] == old_rhs[i]);
                if i >= existing.len() {
                    assert(ps.map_values(f)[i - existing.len()] == prev.map_values(f)[i - existing.len()]);
                }
            } else {
                assert(after[i] == after.last());
                assert(ps.map_values(f)[prev.len() as int] == f(src));
            }
        }
    }
}

/// What a row for a manually entered address is made from: the text names no process,
/// reads as neither, or reads as a pointer expression or as an address.
pub enum ManualAddressPlan {
    SelectProcess,
    Invalid,
    Pointer(PointerSpec),
    Address(usize),
}

/// The plan for the manual address text of a panel.
pub open spec fn manual_plan_spec(p: MemoryPanelState, plan: ManualAddressPlan) -> bool {
    if p.process_pid is None {
        plan is SelectProcess
    } else {
        match pointer_expression_spec(p.manual_address@) {
            Some((m, o, offs)) => match plan {
                ManualAddressPlan::Pointer(ptr) => ptr@ == (PointerModel { base: 0, module: Some((m, o)), offsets: offs }),
                _ => false,
            },
            None => match address_spec(p.manual_address@) {
                Some(a) => plan == ManualAddressPlan::Address(a as usize),
                None => plan is Invalid,
            },
        }
    }
}

/// Whether `after` is `before` once a row for `address` of `value_type` was saved, unless a
/// row already has that address and type; `read` is the value read there.
pub open spec fn code_address_added(before: CrosshairApp, after: CrosshairApp, address: usize, value_type: ScanValueType, read: Option<ScanValue>) -> bool {
    &&& (exists|i: int| 0 <= i < before.memory_panel.saved@.len()
        && #[trigger] row_keys(before.memory_panel.saved@)[i] == (address, value_type)) ==> after == before
    &&& !(exists|i: int| 0 <= i < before.memory_panel.saved@.len()
        && #[trigger] row_keys(before.memory_panel.saved@)[i] == (address, value_type)) ==> {
        &&& after.memory_panel.saved@.len() == before.memory_panel.saved@.len() + 1
        &&& after.memory_panel.saved@.drop_last() == before.memory_panel.saved@
        &&& plain_row(after.memory_panel.saved@.last(), address, value_type, if before.memory_panel.process_pid is Some {
            read
        } else {
            None
        })
        &&& after.memory_panel.status@ == "Address "@ + seq!['0', 'x'] + hex_padded(address as nat, 8) + " added"@
        &&& after.memory_panel == (MemoryPanelState {
            saved: after.memory_panel.saved,
            status: after.memory_panel.status,
            ..before.memory_panel
        })
        &&& after.state == before.state
        &&& after.capture_hotkey_combo_keys == before.capture_hotkey_combo_keys
        &&& after.capture_hotkey_combo_vks == before.capture_hotkey_combo_vks
    }
}

impl CrosshairApp {
    /// Saves a row for an address found by watching an instruction, unless a row already
    /// has that address and type; `read` is the value read there from the selected process.
    pub fn add_code_access_address(&mut self, address: usize, value_type: ScanValueType, read: Option<ScanValue>)
        ensures
            code_address_added(*old(self), *final(self), address, value_type, read),
    {
        if has_row(&self.memory_panel.saved, address, Some(value_type)) {
            proof {
                let rows = self.memory_panel.saved@;
                let i = choose|i: int| 0 <= i < rows.len() && (#[trigger] row_keys(rows)[i]).0 == address
                    && row_keys(rows)[i].1 == value_type;
                assert(row_keys(rows)[i] == (address, value_type));
            }
            return;
        }
        assert forall|i: int| 0 <= i < self.memory_panel.saved@.len() implies #[trigger] row_keys(self.memory_panel.saved@)[i]
            != (address, value_type) by {
            if row_keys(self.memory_panel.saved@)[i] == (address, value_type) {
                assert(row_keys(self.memory_panel.saved@)[i].0 == address);
            }
        }
        let current = match self.memory_panel.process_pid {
            Some(_) => read,
            None => None,
        };
        let ghost before = self.memory_panel.saved@;
        self.memory_panel.saved.push(SavedMemoryAddress {
            address,
            value_type,
            current,
            text_encoding: None,
            text_byte_len: 0,
            current_text: None,
            description: String::new(),
            group: String::new(),
            hexadecimal: false,
            pointer: None,
            frozen: None,
            saved_to_library: false,
        });
        assert(self.memory_panel.saved@.drop_last() == before);
        let mut status = owned("Address ");
        let shown = format_prefixed_memory_address(address);
        push_str(&mut status, shown.as_str());
        push_str(&mut status, " added");
        assert(status@ =~= "Address "@ + seq!['0', 'x'] + hex_padded(address as nat, 8) + " added"@);
        self.memory_panel.status = status;
    }

    /// What the manual address text stands for: a pointer expression such as
    /// `game.exe+10 [8, 10]` first, then an address expression.
    pub fn manual_address_plan(&self) -> (plan: ManualAddressPlan)
        ensures
            manual_plan_spec(self.memory_panel, plan),
    {
        if self.memory_panel.process_pid.is_none() {
            return ManualAddressPlan::SelectProcess;
        }
        match parse_pointer_expression(self.memory_panel.manual_address.as_str()) {
            Some((module, module_offset, offsets)) => {
                let ghost ov = offsets@;
                let ptr = PointerSpec { base: 0, module: Some((module, module_offset)), offsets };
                assert(ptr@.offsets == ov);
                ManualAddressPlan::Pointer(ptr)
            },
            None => match parse_memory_address(self.memory_panel.manual_address.as_str()) {
                Some(a) => ManualAddressPlan::Address(a),
                None => ManualAddressPlan::Invalid,
            },
        }
    }

    /// Saves a row for the manually entered address as `plan` says: `resolved` is where
    /// the pointer of a pointer plan led, and `current` the value read at the address.
    /// Without a process, or when the text reads as neither, only the status changes.
    pub fn add_manual_memory_address(&mut self, plan: ManualAddressPlan, resolved: Result<usize, String>, current: Option<ScanValue>)
        ensures
            final(self).state == old(self).state,
            final(self).capture_hotkey_combo_keys == old(self).capture_hotkey_combo_keys,
            final(self).capture_hotkey_combo_vks == old(self).capture_hotkey_combo_vks,
            match plan {
                ManualAddressPlan::SelectProcess => final(self).memory_panel.status@ == "Select a process"@
                    && final(self).memory_panel == (MemoryPanelState { status: final(self).memory_panel.status, ..old(self).memory_panel }),
                ManualAddressPlan::Invalid => final(self).memory_panel.status@ == "Invalid address or pointer expression"@
                    && final(self).memory_panel == (MemoryPanelState { status: final(self).memory_panel.status, ..old(self).memory_panel }),
                ManualAddressPlan::Pointer(ptr) => match resolved {
                    Err(e) => final(self).memory_panel.status@ == "Unable to resolve pointer: "@ + e@
                        && final(self).memory_panel == (MemoryPanelState { status: final(self).memory_panel.status, ..old(self).memory_panel }),
                    Ok(a) => manual_row_added(old(self).memory_panel, final(self).memory_panel, a, current)
                        && final(self).memory_panel.saved@.last().description@ == with_offsets(pointer_root_text(ptr), ptr.offsets@)
                        && final(self).memory_panel.saved@.last().pointer == Some(ptr),
                },
                ManualAddressPlan::Address(a) => manual_row_added(old(self).memory_panel, final(self).memory_panel, a, current)
                    && final(self).memory_panel.saved@.last().description@ == Seq::<char>::empty()
                    && final(self).memory_panel.saved@.last().pointer is None,
            },
    {
        let (address, pointer) = match plan {
            ManualAddressPlan::SelectProcess => {
                self.memory_panel.status = owned("Select a process");
                return;
            },
            ManualAddressPlan::Invalid => {
                self.memory_panel.status = owned("Invalid address or pointer expression");
                return;
            },
            ManualAddressPlan::Pointer(ptr) => match resolved {
                Ok(a) => (a, Some(ptr)),
                Err(e) => {
                    let mut status = owned("Unable to resolve pointer: ");
                    push_str(&mut status, e.as_str());
                    self.memory_panel.status = status;
                    return;
                },
            },
            ManualAddressPlan::Address(a) => (a, None),
        };
        let description = match &pointer {
            Some(p) => format_pointer_expression(p),
            None => String::new(),
        };
        let ghost before = self.memory_panel.saved@;
        self.memory_panel.saved.push(SavedMemoryAddress {
            address,
            value_type: self.memory_panel.value_type,
            current,
            text_encoding: None,
            text_byte_len: 0,
            current_text: None,
            description,
            group: String::new(),
            hexadecimal: false,
            pointer,
            frozen: None,
            saved_to_library: false,
        });
        assert(self.memory_panel.saved@.drop_last() == before);
        self.memory_panel.manual_address = String::new();
    }
}

/// Whether `p` is `before` with a row for `address` holding `current` appended and the
/// manual address text cleared.
pub open spec fn manual_row_added(before: MemoryPanelState, p: MemoryPanelState, address: usize, current: Option<ScanValue>) -> bool {
    let r = p.saved@.last();
    &&& p.saved@.len() == before.saved@.len() + 1
    &&& p.saved@.drop_last() == before.saved@
    &&& r.address == address
    &&& r.value_type == before.value_type
    &&& r.current == current
    &&& r.text_encoding is None
    &&& r.text_byte_len == 0
    &&& r.current_text is None
    &&& r.group@ == Seq::<char>::empty()
    &&& !r.hexadecimal
    &&& r.frozen is None
    &&& !r.saved_to_library
    &&& p.manual_address@ == Seq::<char>::empty()
    &&& p == (MemoryPanelState { saved: p.saved, manual_address: p.manual_address, ..before })
}

} // verus!
