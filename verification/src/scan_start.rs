//! Starting a scan: checking the scan inputs, the result limit and alignment the scan is
//! given, and the job handed to the scanner.
use vstd::prelude::*;
use crate::scan::{action_comparison, bounds_ordered, scan_bounds_are_ordered, MemoryScanAction, ScanValue, ScanValueType};
use crate::saved::{ScanCandidate, TextEncoding, TextScanCandidate};
use crate::panel::{CrosshairApp, MemoryPanelState, ScanSettings};
use crate::library::{eq_ignore_ascii_case, str_eq_ignore_ascii_case};
use crate::number::{dec_digits, parse_usize_radix, push_dec_digits, usize_radix};
use crate::text::{chars_of, owned, push_str, trim, trim_bounds};

verus! {

/// The byte width of a value type.
pub open spec fn type_width(t: ScanValueType) -> usize {
    match t {
        ScanValueType::I8 => 1,
        ScanValueType::I16 => 2,
        ScanValueType::I32 => 4,
        ScanValueType::F32 => 4,
        ScanValueType::I64 => 8,
        ScanValueType::F64 => 8,
    }
}

impl ScanValueType {
    /// The byte width of values of this type.
    pub fn width(self) -> (w: usize)
        ensures
            w == type_width(self),
    {
        match self {
            ScanValueType::I8 => 1,
            ScanValueType::I16 => 2,
            ScanValueType::I32 => 4,
            ScanValueType::F32 => 4,
            ScanValueType::I64 => 8,
            ScanValueType::F64 => 8,
        }
    }
}

/// The result limit of a scan with no limit.
pub const DEFAULT_SCAN_LIMIT: usize = usize::MAX;

/// The result limit the limit text asks for: none when it is empty or `unlimited` (in any
/// case), else its digits once `.`, `,` and `_` are dropped, at least 1000; none when they
/// do not read as a number.
pub open spec fn result_limit_spec(text: Seq<char>) -> usize {
    let t = trim(text);
    if t.len() == 0 || eq_ignore_ascii_case(t, "unlimited"@) {
        DEFAULT_SCAN_LIMIT
    } else {
        match usize_radix(t.filter(|c: char| c != '.' && c != ',' && c != '_'), 10) {
            Some(v) => if v < 1000 {
                1000
            } else {
                v as usize
            },
            None => DEFAULT_SCAN_LIMIT,
        }
    }
}

/// The limit text shown once a limit is chosen.
pub open spec fn result_limit_text(limit: usize) -> Seq<char> {
    if limit == DEFAULT_SCAN_LIMIT {
        "Unlimited"@
    } else {
        dec_digits(limit as nat)
    }
}

/// The alignment the alignment text asks for: its number, or the type's width, within
/// `1..=4096`.
pub open spec fn alignment_spec(text: Seq<char>, t: ScanValueType) -> usize {
    let a = match usize_radix(trim(text), 10) {
        Some(v) => v,
        None => type_width(t) as int,
    };
    (if a < 1 {
        1
    } else if a > 4096 {
        4096
    } else {
        a
    }) as usize
}

/// The characters of `v[lo..hi]` other than `.`, `,` and `_`.
fn drop_separators(v: &Vec<char>, lo: usize, hi: usize) -> (out: Vec<char>)
    requires
        lo <= hi <= v@.len(),
    ensures
        out@ == v@.subrange(lo as int, hi as int).filter(|c: char| c != '.' && c != ',' && c != '_'),
{
    let ghost f = |c: char| c != '.' && c != ',' && c != '_';
    let mut out: Vec<char> = Vec::new();
    let mut i = lo;
    while i < hi
        invariant
            lo <= i <= hi <= v@.len(),
            f == (|c: char| c != '.' && c != ',' && c != '_'),
            out@ == v@.subrange(lo as int, i as int).filter(f),
        decreases hi - i,
    {
        let c = v[i];
        proof {
            let s = v@.subrange(lo as int, i + 1);
            assert(s.drop_last() == v@.subrange(lo as int, i as int));
            assert(s.last() == c);
            reveal_with_fuel(Seq::filter, 1);
        }
        if c != '.' && c != ',' && c != '_' {
            out.push(c);
        }
        i = i + 1;
    }
    out
}

/// The result limit the limit text asks for.
pub fn scan_result_limit(text: &str) -> (limit: usize)
    ensures
        limit == result_limit_spec(text@),
{
    let v = chars_of(text);
    assert(v@.subrange(0, v@.len() as int) == v@);
    let (a, b) = trim_bounds(&v, 0, v.len());
    let t = crate::text::string_of(&v, a, b);
    proof {
        reveal_strlit("unlimited");
    }
    if a == b || str_eq_ignore_ascii_case(t.as_str(), "unlimited") {
        return DEFAULT_SCAN_LIMIT;
    }
    let digits = drop_separators(&v, a, b);
    let n = digits.len();
    assert(digits@.subrange(0, n as int) == digits@);
    match parse_usize_radix(&digits, 0, n, 10) {
        Some(x) => if x < 1000 {
            1000
        } else {
            x
        },
        None => DEFAULT_SCAN_LIMIT,
    }
}

/// The limit text shown for a limit.
pub fn scan_result_limit_text(limit: usize) -> (s: String)
    ensures
        s@ == result_limit_text(limit),
{
    if limit == DEFAULT_SCAN_LIMIT {
        owned("Unlimited")
    } else {
        let mut s = String::new();
        push_dec_digits(&mut s, limit as u64);
        s
    }
}

/// The alignment the alignment text asks for.
pub fn scan_alignment(text: &str, value_type: ScanValueType) -> (a: usize)
    ensures
        a == alignment_spec(text@, value_type),
{
    let v = chars_of(text);
    assert(v@.subrange(0, v@.len() as int) == v@);
    let (lo, hi) = trim_bounds(&v, 0, v.len());
    let a = match parse_usize_radix(&v, lo, hi, 10) {
        Some(x) => x,
        None => value_type.width(),
    };
    if a < 1 {
        1
    } else if a > 4096 {
        4096
    } else {
        a
    }
}

/// Where a scan looks and how it steps through memory.
pub struct MemoryScanOptions {
    pub writable: bool,
    pub executable: bool,
    pub copy_on_write: bool,
    pub active_memory_only: bool,
    pub mem_private: bool,
    pub mem_image: bool,
    pub mem_mapped: bool,
    pub alignment: Option<usize>,
}

/// A scan to run, with everything the scanner needs.
pub struct ScanJobRequest {
    pub pid: u32,
    pub action: MemoryScanAction,
    pub value_type: ScanValueType,
    pub text_encoding: Option<TextEncoding>,
    pub exact: Option<ScanValue>,
    pub range: Option<(ScanValue, ScanValue)>,
    pub result_limit: usize,
    pub options: MemoryScanOptions,
    /// The results a follow-up numeric scan filters.
    pub candidates: Vec<ScanCandidate>,
    /// The results a follow-up text scan filters.
    pub text_candidates: Vec<TextScanCandidate>,
    /// The value, text or byte pattern typed.
    pub text: String,
    pub case_sensitive: bool,
    pub null_terminated: bool,
    pub pause_while_scanning: bool,
    pub is_aob: bool,
}

/// Whether an action compares with the previous results and takes no value.
pub open spec fn takes_no_value(a: MemoryScanAction) -> bool {
    a == MemoryScanAction::Unknown || a == MemoryScanAction::Between || a == MemoryScanAction::Increased
        || a == MemoryScanAction::Decreased || a == MemoryScanAction::Changed || a == MemoryScanAction::Unchanged
}

/// The value and range a scan looks for, or why it cannot start. `value`, `min` and `max`
/// are the value text and the range texts read as values of the panel's type.
pub open spec fn scan_inputs_spec(
    p: MemoryPanelState,
    action: MemoryScanAction,
    value: Option<ScanValue>,
    min: Option<ScanValue>,
    max: Option<ScanValue>,
) -> Result<(Option<ScanValue>, Option<(ScanValue, ScanValue)>), Seq<char>> {
    if p.text_encoding is Some && !(action == MemoryScanAction::FirstScan || action == MemoryScanAction::Exact) {
        Err("Text scan supports First scan and New value"@)
    } else if action == MemoryScanAction::Between && min is None {
        Err("Invalid minimum value"@)
    } else if action == MemoryScanAction::Between && max is None {
        Err("Invalid maximum value"@)
    } else if action == MemoryScanAction::Between && !bounds_ordered(min.unwrap(), max.unwrap()) {
        Err("Minimum must not exceed maximum"@)
    } else {
        let range = if action == MemoryScanAction::Between {
            Some((min.unwrap(), max.unwrap()))
        } else {
            None
        };
        if takes_no_value(action) {
            Ok((None, range))
        } else if p.scan_settings.is_aob_scan {
            if trim(p.scan_settings.value_input@).len() == 0 {
                Err("AOB pattern cannot be empty"@)
            } else {
                Ok((None, range))
            }
        } else if p.text_encoding is Some {
            if p.scan_settings.value_input@.len() == 0 {
                Err("Text cannot be empty"@)
            } else {
                Ok((None, range))
            }
        } else {
            match value {
                None => Err("Invalid value"@),
                Some(v) => Ok((Some(v), range)),
            }
        }
    }
}

/// The scan options of the settings: executable memory of every kind for a byte pattern,
/// the chosen kinds and protections otherwise, aligned when fast scan is on.
pub open spec fn options_spec(s: ScanSettings, alignment: usize, o: MemoryScanOptions) -> bool {
    if s.is_aob_scan {
        o == MemoryScanOptions {
            writable: false,
            executable: true,
            copy_on_write: s.scan_copy_on_write,
            active_memory_only: false,
            mem_private: true,
            mem_image: true,
            mem_mapped: true,
            alignment: None,
        }
    } else {
        o == MemoryScanOptions {
            writable: s.scan_writable,
            executable: s.scan_executable,
            copy_on_write: s.scan_copy_on_write,
            active_memory_only: s.scan_active_memory_only,
            mem_private: s.scan_mem_private,
            mem_image: s.scan_mem_image,
            mem_mapped: s.scan_mem_mapped,
            alignment: if s.fast_scan {
                Some(alignment)
            } else {
                None
            },
        }
    }
}

/// Whether `q` is `p` once the scan `r` was started for `action`: the results it filters
/// move into the job, the rest are dropped, and the panel shows the scan loading.
pub open spec fn scan_started(p: MemoryPanelState, q: MemoryPanelState, r: ScanJobRequest, action: MemoryScanAction) -> bool {
    let s = p.scan_settings;
    let limit = result_limit_spec(s.result_limit_input@);
    let alignment = alignment_spec(s.fast_scan_alignment@, p.value_type);
    let follow_up = action_comparison(action) is Some;
    let keep_numeric = follow_up && p.text_encoding is None;
    let keep_text = action == MemoryScanAction::Exact && p.text_encoding is Some;
    &&& r.pid == p.process_pid.unwrap()
    &&& r.action == action
    &&& r.value_type == p.value_type
    &&& r.text_encoding == p.text_encoding
    &&& r.result_limit == limit
    &&& options_spec(s, alignment, r.options)
    &&& r.candidates@ == (if keep_numeric { p.candidates@ } else { Seq::empty() })
    &&& r.text_candidates@ == (if keep_text { p.text_candidates@ } else { Seq::empty() })
    &&& r.text@ == s.value_input@
    &&& r.case_sensitive == s.text_case_sensitive
    &&& r.null_terminated == s.text_null_terminated
    &&& r.pause_while_scanning == s.pause_while_scanning
    &&& r.is_aob == s.is_aob_scan
    &&& q.scan_settings.result_limit_input@ == result_limit_text(limit)
    &&& q.scan_settings.fast_scan_alignment@ == dec_digits(alignment as nat)
    &&& q.scan_settings == (ScanSettings {
        result_limit_input: q.scan_settings.result_limit_input,
        fast_scan_alignment: q.scan_settings.fast_scan_alignment,
        ..s
    })
    &&& q.candidates@.len() == 0
    &&& q.text_candidates@.len() == 0
    &&& q.live_candidate_values@ == Map::<usize, ScanValue>::empty()
    &&& q.scan_input_count == (if follow_up {
        if p.candidates@.len() >= p.text_candidates@.len() { p.candidates@.len() } else { p.text_candidates@.len() }
    } else {
        0
    })
    &&& q.selected_results@ == Set::<usize>::empty()
    &&& q.status@ == crate::results::action_label(action) + " — loading…"@
    &&& q.last_action@ == crate::results::action_label(action)
    &&& q == (MemoryPanelState {
        scan_settings: q.scan_settings,
        candidates: q.candidates,
        text_candidates: q.text_candidates,
        live_candidate_values: q.live_candidate_values,
        scan_input_count: q.scan_input_count,
        scanning: true,
        job_pending: true,
        has_scan_session: p.has_scan_session || !follow_up,
        selected_results: q.selected_results,
        status: q.status,
        last_action: q.last_action,
        ..p
    })
}

/// Settles the limit and alignment texts and gives the result limit and scan options.
fn settle_scan_settings(settings: &mut ScanSettings, value_type: ScanValueType) -> (r: (usize, MemoryScanOptions))
    ensures
        r.0 == result_limit_spec(old(settings).result_limit_input@),
        options_spec(*old(settings), alignment_spec(old(settings).fast_scan_alignment@, value_type), r.1),
        final(settings).result_limit_input@ == result_limit_text(r.0),
        final(settings).fast_scan_alignment@ == dec_digits(alignment_spec(old(settings).fast_scan_alignment@, value_type) as nat),
        *final(settings) == (ScanSettings {
            result_limit_input: final(settings).result_limit_input,
            fast_scan_alignment: final(settings).fast_scan_alignment,
            ..*old(settings)
        }),
{
    let result_limit = scan_result_limit(settings.result_limit_input.as_str());
    settings.result_limit_input = scan_result_limit_text(result_limit);
    let alignment = scan_alignment(settings.fast_scan_alignment.as_str(), value_type);
    let mut shown = String::new();
    push_dec_digits(&mut shown, alignment as u64);
    settings.fast_scan_alignment = shown;
    let options = if settings.is_aob_scan {
        MemoryScanOptions {
            writable: false,
            executable: true,
            copy_on_write: settings.scan_copy_on_write,
            active_memory_only: false,
            mem_private: true,
            mem_image: true,
            mem_mapped: true,
            alignment: None,
        }
    } else {
        MemoryScanOptions {
            writable: settings.scan_writable,
            executable: settings.scan_executable,
            copy_on_write: settings.scan_copy_on_write,
            active_memory_only: settings.scan_active_memory_only,
            mem_private: settings.scan_mem_private,
            mem_image: settings.scan_mem_image,
            mem_mapped: settings.scan_mem_mapped,
            alignment: if settings.fast_scan {
                Some(alignment)
            } else {
                None
            },
        }
    };
    (result_limit, options)
}

/// Moves the results a follow-up scan for `action` filters out of the panel, drops the
/// others and the live values, and counts the inputs.
fn take_scan_inputs(panel: &mut MemoryPanelState, action: MemoryScanAction) -> (r: (Vec<ScanCandidate>, Vec<TextScanCandidate>))
    ensures
        ({
            let p = *old(panel);
            let q = *final(panel);
            let follow_up = action_comparison(action) is Some;
            let keep_numeric = follow_up && p.text_encoding is None;
            let keep_text = action == MemoryScanAction::Exact && p.text_encoding is Some;
            &&& r.0@ == (if keep_numeric { p.candidates@ } else { Seq::empty() })
            &&& r.1@ == (if keep_text { p.text_candidates@ } else { Seq::empty() })
            &&& q.candidates@.len() == 0
            &&& q.text_candidates@.len() == 0
            &&& q.live_candidate_values@ == Map::<usize, ScanValue>::empty()
            &&& q.scan_input_count == (if follow_up {
                if p.candidates@.len() >= p.text_candidates@.len() { p.candidates@.len() } else { p.text_candidates@.len() }
            } else {
                0
            })
            &&& q == (MemoryPanelState {
                candidates: q.candidates,
                text_candidates: q.text_candidates,
                live_candidate_values: q.live_candidate_values,
                scan_input_count: q.scan_input_count,
                ..p
            })
        }),
{
    let text_encoding = panel.text_encoding;
    let follow_up = action.comparison().is_some();
    let numeric_count = panel.candidates.len();
    let text_count = panel.text_candidates.len();
    let mut candidates: Vec<ScanCandidate> = Vec::new();
    if follow_up && text_encoding.is_none() {
        std::mem::swap(&mut candidates, &mut panel.candidates);
    } else {
        panel.candidates.clear();
    }
    let keep_text = match (action, text_encoding) {
        (MemoryScanAction::Exact, Some(_)) => true,
        _ => false,
    };
    let mut text_candidates: Vec<TextScanCandidate> = Vec::new();
    if keep_text {
        std::mem::swap(&mut text_candidates, &mut panel.text_candidates);
    } else {
        panel.text_candidates.clear();
    }
    panel.live_candidate_values.clear();
    panel.scan_input_count = if follow_up {
        if numeric_count >= text_count {
            numeric_count
        } else {
            text_count
        }
    } else {
        0
    };
    (candidates, text_candidates)
}

/// Shows a scan for `action` as running.
fn mark_scan_started(panel: &mut MemoryPanelState, action: MemoryScanAction)
    ensures
        ({
            let p = *old(panel);
            let q = *final(panel);
            &&& q.selected_results@ == Set::<usize>::empty()
            &&& q.status@ == crate::results::action_label(action) + " — loading…"@
            &&& q.last_action@ == crate::results::action_label(action)
            &&& q == (MemoryPanelState {
                scanning: true,
                job_pending: true,
                has_scan_session: p.has_scan_session || !(action_comparison(action) is Some),
                selected_results: q.selected_results,
                status: q.status,
                last_action: q.last_action,
                ..p
            })
        }),
{
    panel.scanning = true;
    if action.comparison().is_none() {
        panel.has_scan_session = true;
    }
    let mut status = owned(action.label());
    push_str(&mut status, " — loading…");
    panel.status = status;
    panel.last_action = owned(action.label());
    panel.selected_results.clear();
    panel.job_pending = true;
}

impl CrosshairApp {
    /// Checks the inputs of a scan for `action`: `value`, `min` and `max` are the value
    /// text and the range texts read as values of the panel's type.
    pub fn check_scan_inputs(
        &self,
        action: MemoryScanAction,
        value: Option<ScanValue>,
        min: Option<ScanValue>,
        max: Option<ScanValue>,
    ) -> (r: Result<(Option<ScanValue>, Option<(ScanValue, ScanValue)>), String>)
        ensures
            match r {
                Ok(x) => scan_inputs_spec(self.memory_panel, action, value, min, max) == Ok::<(Option<ScanValue>, Option<(ScanValue, ScanValue)>), Seq<char>>(x),
                Err(e) => scan_inputs_spec(self.memory_panel, action, value, min, max) == Err::<(Option<ScanValue>, Option<(ScanValue, ScanValue)>), Seq<char>>(e@),
            },
    {
        let text_ok = match action {
            MemoryScanAction::FirstScan | MemoryScanAction::Exact => true,
            _ => false,
        };
        if self.memory_panel.text_encoding.is_some() && !text_ok {
            return Err(owned("Text scan supports First scan and New value"));
        }
        let range = match action {
            MemoryScanAction::Between => {
                let lo = match min {
                    Some(v) => v,
                    None => return Err(owned("Invalid minimum value")),
                };
                let hi = match max {
                    Some(v) => v,
                    None => return Err(owned("Invalid maximum value")),
                };
                if !scan_bounds_are_ordered(lo, hi) {
                    return Err(owned("Minimum must not exceed maximum"));
                }
                Some((lo, hi))
            },
            _ => None,
        };
        let no_value = match action {
            MemoryScanAction::Unknown | MemoryScanAction::Between | MemoryScanAction::Increased
            | MemoryScanAction::Decreased | MemoryScanAction::Changed | MemoryScanAction::Unchanged => true,
            _ => false,
        };
        if no_value {
            return Ok((None, range));
        }
        if self.memory_panel.scan_settings.is_aob_scan {
            let v = chars_of(self.memory_panel.scan_settings.value_input.as_str());
            assert(v@.subrange(0, v@.len() as int) == v@);
            let (a, b) = trim_bounds(&v, 0, v.len());
            if a == b {
                return Err(owned("AOB pattern cannot be empty"));
            }
            return Ok((None, range));
        }
        if self.memory_panel.text_encoding.is_some() {
            if self.memory_panel.scan_settings.value_input.unicode_len() == 0 {
                return Err(owned("Text cannot be empty"));
            }
            return Ok((None, range));
        }
        match value {
            None => Err(owned("Invalid value")),
            Some(v) => Ok((Some(v), range)),
        }
    }

    /// Starts a scan for `action`, when no stable-pointer dialog takes the action: first
    /// closes both debugger dialogs, their watches to be stopped; then checks
    /// the inputs (`value`, `min` and `max` as for `check_scan_inputs`), settles the limit
    /// and alignment texts, moves the results a follow-up scan filters into the job, and
    /// shows the scan loading. Without a process, while a scan runs, or with invalid
    /// inputs, no job starts and the status says why (while a scan runs nothing else changes).
    pub fn start_memory_action(
        &mut self,
        action: MemoryScanAction,
        value: Option<ScanValue>,
        min: Option<ScanValue>,
        max: Option<ScanValue>,
    ) -> (r: Option<ScanJobRequest>)
        ensures
            final(self).state == old(self).state,
            final(self).capture_hotkey_combo_keys == old(self).capture_hotkey_combo_keys,
            final(self).capture_hotkey_combo_vks == old(self).capture_hotkey_combo_vks,
            ({
                let p = crate::code_access::debuggers_closed(old(self).memory_panel);
                let q = final(self).memory_panel;
                if p.process_pid is None {
                    r is None && q.status@ == "Select a process"@ && q == (MemoryPanelState { status: q.status, ..p })
                } else if p.scanning {
                    r is None && q == p
                } else {
                    match scan_inputs_spec(p, action, value, min, max) {
                        Err(e) => r is None && q.status@ == e && q == (MemoryPanelState { status: q.status, ..p }),
                        Ok((exact, range)) => r is Some && r.unwrap().exact == exact && r.unwrap().range == range
                            && scan_started(p, q, r.unwrap(), action),
                    }
                }
            }),
    {
        self.close_memory_debuggers();
        let pid = match self.memory_panel.process_pid {
            Some(pid) => pid,
            None => {
                self.memory_panel.status = owned("Select a process");
                return None;
            },
        };
        if self.memory_panel.scanning {
            return None;
        }
        let (exact, range) = match self.check_scan_inputs(action, value, min, max) {
            Ok(x) => x,
            Err(e) => {
                self.memory_panel.status = e;
                return None;
            },
        };
        let ghost p = self.memory_panel;
        let value_type = self.memory_panel.value_type;
        let text_encoding = self.memory_panel.text_encoding;
        let (result_limit, options) = settle_scan_settings(&mut self.memory_panel.scan_settings, value_type);
        let (candidates, text_candidates) = take_scan_inputs(&mut self.memory_panel, action);
        mark_scan_started(&mut self.memory_panel, action);
        let req = ScanJobRequest {
            pid,
            action,
            value_type,
            text_encoding,
            exact,
            range,
            result_limit,
            options,
            candidates,
            text_candidates,
            text: self.memory_panel.scan_settings.value_input.clone(),
            case_sensitive: self.memory_panel.scan_settings.text_case_sensitive,
            null_terminated: self.memory_panel.scan_settings.text_null_terminated,
            pause_while_scanning: self.memory_panel.scan_settings.pause_while_scanning,
            is_aob: self.memory_panel.scan_settings.is_aob_scan,
        };
        Some(req)
    }
}

} // verus!
