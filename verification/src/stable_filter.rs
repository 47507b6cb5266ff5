//! Filling and narrowing the stable-pointer candidates: the paths a pointer scan found,
//! the value filters run over validated candidates, and the rows a path table shows.
use vstd::prelude::*;
use crate::number::{dec_digits, hex_digits, push_dec_digits, push_hex_digits};
use crate::pointer::{PointerPath, PointerPathView};
use crate::settings::PointerScanLimits;
use crate::saved::ScanCandidate;
use crate::scan::{action_comparison, action_label, bounds_ordered, scan_bounds_are_ordered, MemoryScanAction, ScanComparison, ScanValue, ScanValueType};
use crate::entity_list::paths_view;
use crate::panel::{CrosshairApp, MemoryPanelState};
use crate::stable_pointer::{cands_view, path_description, CandidateView, StablePointerCandidate, StablePointerDialog};
use crate::text::{
    ascii_lower, ascii_lower_exec, ascii_lower_seq, chars_of, contains_chars, contains_seq, has_suffix, owned,
    push_str, trim, trim_bounds,
};

verus! {

/// Whether a module name ends in `.exe`, whatever the case of its letters.
pub open spec fn is_exe_module(module: Seq<char>) -> bool {
    has_suffix(ascii_lower_seq(module), ".exe"@)
}

/// Whether a path table shows the rows of `module` under the lowered search text `f`.
pub open spec fn shown_lowered(module: Seq<char>, f: Seq<char>, exe_only: bool) -> bool {
    &&& !exe_only || is_exe_module(module)
    &&& f.len() == 0 || contains_seq(ascii_lower_seq(module), f)
}

/// Whether a path table shows the rows of `module` under the search text `filter`: with
/// `exe_only` only executables, and only modules whose name holds the trimmed search
/// text, letters compared without case.
pub open spec fn module_shown(module: Seq<char>, filter: Seq<char>, exe_only: bool) -> bool {
    shown_lowered(module, ascii_lower_seq(trim(filter)), exe_only)
}

/// Whether the lowered characters `lower` end in `.exe`.
fn ends_in_exe(lower: &Vec<char>) -> (b: bool)
    ensures
        b == has_suffix(lower@, ".exe"@),
{
    proof {
        reveal_strlit(".exe");
    }
    let n = lower.len();
    if n < 4 {
        return false;
    }
    let b = lower[n - 4] == '.' && lower[n - 3] == 'e' && lower[n - 2] == 'x' && lower[n - 1] == 'e';
    assert(b == (lower@.subrange(n - 4, n as int) == ".exe"@)) by {
        if b {
            assert(lower@.subrange(n - 4, n as int) =~= ".exe"@);
        } else if lower@.subrange(n - 4, n as int) == ".exe"@ {
            assert(lower@.subrange(n - 4, n as int)[0] == '.');
            assert(lower@.subrange(n - 4, n as int)[1] == 'e');
            assert(lower@.subrange(n - 4, n as int)[2] == 'x');
            assert(lower@.subrange(n - 4, n as int)[3] == 'e');
        }
    }
    b
}

/// The search text of a path table, trimmed and lowered.
pub fn module_filter_text(filter: &str) -> (f: Vec<char>)
    ensures
        f@ == ascii_lower_seq(trim(filter@)),
{
    let v = chars_of(filter);
    assert(v@.subrange(0, v@.len() as int) == v@);
    let (lo, hi) = trim_bounds(&v, 0, v.len());
    let mut f: Vec<char> = Vec::new();
    let mut i = lo;
    while i < hi
        invariant
            lo <= i <= hi <= v@.len(),
            f@ == ascii_lower_seq(v@.subrange(lo as int, i as int)),
        decreases hi - i,
    {
        f.push(ascii_lower_exec(v[i]));
        assert(ascii_lower_seq(v@.subrange(lo as int, i + 1)) =~= ascii_lower_seq(v@.subrange(lo as int, i as int)).push(
            ascii_lower(v@[i as int]),
        ));
        i = i + 1;
    }
    f
}

/// Whether the rows of `module` are shown under the lowered search text `f`.
pub fn module_shown_with(module: &str, f: &Vec<char>, exe_only: bool) -> (b: bool)
    ensures
        b == shown_lowered(module@, f@, exe_only),
{
    let lower = crate::entity::lower_chars(module);
    if exe_only && !ends_in_exe(&lower) {
        return false;
    }
    f.len() == 0 || contains_chars(&lower, f)
}

/// Whether a path table shows the rows of `module` under the search text `filter`.
pub fn module_shown_in_table(module: &str, filter: &str, exe_only: bool) -> (b: bool)
    ensures
        b == module_shown(module@, filter@, exe_only),
{
    let f = module_filter_text(filter);
    module_shown_with(module, &f, exe_only)
}

/// The indices below `n` whose module is shown, in increasing order.
pub open spec fn shown_indices(modules: Seq<Seq<char>>, filter: Seq<char>, exe_only: bool, n: nat) -> Seq<usize>
    decreases n,
{
    if n == 0 {
        seq![]
    } else {
        let rest = shown_indices(modules, filter, exe_only, (n - 1) as nat);
        if module_shown(modules[n - 1], filter, exe_only) {
            rest.push((n - 1) as usize)
        } else {
            rest
        }
    }
}

/// The module of each candidate.
pub open spec fn candidate_modules(c: Seq<StablePointerCandidate>) -> Seq<Seq<char>> {
    c.map_values(|x: StablePointerCandidate| x.path.module@)
}

impl StablePointerDialog {
    /// The candidates the table shows under its search text and executable switch.
    pub fn visible_indices(&self) -> (r: Vec<usize>)
        ensures
            r@ == shown_indices(candidate_modules(self.candidates@), self.filter@, self.exe_only, self.candidates@.len()),
    {
        let f = module_filter_text(self.filter.as_str());
        let mut r: Vec<usize> = Vec::new();
        let mut i: usize = 0;
        while i < self.candidates.len()
            invariant
                i <= self.candidates@.len(),
                f@ == ascii_lower_seq(trim(self.filter@)),
                r@ == shown_indices(candidate_modules(self.candidates@), self.filter@, self.exe_only, i as nat),
            decreases self.candidates@.len() - i,
        {
            if module_shown_with(self.candidates[i].path.module.as_str(), &f, self.exe_only) {
                r.push(i);
            }
            i = i + 1;
        }
        r
    }
}

/// The state column of a candidate.
pub open spec fn candidate_state(c: CandidateView) -> Seq<char> {
    match c.valid {
        Some(true) => "VERIFIED"@,
        Some(false) => "BROKEN"@,
        None => if c.observed_value is Some {
            "VALUE CHANGED"@
        } else {
            "NOT CHECKED"@
        },
    }
}

/// The state column of a candidate: checked and holding the expected value, broken,
/// holding another value, or not checked.
pub fn candidate_state_text(c: &StablePointerCandidate) -> (s: &'static str)
    ensures
        s@ == candidate_state(c@),
{
    match c.valid {
        Some(true) => "VERIFIED",
        Some(false) => "BROKEN",
        None => if c.observed_value.is_some() {
            "VALUE CHANGED"
        } else {
            "NOT CHECKED"
        },
    }
}

/// The offsets in hexadecimal, separated by `sep`.
pub open spec fn chained_hex(offsets: Seq<usize>, sep: Seq<char>) -> Seq<char>
    decreases offsets.len(),
{
    if offsets.len() == 0 {
        Seq::empty()
    } else if offsets.len() == 1 {
        hex_digits(offsets[0] as nat)
    } else {
        chained_hex(offsets.drop_last(), sep) + sep + hex_digits(offsets.last() as nat)
    }
}

/// The offsets column of a path table: the offsets in hexadecimal, separated by `sep`.
pub fn format_path_offsets(offsets: &Vec<usize>, sep: &str) -> (s: String)
    ensures
        s@ == chained_hex(offsets@, sep@),
{
    let mut s = String::new();
    let mut i: usize = 0;
    while i < offsets.len()
        invariant
            i <= offsets@.len(),
            s@ == chained_hex(offsets@.subrange(0, i as int), sep@),
        decreases offsets@.len() - i,
    {
        let ghost pre = offsets@.subrange(0, i + 1);
        assert(pre.drop_last() == offsets@.subrange(0, i as int));
        assert(pre.last() == offsets@[i as int]);
        if i > 0 {
            push_str(&mut s, sep);
        }
        push_hex_digits(&mut s, offsets[i] as u64);
        i = i + 1;
    }
    assert(offsets@.subrange(0, offsets@.len() as int) == offsets@);
    s
}

/// The root column of a path table: `module+OFFSET`.
pub fn format_path_root(path: &PointerPath) -> (s: String)
    ensures
        s@ == path_description(path@),
{
    let mut s = path.module.clone();
    crate::text::push_char(&mut s, '+');
    push_hex_digits(&mut s, path.module_offset as u64);
    proof {
        reveal_strlit("+");
    }
    assert(s@ =~= path_description(path@));
    s
}

/// A candidate for a path just found, with nothing checked yet.
pub open spec fn fresh_candidate(p: PointerPathView) -> CandidateView {
    CandidateView {
        path: p,
        valid: None,
        resolved_base: None,
        resolved_address: None,
        observed_value: None,
        live_value: None,
        filter_value: None,
    }
}

/// The paths whose module is an executable (`exe`), or is not, in order.
pub open spec fn exe_paths(paths: Seq<PointerPathView>, exe: bool) -> Seq<PointerPathView>
    decreases paths.len(),
{
    if paths.len() == 0 {
        seq![]
    } else {
        let rest = exe_paths(paths.drop_last(), exe);
        if is_exe_module(paths.last().module) == exe {
            rest.push(paths.last())
        } else {
            rest
        }
    }
}

/// The paths with those in executables first, each part keeping its order.
pub open spec fn exe_first(paths: Seq<PointerPathView>) -> Seq<PointerPathView> {
    exe_paths(paths, true) + exe_paths(paths, false)
}

/// The status after a pointer scan found `n` paths within `limits`; `read_megabytes` is
/// how much memory it read, in megabytes, as the dialog writes it.
pub open spec fn paths_status(n: nat, limits: PointerScanLimits, read_megabytes: Seq<char>) -> Seq<char> {
    if n == 0 {
        "No module-based pointer paths found after reading "@ + read_megabytes + " MB ("@ + dec_digits(
            limits.max_depth as nat,
        ) + " levels, max offset 0x"@ + hex_digits(limits.max_offset as nat) + ")"@
    } else {
        dec_digits(n) + " candidate(s)"@ + (if n >= limits.result_limit {
            " (path limit reached)"@
        } else {
            Seq::empty()
        }) + ". Restart the game, restore the target value, select the new process, then Validate."@
    }
}

/// What a pointer scan of the dialog gave: the process it scanned, and the paths it
/// found or why it failed.
pub struct StablePointerScanOutcome {
    pub pid: u32,
    pub result: Result<Vec<PointerPath>, String>,
}

impl StablePointerDialog {
    /// Takes the outcome of the dialog's pointer scan: the paths become unchecked
    /// candidates, those in executables first, and the first is selected. A scan of another
    /// process, or one that failed, only sets the status. `read_megabytes` is how much
    /// memory the scan read, in megabytes, as the status writes it.
    pub fn receive_stable_pointer_paths(&mut self, outcome: StablePointerScanOutcome, read_megabytes: String)
        ensures
            outcome.pid != old(self).source_pid ==> {
                &&& final(self).status@ == "The source process changed during pointer scan"@
                &&& *final(self) == (StablePointerDialog { status: final(self).status, scanning: false, ..*old(self) })
            },
            outcome.pid == old(self).source_pid ==> match outcome.result {
                Ok(paths) => {
                    let c = exe_first(paths_view(paths@)).map_values(|p: PointerPathView| fresh_candidate(p));
                    &&& cands_view(final(self).candidates@) == c
                    &&& final(self).selected == (if c.len() > 0 { Some(0usize) } else { None })
                    &&& final(self).status@ == paths_status(c.len(), old(self).limits, read_megabytes@)
                    &&& *final(self) == (StablePointerDialog {
                        candidates: final(self).candidates,
                        selected: final(self).selected,
                        status: final(self).status,
                        scanning: false,
                        ..*old(self)
                    })
                },
                Err(e) => {
                    &&& final(self).status@ == "Pointer scan failed: "@ + e@
                    &&& *final(self) == (StablePointerDialog { status: final(self).status, scanning: false, ..*old(self) })
                },
            },
    {
        self.scanning = false;
        if outcome.pid != self.source_pid {
            self.status = owned("The source process changed during pointer scan");
            return;
        }
        let paths = match outcome.result {
            Ok(p) => p,
            Err(e) => {
                let mut s = owned("Pointer scan failed: ");
                push_str(&mut s, e.as_str());
                self.status = s;
                return;
            },
        };
        let ghost pv = paths_view(paths@);
        let mut exe: Vec<StablePointerCandidate> = Vec::new();
        let mut other: Vec<StablePointerCandidate> = Vec::new();
        let mut i: usize = 0;
        while i < paths.len()
            invariant
                i <= paths@.len(),
                pv == paths_view(paths@),
                cands_view(exe@) == exe_paths(pv.subrange(0, i as int), true).map_values(|p: PointerPathView| fresh_candidate(p)),
                cands_view(other@) == exe_paths(pv.subrange(0, i as int), false).map_values(|p: PointerPathView| fresh_candidate(p)),
            decreases paths@.len() - i,
        {
            let ghost pre = pv.subrange(0, i + 1);
            assert(pre.drop_last() == pv.subrange(0, i as int));
            assert(pre.last() == paths@[i as int]@);
            let lower = crate::entity::lower_chars(paths[i].module.as_str());
            let c = StablePointerCandidate {
                path: paths[i].duplicate(),
                valid: None,
                resolved_base: None,
                resolved_address: None,
                observed_value: None,
                live_value: None,
                filter_value: None,
            };
            assert(c@ == fresh_candidate(pre.last()));
            if ends_in_exe(&lower) {
                let ghost before = exe@;
                exe.push(c);
                assert(cands_view(exe@) =~= cands_view(before).push(c@));
                assert(exe_paths(pre, true).map_values(|p: PointerPathView| fresh_candidate(p)) =~= exe_paths(
                    pv.subrange(0, i as int),
                    true,
                ).map_values(|p: PointerPathView| fresh_candidate(p)).push(fresh_candidate(pre.last())));
            } else {
                let ghost before = other@;
                other.push(c);
                assert(cands_view(other@) =~= cands_view(before).push(c@));
                assert(exe_paths(pre, false).map_values(|p: PointerPathView| fresh_candidate(p)) =~= exe_paths(
                    pv.subrange(0, i as int),
                    false,
                ).map_values(|p: PointerPathView| fresh_candidate(p)).push(fresh_candidate(pre.last())));
            }
            i = i + 1;
        }
        assert(pv.subrange(0, paths@.len() as int) == pv);
        let ghost e1 = exe@;
        let ghost e2 = other@;
        exe.append(&mut other);
        assert(cands_view(exe@) =~= cands_view(e1) + cands_view(e2));
        assert(cands_view(exe@) =~= exe_first(pv).map_values(|p: PointerPathView| fresh_candidate(p)));
        let n = exe.len();
        self.candidates = exe;
        self.selected = if n > 0 { Some(0) } else { None };
        let mut s = String::new();
        if n == 0 {
            push_str(&mut s, "No module-based pointer paths found after reading ");
            push_str(&mut s, read_megabytes.as_str());
            push_str(&mut s, " MB (");
            push_dec_digits(&mut s, self.limits.max_depth as u64);
            push_str(&mut s, " levels, max offset 0x");
            push_hex_digits(&mut s, self.limits.max_offset as u64);
            push_str(&mut s, ")");
        } else {
            push_dec_digits(&mut s, n as u64);
            push_str(&mut s, " candidate(s)");
            if n >= self.limits.result_limit {
                push_str(&mut s, " (path limit reached)");
            }
            push_str(&mut s, ". Restart the game, restore the target value, select the new process, then Validate.");
        }
        self.status = s;
    }
}

/// The value a filter gave for `address`: the last result at that address.
pub open spec fn filtered_value(results: Seq<ScanCandidate>, address: usize) -> Option<ScanValue>
    decreases results.len(),
{
    if results.len() == 0 {
        None
    } else if results.last().address == address {
        Some(results.last().value)
    } else {
        filtered_value(results.drop_last(), address)
    }
}

/// The candidates a value filter kept: those whose resolved address the filter returned,
/// in order, each holding the value it gave as its filtered and current value.
pub open spec fn kept_by_filter(c: Seq<CandidateView>, results: Seq<ScanCandidate>) -> Seq<CandidateView>
    decreases c.len(),
{
    if c.len() == 0 {
        seq![]
    } else {
        let rest = kept_by_filter(c.drop_last(), results);
        let last = c.last();
        match last.resolved_address {
            Some(a) => match filtered_value(results, a) {
                Some(v) => rest.push(CandidateView { filter_value: Some(v), live_value: Some(v), ..last }),
                None => rest,
            },
            None => rest,
        }
    }
}

/// The status after the filter `action` narrowed `input_count` candidates to `n`.
pub open spec fn filter_status(action: MemoryScanAction, input_count: nat, n: nat) -> Seq<char> {
    action_label(action) + ": "@ + dec_digits(input_count) + " \u{2192} "@ + dec_digits(n) + " candidate(s)"@
}

/// What a value filter over the candidates gave: the process it read, the action, how
/// many candidates it started from, and the results it kept or why it failed.
pub struct StablePointerFilterOutcome {
    pub pid: u32,
    pub action: MemoryScanAction,
    pub input_count: usize,
    pub result: Result<Vec<ScanCandidate>, String>,
}

/// The value the results at `address` gave, the last one first.
fn result_at(results: &Vec<ScanCandidate>, address: usize) -> (r: Option<ScanValue>)
    ensures
        r == filtered_value(results@, address),
{
    let mut i = results.len();
    assert(results@.subrange(0, i as int) == results@);
    while i > 0
        invariant
            i <= results@.len(),
            filtered_value(results@, address) == filtered_value(results@.subrange(0, i as int), address),
        decreases i,
    {
        let ghost pre = results@.subrange(0, i as int);
        assert(pre.drop_last() == results@.subrange(0, i - 1));
        assert(pre.last() == results@[i - 1]);
        if results[i - 1].address == address {
            return Some(results[i - 1].value);
        }
        i = i - 1;
    }
    assert(results@.subrange(0, 0) =~= Seq::<ScanCandidate>::empty());
    None
}

impl StablePointerDialog {
    /// Takes the outcome of a value filter: the candidates it kept stay, in order, holding
    /// the value it read, and the first is selected. A filter of a process other than the
    /// selected one (`selected_pid`), or one that failed, only sets the status.
    pub fn receive_stable_pointer_filter(&mut self, selected_pid: Option<u32>, outcome: StablePointerFilterOutcome)
        ensures
            selected_pid != Some(outcome.pid) ==> {
                &&& final(self).status@ == "The selected process changed during pointer filtering"@
                &&& *final(self) == (StablePointerDialog { status: final(self).status, filtering: false, ..*old(self) })
            },
            selected_pid == Some(outcome.pid) ==> match outcome.result {
                Ok(results) => {
                    let c = kept_by_filter(cands_view(old(self).candidates@), results@);
                    &&& cands_view(final(self).candidates@) == c
                    &&& final(self).selected == (if c.len() > 0 { Some(0usize) } else { None })
                    &&& final(self).status@ == filter_status(outcome.action, outcome.input_count as nat, c.len())
                    &&& *final(self) == (StablePointerDialog {
                        candidates: final(self).candidates,
                        selected: final(self).selected,
                        status: final(self).status,
                        filtering: false,
                        ..*old(self)
                    })
                },
                Err(e) => {
                    &&& final(self).status@ == "Pointer candidate filter failed: "@ + e@
                    &&& *final(self) == (StablePointerDialog { status: final(self).status, filtering: false, ..*old(self) })
                },
            },
    {
        self.filtering = false;
        if selected_pid != Some(outcome.pid) {
            self.status = owned("The selected process changed during pointer filtering");
            return;
        }
        let results = match outcome.result {
            Ok(r) => r,
            Err(e) => {
                let mut s = owned("Pointer candidate filter failed: ");
                push_str(&mut s, e.as_str());
                self.status = s;
                return;
            },
        };
        let ghost cv = cands_view(self.candidates@);
        let mut kept: Vec<StablePointerCandidate> = Vec::new();
        let mut i: usize = 0;
        while i < self.candidates.len()
            invariant
                i <= self.candidates@.len(),
                cv == cands_view(self.candidates@),
                cands_view(kept@) == kept_by_filter(cv.subrange(0, i as int), results@),
            decreases self.candidates@.len() - i,
        {
            let ghost pre = cv.subrange(0, i + 1);
            assert(pre.drop_last() == cv.subrange(0, i as int));
            assert(pre.last() == self.candidates@[i as int]@);
            let c = &self.candidates[i];
            if let Some(a) = c.resolved_address {
                if let Some(v) = result_at(&results, a) {
                    let k = StablePointerCandidate {
                        path: c.path.duplicate(),
                        valid: c.valid,
                        resolved_base: c.resolved_base,
                        resolved_address: c.resolved_address,
                        observed_value: c.observed_value,
                        live_value: Some(v),
                        filter_value: Some(v),
                    };
                    let ghost before = kept@;
                    kept.push(k);
                    assert(cands_view(kept@) =~= cands_view(before).push(k@));
                }
            }
            i = i + 1;
        }
        assert(cv.subrange(0, cv.len() as int) == cv);
        let n = kept.len();
        self.candidates = kept;
        self.selected = if n > 0 { Some(0) } else { None };
        let mut s = owned(outcome.action.label());
        push_str(&mut s, ": ");
        push_dec_digits(&mut s, outcome.input_count as u64);
        push_str(&mut s, " \u{2192} ");
        push_dec_digits(&mut s, n as u64);
        push_str(&mut s, " candidate(s)");
        self.status = s;
    }
}

/// The last value a candidate holds: the one a filter gave, else the one a validation
/// read, else the current one.
pub open spec fn last_value(c: CandidateView) -> Option<ScanValue> {
    if c.filter_value is Some {
        c.filter_value
    } else if c.observed_value is Some {
        c.observed_value
    } else {
        c.live_value
    }
}

/// What a value filter starts from: each resolved candidate holding a value, by its
/// address and that value, in order.
pub open spec fn filter_inputs(c: Seq<CandidateView>) -> Seq<ScanCandidate>
    decreases c.len(),
{
    if c.len() == 0 {
        seq![]
    } else {
        let rest = filter_inputs(c.drop_last());
        match (c.last().resolved_address, last_value(c.last())) {
            (Some(a), Some(v)) => rest.push(ScanCandidate { address: a, value: v }),
            _ => rest,
        }
    }
}

/// Whether the results are in increasing order of address.
pub open spec fn by_address(s: Seq<ScanCandidate>) -> bool {
    forall|i: int, j: int| 0 <= i < j < s.len() ==> s[i].address <= s[j].address
}

/// Whether an action filters by a value typed.
pub open spec fn takes_exact_value(a: MemoryScanAction) -> bool {
    a == MemoryScanAction::FirstScan || a == MemoryScanAction::Exact || a == MemoryScanAction::Less
        || a == MemoryScanAction::Greater
}

/// The value and range a filter for `action` looks for, or why it cannot run: `value`,
/// `min` and `max` are the value text and the range texts read as values of the dialog's
/// type.
pub open spec fn filter_bounds(
    action: MemoryScanAction,
    value: Option<ScanValue>,
    min: Option<ScanValue>,
    max: Option<ScanValue>,
) -> Result<(Option<ScanValue>, Option<(ScanValue, ScanValue)>), Seq<char>> {
    if action == MemoryScanAction::Between && min is None {
        Err("Invalid minimum value"@)
    } else if action == MemoryScanAction::Between && max is None {
        Err("Invalid maximum value"@)
    } else if action == MemoryScanAction::Between && !bounds_ordered(min.unwrap(), max.unwrap()) {
        Err("Minimum must not exceed maximum"@)
    } else {
        let range = if action == MemoryScanAction::Between {
            Some((min.unwrap(), max.unwrap()))
        } else {
            None
        };
        if takes_exact_value(action) {
            match value {
                None => Err("Invalid value"@),
                Some(v) => Ok((Some(v), range)),
            }
        } else {
            Ok((None, range))
        }
    }
}

/// The comparison a filter for `action` makes: a first scan keeps the candidates equal to
/// the value; an unknown-value scan compares nothing and only reads the values again.
pub open spec fn filter_comparison(action: MemoryScanAction) -> Option<ScanComparison> {
    if action == MemoryScanAction::FirstScan {
        Some(ScanComparison::Exact)
    } else {
        action_comparison(action)
    }
}

/// A value filter to run over the stable-pointer candidates.
pub struct StablePointerFilterJob {
    pub pid: u32,
    pub action: MemoryScanAction,
    /// How many candidates the dialog held when the filter started.
    pub input_count: usize,
    pub value_type: ScanValueType,
    pub comparison: Option<ScanComparison>,
    pub exact: Option<ScanValue>,
    pub range: Option<(ScanValue, ScanValue)>,
    /// The resolved candidates with their last values, in increasing order of address.
    pub inputs: Vec<ScanCandidate>,
}

/// Inserting an element into a sequence adds it to its multiset.
proof fn lemma_insert_to_multiset<A>(s: Seq<A>, i: int, x: A)
    requires
        0 <= i <= s.len(),
    ensures
        s.insert(i, x).to_multiset() == s.to_multiset().insert(x),
{
    broadcast use vstd::seq_lib::group_to_multiset_ensures;

    let t = s.insert(i, x);
    assert(t.remove(i) =~= s);
    assert(t[i] == x);
    assert(t.contains(x));
    assert(t.to_multiset() =~= t.to_multiset().remove(x).insert(x));
}

/// Inserts `x` after the results at addresses up to its own.
fn insert_by_address(out: &mut Vec<ScanCandidate>, x: ScanCandidate)
    requires
        by_address(old(out)@),
    ensures
        by_address(final(out)@),
        final(out)@.to_multiset() == old(out)@.to_multiset().insert(x),
{
    let a = x.address;
    let mut p: usize = 0;
    while p < out.len() && out[p].address <= a
        invariant
            p <= out@.len(),
            forall|k: int| 0 <= k < p ==> out@[k].address <= a,
        decreases out@.len() - p,
    {
        p = p + 1;
    }
    let ghost before = out@;
    proof {
        lemma_insert_to_multiset(before, p as int, x);
        before.insert_ensures(p as int, x);
    }
    out.insert(p, x);
    assert forall|j: int, k: int| 0 <= j < k < out@.len() implies out@[j].address <= out@[k].address by {
        if k < p {
        } else if k == p {
            assert(out@[j] == before[j]);
        } else if j < p {
            assert(out@[k] == before[k - 1]);
            assert(out@[j] == before[j]);
        } else if j == p {
            assert(out@[k] == before[k - 1]);
            assert(before[p as int].address > a);
            assert(before[p as int].address <= before[k - 1].address);
        } else {
            assert(out@[k] == before[k - 1]);
            assert(out@[j] == before[j - 1]);
        }
    }
}

/// The inputs of a value filter, in increasing order of address.
fn sorted_filter_inputs(c: &Vec<StablePointerCandidate>) -> (r: Vec<ScanCandidate>)
    ensures
        by_address(r@),
        r@.to_multiset() == filter_inputs(cands_view(c@)).to_multiset(),
{
    broadcast use vstd::seq_lib::group_to_multiset_ensures;

    let ghost cv = cands_view(c@);
    let mut out: Vec<ScanCandidate> = Vec::new();
    let mut i: usize = 0;
    while i < c.len()
        invariant
            i <= c@.len(),
            cv == cands_view(c@),
            by_address(out@),
            out@.to_multiset() == filter_inputs(cv.subrange(0, i as int)).to_multiset(),
        decreases c@.len() - i,
    {
        let ghost pre = cv.subrange(0, i + 1);
        let ghost prev = cv.subrange(0, i as int);
        assert(pre.drop_last() == prev);
        assert(pre.last() == c@[i as int]@);
        let v = if c[i].filter_value.is_some() {
            c[i].filter_value
        } else if c[i].observed_value.is_some() {
            c[i].observed_value
        } else {
            c[i].live_value
        };
        match (c[i].resolved_address, v) {
            (Some(a), Some(value)) => {
                let x = ScanCandidate { address: a, value };
                insert_by_address(&mut out, x);
                assert(filter_inputs(pre) == filter_inputs(prev).push(x));
                proof {
                    filter_inputs(prev).to_multiset_ensures();
                }
            },
            _ => {
                assert(filter_inputs(pre) == filter_inputs(prev));
            },
        }
        i = i + 1;
    }
    assert(cv.subrange(0, cv.len() as int) == cv);
    out
}

/// Whether the dialog is busy: scanning paths, validating, or filtering.
pub open spec fn dialog_busy(d: StablePointerDialog) -> bool {
    d.validation_pid is Some || d.filtering || d.scanning
}

impl CrosshairApp {
    /// Starts a value filter for `action` over the validated stable-pointer candidates in
    /// the selected process: `value`, `min` and `max` are the value text and the range
    /// texts read as values of the dialog's type. The filter starts from each resolved
    /// candidate holding a value, in order of address, and the dialog shows it running.
    /// Without a process, with invalid inputs, or without such a candidate, no filter
    /// starts and the dialog's status says why; while the dialog is busy nothing changes.
    pub fn start_stable_pointer_filter(
        &mut self,
        dialog: &mut StablePointerDialog,
        action: MemoryScanAction,
        value: Option<ScanValue>,
        min: Option<ScanValue>,
        max: Option<ScanValue>,
    ) -> (r: Option<StablePointerFilterJob>)
        ensures
            ({
                let d = *old(dialog);
                let inputs = filter_inputs(cands_view(d.candidates@));
                if old(self).memory_panel.process_pid is None {
                    &&& r is None
                    &&& final(dialog).status@ == "Select the restarted process before filtering candidates"@
                    &&& *final(dialog) == (StablePointerDialog { status: final(dialog).status, ..d })
                    &&& *final(self) == *old(self)
                } else if dialog_busy(d) {
                    r is None && *final(dialog) == d && *final(self) == *old(self)
                } else {
                    match filter_bounds(action, value, min, max) {
                        Err(e) => {
                            &&& r is None
                            &&& final(dialog).status@ == e
                            &&& *final(dialog) == (StablePointerDialog { status: final(dialog).status, ..d })
                            &&& *final(self) == *old(self)
                        },
                        Ok((exact, range)) => if inputs.len() == 0 {
                            &&& r is None
                            &&& final(dialog).status@ == "Validate candidates before applying value filters"@
                            &&& *final(dialog) == (StablePointerDialog { status: final(dialog).status, ..d })
                            &&& *final(self) == *old(self)
                        } else {
                            let job = r.unwrap();
                            &&& r is Some
                            &&& job.pid == old(self).memory_panel.process_pid.unwrap()
                            &&& job.action == action
                            &&& job.input_count == d.candidates@.len()
                            &&& job.value_type == d.value_type
                            &&& job.comparison == filter_comparison(action)
                            &&& job.exact == exact
                            &&& job.range == range
                            &&& by_address(job.inputs@)
                            &&& job.inputs@.to_multiset() == inputs.to_multiset()
                            &&& final(dialog).status@ == action_label(action) + " \u{2014} filtering "@ + dec_digits(
                                d.candidates@.len() as nat,
                            ) + " candidate(s)\u{2026}"@
                            &&& *final(dialog) == (StablePointerDialog { status: final(dialog).status, filtering: true, ..d })
                            &&& final(self).memory_panel.last_action@ == action_label(action)
                            &&& *final(self) == (CrosshairApp {
                                memory_panel: MemoryPanelState { last_action: final(self).memory_panel.last_action, ..old(self).memory_panel },
                                ..*old(self)
                            })
                        },
                    }
                }
            }),
    {
        let pid = match self.memory_panel.process_pid {
            Some(p) => p,
            None => {
                dialog.status = owned("Select the restarted process before filtering candidates");
                return None;
            },
        };
        if dialog.validation_pid.is_some() || dialog.filtering || dialog.scanning {
            return None;
        }
        let between = match action {
            MemoryScanAction::Between => true,
            _ => false,
        };
        let range = if between {
            let lo = match min {
                Some(v) => v,
                None => {
                    dialog.status = owned("Invalid minimum value");
                    return None;
                },
            };
            let hi = match max {
                Some(v) => v,
                None => {
                    dialog.status = owned("Invalid maximum value");
                    return None;
                },
            };
            if !scan_bounds_are_ordered(lo, hi) {
                dialog.status = owned("Minimum must not exceed maximum");
                return None;
            }
            Some((lo, hi))
        } else {
            None
        };
        let takes_value = match action {
            MemoryScanAction::FirstScan | MemoryScanAction::Exact | MemoryScanAction::Less | MemoryScanAction::Greater => true,
            _ => false,
        };
        let exact = if takes_value {
            match value {
                Some(v) => Some(v),
                None => {
                    dialog.status = owned("Invalid value");
                    return None;
                },
            }
        } else {
            None
        };
        let inputs = sorted_filter_inputs(&dialog.candidates);
        if inputs.len() == 0 {
            proof {
                filter_inputs(cands_view(dialog.candidates@)).to_multiset_ensures();
                inputs@.to_multiset_ensures();
            }
            dialog.status = owned("Validate candidates before applying value filters");
            return None;
        }
        proof {
            filter_inputs(cands_view(dialog.candidates@)).to_multiset_ensures();
            inputs@.to_multiset_ensures();
        }
        let input_count = dialog.candidates.len();
        let comparison = match action {
            MemoryScanAction::FirstScan => Some(ScanComparison::Exact),
            _ => action.comparison(),
        };
        let mut s = owned(action.label());
        push_str(&mut s, " \u{2014} filtering ");
        push_dec_digits(&mut s, input_count as u64);
        push_str(&mut s, " candidate(s)\u{2026}");
        dialog.status = s;
        dialog.filtering = true;
        self.memory_panel.last_action = owned(action.label());
        Some(StablePointerFilterJob {
            pid,
            action,
            input_count,
            value_type: dialog.value_type,
            comparison,
            exact,
            range,
            inputs,
        })
    }
}

} // verus!
