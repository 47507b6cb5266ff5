//! The stable-pointer dialog: pointer paths from a module to a saved address, checked
//! against the value expected there, ranked, and saved as pointer rows.
use vstd::prelude::*;
use crate::scan::{editable_scan_value, editable_text_spec, ScanValue, ScanValueType};
use crate::pointer::{PointerPath, PointerPathView};
use crate::settings::PointerScanLimits;
use crate::saved::SavedMemoryAddress;
use crate::panel::{AppState, CrosshairApp, MemoryPanelState};
use crate::pointer::{copy_offsets, PointerModel, PointerSpec};
use crate::library::{entries_view, eq_ignore_ascii_case, fallback_app_name, persisted, str_eq_ignore_ascii_case, string_opt};
use crate::number::{dec_digits, hex_digits, push_dec_digits, push_hex_digits};
use crate::text::{owned, push_str};

verus! {

/// A pointer path found for the saved address, with what checking it gave.
pub struct StablePointerCandidate {
    pub path: PointerPath,
    /// `Some(true)` when it resolved to the expected value, `Some(false)` when it did not
    /// resolve or read, `None` when unchecked or holding another value.
    pub valid: Option<bool>,
    pub resolved_base: Option<usize>,
    pub resolved_address: Option<usize>,
    pub observed_value: Option<ScanValue>,
    pub live_value: Option<ScanValue>,
    pub filter_value: Option<ScanValue>,
}

/// What a candidate holds.
pub struct CandidateView {
    pub path: PointerPathView,
    pub valid: Option<bool>,
    pub resolved_base: Option<usize>,
    pub resolved_address: Option<usize>,
    pub observed_value: Option<ScanValue>,
    pub live_value: Option<ScanValue>,
    pub filter_value: Option<ScanValue>,
}

impl View for StablePointerCandidate {
    type V = CandidateView;

    open spec fn view(&self) -> CandidateView {
        CandidateView {
            path: self.path@,
            valid: self.valid,
            resolved_base: self.resolved_base,
            resolved_address: self.resolved_address,
            observed_value: self.observed_value,
            live_value: self.live_value,
            filter_value: self.filter_value,
        }
    }
}

impl StablePointerCandidate {
    /// A copy of the candidate.
    pub fn duplicate(&self) -> (r: StablePointerCandidate)
        ensures
            r@ == self@,
    {
        StablePointerCandidate {
            path: self.path.duplicate(),
            valid: self.valid,
            resolved_base: self.resolved_base,
            resolved_address: self.resolved_address,
            observed_value: self.observed_value,
            live_value: self.live_value,
            filter_value: self.filter_value,
        }
    }
}

/// The dialog of a stable-pointer scan from a saved address.
pub struct StablePointerDialog {
    pub source_address: usize,
    pub source_pid: u32,
    pub value_type: ScanValueType,
    /// The value read at the saved address when the scan started.
    pub expected_value: ScanValue,
    pub status: String,
    pub candidates: Vec<StablePointerCandidate>,
    pub selected: Option<usize>,
    /// Whether the path scan is running.
    pub scanning: bool,
    pub limits: PointerScanLimits,
    pub filter: String,
    pub exe_only: bool,
    /// The process being validated, while a validation runs.
    pub validation_pid: Option<u32>,
    /// The first candidate not validated yet.
    pub validation_cursor: usize,
    /// Whether a value filter over the candidates is running.
    pub filtering: bool,
}

/// The views of a list of candidates.
pub open spec fn cands_view(s: Seq<StablePointerCandidate>) -> Seq<CandidateView> {
    s.map_values(|c: StablePointerCandidate| c@)
}

impl CrosshairApp {
    /// Opens the stable-pointer dialog for `saved`, scanning pointer paths to it within
    /// `limits`: the value it holds is what paths must lead to. `modules` is whether the
    /// modules of the process could be listed, or the error; without them the dialog only
    /// reports it. Without a process or a value nothing opens and the status says why.
    pub fn start_stable_pointer_scan(&mut self, saved: &SavedMemoryAddress, modules: Result<(), String>, limits: PointerScanLimits) -> (r: Option<StablePointerDialog>)
        ensures
            old(self).memory_panel.process_pid is None ==> r is None && final(self).memory_panel.status@ == "Select a process"@
                && *final(self) == (CrosshairApp { memory_panel: MemoryPanelState { status: final(self).memory_panel.status, ..old(self).memory_panel }, ..*old(self) }),
            old(self).memory_panel.process_pid is Some && saved.current is None ==> r is None
                && final(self).memory_panel.status@ == "Unable to read this address"@
                && *final(self) == (CrosshairApp { memory_panel: MemoryPanelState { status: final(self).memory_panel.status, ..old(self).memory_panel }, ..*old(self) }),
            old(self).memory_panel.process_pid is Some && saved.current is Some ==> {
                let d = r.unwrap();
                &&& r is Some
                &&& d.source_address == saved.address
                &&& d.source_pid == old(self).memory_panel.process_pid.unwrap()
                &&& d.value_type == saved.value_type
                &&& d.expected_value == saved.current.unwrap()
                &&& d.candidates@.len() == 0
                &&& d.selected is None
                &&& d.limits == limits
                &&& d.filter@ == Seq::<char>::empty()
                &&& !d.exe_only
                &&& d.validation_pid is None
                &&& d.validation_cursor == 0
                &&& !d.filtering
                &&& match modules {
                    Ok(_) => d.scanning && d.status@ == "Scanning pointer paths…"@ && *final(self) == *old(self),
                    Err(e) => {
                        &&& !d.scanning
                        &&& d.status@ == "Unable to list process modules: "@ + e@
                        &&& final(self).memory_panel.status@ == d.status@
                        &&& *final(self) == (CrosshairApp { memory_panel: MemoryPanelState { status: final(self).memory_panel.status, ..old(self).memory_panel }, ..*old(self) })
                    },
                }
            },
    {
        let pid = match self.memory_panel.process_pid {
            Some(p) => p,
            None => {
                self.memory_panel.status = owned("Select a process");
                return None;
            },
        };
        let expected_value = match saved.current {
            Some(v) => v,
            None => {
                self.memory_panel.status = owned("Unable to read this address");
                return None;
            },
        };
        let (status, scanning) = match modules {
            Ok(_) => (owned("Scanning pointer paths…"), true),
            Err(e) => {
                let mut s = owned("Unable to list process modules: ");
                push_str(&mut s, e.as_str());
                self.memory_panel.status = s.clone();
                (s, false)
            },
        };
        Some(StablePointerDialog {
            source_address: saved.address,
            source_pid: pid,
            value_type: saved.value_type,
            expected_value,
            status,
            candidates: Vec::new(),
            selected: None,
            scanning,
            limits,
            filter: String::new(),
            exe_only: false,
            validation_pid: None,
            validation_cursor: 0,
            filtering: false,
        })
    }
}

/// A candidate with its checks cleared.
pub open spec fn unchecked(c: CandidateView) -> CandidateView {
    CandidateView {
        valid: None,
        resolved_base: None,
        resolved_address: None,
        observed_value: None,
        live_value: None,
        filter_value: None,
        ..c
    }
}

impl CrosshairApp {
    /// Starts checking every candidate again in the selected process: their checks are
    /// cleared and the validation starts at the first. Without a process nothing changes.
    pub fn validate_stable_pointer_candidates(&self, dialog: &mut StablePointerDialog)
        ensures
            self.memory_panel.process_pid is None ==> *final(dialog) == *old(dialog),
            self.memory_panel.process_pid is Some ==> {
                &&& cands_view(final(dialog).candidates@) == cands_view(old(dialog).candidates@).map_values(|c: CandidateView| unchecked(c))
                &&& final(dialog).status@ == "Validating 0/"@ + dec_digits(old(dialog).candidates@.len()) + " pointer path(s)..."@
                &&& *final(dialog) == (StablePointerDialog {
                    candidates: final(dialog).candidates,
                    validation_pid: self.memory_panel.process_pid,
                    validation_cursor: 0,
                    status: final(dialog).status,
                    ..*old(dialog)
                })
            },
    {
        if self.memory_panel.process_pid.is_none() {
            return;
        }
        let ghost before = cands_view(dialog.candidates@);
        let n = dialog.candidates.len();
        let mut i: usize = 0;
        while i < n
            invariant
                i <= n,
                n == dialog.candidates@.len(),
                before == cands_view(old(dialog).candidates@),
                before.len() == n,
                forall|k: int| 0 <= k < i ==> #[trigger] dialog.candidates@[k]@ == unchecked(before[k]),
                forall|k: int| i <= k < n ==> #[trigger] dialog.candidates@[k]@ == before[k],
                *dialog == (StablePointerDialog { candidates: dialog.candidates, ..*old(dialog) }),
            decreases n - i,
        {
            assert(dialog.candidates@[i as int]@ == before[i as int]);
            let c = StablePointerCandidate {
                path: dialog.candidates[i].path.duplicate(),
                valid: None,
                resolved_base: None,
                resolved_address: None,
                observed_value: None,
                live_value: None,
                filter_value: None,
            };
            assert(c@ == unchecked(before[i as int]));
            dialog.candidates.set(i, c);
            i = i + 1;
        }
        assert(cands_view(dialog.candidates@) =~= before.map_values(|c: CandidateView| unchecked(c)));
        let mut s = owned("Validating 0/");
        push_dec_digits(&mut s, n as u64);
        push_str(&mut s, " pointer path(s)...");
        dialog.validation_pid = self.memory_panel.process_pid;
        dialog.validation_cursor = 0;
        dialog.status = s;
    }
}

/// How many candidates one validation step checks.
pub const VALIDATION_BATCH: usize = 16;

/// The end of the batch the next validation step checks: sixteen past the cursor, at most
/// the number of candidates.
pub open spec fn batch_end(d: StablePointerDialog) -> int {
    let e = if d.validation_cursor + VALIDATION_BATCH > usize::MAX { usize::MAX as int } else { d.validation_cursor + VALIDATION_BATCH };
    if e < d.candidates@.len() { e } else { d.candidates@.len() as int }
}

impl StablePointerDialog {
    /// The candidates `[start, end)` the next validation step checks.
    pub fn validation_batch(&self) -> (r: (usize, usize))
        ensures
            r.0 == self.validation_cursor,
            r.1 == batch_end(*self),
    {
        let e = self.validation_cursor.saturating_add(VALIDATION_BATCH);
        let end = if e < self.candidates.len() { e } else { self.candidates.len() };
        (self.validation_cursor, end)
    }
}

/// What resolving a candidate's path and reading there gave: the address it resolved to,
/// and the value read there. Each counts only when the step before it succeeded.
pub struct PathRead {
    pub address: Option<usize>,
    pub observed: Option<ScanValue>,
}

/// `a + b` wrapping around the address range.
pub open spec fn wrapping_add(a: usize, b: usize) -> usize {
    if a + b <= usize::MAX { (a + b) as usize } else { (a + b - usize::MAX - 1) as usize }
}

/// The base of the last listed module named `name`, ignoring ASCII case.
pub open spec fn module_base_spec(modules: Seq<(String, usize, usize)>, name: Seq<char>) -> Option<usize>
    decreases modules.len(),
{
    if modules.len() == 0 {
        None
    } else if eq_ignore_ascii_case(modules.last().0@, name) {
        Some(modules.last().1)
    } else {
        module_base_spec(modules.drop_last(), name)
    }
}

/// The base of the module named `name`, ignoring ASCII case; of several, the last listed.
pub fn module_base_named(modules: &[(String, usize, usize)], name: &str) -> (r: Option<usize>)
    ensures
        r == module_base_spec(modules@, name@),
{
    let mut i: usize = modules.len();
    assert(modules@.subrange(0, i as int) == modules@);
    while i > 0
        invariant
            i <= modules@.len(),
            module_base_spec(modules@, name@) == module_base_spec(modules@.subrange(0, i as int), name@),
        decreases i,
    {
        let ghost pre = modules@.subrange(0, i as int);
        assert(pre.last() == modules@[i - 1]);
        assert(pre.drop_last() == modules@.subrange(0, i - 1));
        if str_eq_ignore_ascii_case(modules[i - 1].0.as_str(), name) {
            return Some(modules[i - 1].1);
        }
        i = i - 1;
    }
    None
}

/// A candidate after it was checked: with `base` the base of its module (when loaded), and
/// `read` what resolving its path from there and reading gave.
pub open spec fn checked(c: CandidateView, base: Option<usize>, read: PathRead, expected: ScanValue) -> CandidateView {
    match base {
        None => CandidateView { valid: Some(false), ..c },
        Some(b) => {
            let c1 = CandidateView { resolved_base: Some(wrapping_add(b, c.path.module_offset)), ..c };
            match read.address {
                None => CandidateView { valid: Some(false), ..c1 },
                Some(a) => {
                    let c2 = CandidateView { resolved_address: Some(a), ..c1 };
                    match read.observed {
                        None => CandidateView { valid: Some(false), ..c2 },
                        Some(v) => CandidateView {
                            observed_value: Some(v),
                            live_value: Some(v),
                            filter_value: Some(v),
                            valid: if v == expected { Some(true) } else { None },
                            ..c2
                        },
                    }
                },
            }
        },
    }
}

/// How a checked candidate ranks: 0 when it holds the expected value, 1 when it resolved to
/// another value, 2 when it is broken.
pub open spec fn rank(c: CandidateView) -> u8 {
    if c.valid == Some(true) {
        0
    } else if c.valid is None && c.observed_value is Some {
        1
    } else {
        2
    }
}

/// The candidates of `s` ranked `k`, in order.
pub open spec fn with_rank(s: Seq<CandidateView>, k: u8) -> Seq<CandidateView>
    decreases s.len(),
{
    if s.len() == 0 {
        Seq::empty()
    } else {
        let rest = with_rank(s.drop_last(), k);
        if rank(s.last()) == k {
            rest.push(s.last())
        } else {
            rest
        }
    }
}

/// The candidates of `s` ranked below `k`, by rank and then in order.
pub open spec fn ranked_below(s: Seq<CandidateView>, k: nat) -> Seq<CandidateView>
    decreases k,
{
    if k == 0 {
        Seq::empty()
    } else {
        ranked_below(s, (k - 1) as nat) + with_rank(s, (k - 1) as u8)
    }
}

/// The three ranks together hold every candidate.
pub proof fn lemma_rank_counts(s: Seq<CandidateView>)
    ensures
        with_rank(s, 0).len() + with_rank(s, 1).len() + with_rank(s, 2).len() == s.len(),
    decreases s.len(),
{
    if s.len() > 0 {
        lemma_rank_counts(s.drop_last());
    }
}

/// The ranked list is the candidates of each rank in turn.
proof fn lemma_ranked_three(s: Seq<CandidateView>)
    ensures
        ranked_below(s, 3) == with_rank(s, 0) + with_rank(s, 1) + with_rank(s, 2),
{
    reveal_with_fuel(ranked_below, 4);
    assert(ranked_below(s, 1) =~= with_rank(s, 0));
}

/// Ranking the checked candidates keeps every candidate, each as often as before: the
/// ranked list holds the same candidates as the list it was made from.
pub proof fn lemma_ranking_keeps_candidates(s: Seq<CandidateView>)
    ensures
        ranked_below(s, 3).to_multiset() == s.to_multiset(),
    decreases s.len(),
{
    broadcast use vstd::seq_lib::group_to_multiset_ensures;
    broadcast use vstd::seq_lib::lemma_multiset_commutative;
    broadcast use vstd::multiset::group_multiset_axioms;

    lemma_ranked_three(s);
    if s.len() == 0 {
        assert(ranked_below(s, 3) =~= Seq::<CandidateView>::empty());
    } else {
        let d = s.drop_last();
        let x = s.last();
        lemma_ranking_keeps_candidates(d);
        lemma_ranked_three(d);
        assert(s == d.push(x));
        let m0 = with_rank(d, 0).to_multiset();
        let m1 = with_rank(d, 1).to_multiset();
        let m2 = with_rank(d, 2).to_multiset();
        assert((with_rank(d, 0) + with_rank(d, 1) + with_rank(d, 2)).to_multiset() =~= m0.add(m1).add(m2));
        assert((with_rank(s, 0) + with_rank(s, 1) + with_rank(s, 2)).to_multiset() =~= with_rank(s, 0).to_multiset().add(
            with_rank(s, 1).to_multiset(),
        ).add(with_rank(s, 2).to_multiset()));
        assert(s.to_multiset() =~= d.to_multiset().insert(x));
        if rank(x) == 0 {
            assert(with_rank(s, 0).to_multiset() =~= m0.insert(x));
        } else if rank(x) == 1 {
            assert(with_rank(s, 1).to_multiset() =~= m1.insert(x));
        } else {
            assert(with_rank(s, 2).to_multiset() =~= m2.insert(x));
        }
        assert(ranked_below(s, 3).to_multiset() =~= s.to_multiset());
    }
}

/// The status once every candidate of process `pid` was checked.
pub open spec fn validation_status(pid: u32, valid: nat, changed: nat, broken: nat, expected: Seq<char>) -> Seq<char> {
    "PID "@ + dec_digits(pid as nat) + ": "@ + dec_digits(valid) + " verified, "@ + dec_digits(changed)
        + " resolved with a different value, "@ + dec_digits(broken) + " broken. Expected "@ + expected + "."@
}

/// The candidates once the batch `[start, end)` was checked with `reads`.
pub open spec fn batch_checked(
    s: Seq<CandidateView>,
    start: int,
    end: int,
    modules: Seq<(String, usize, usize)>,
    reads: Seq<PathRead>,
    expected: ScanValue,
) -> Seq<CandidateView> {
    Seq::new(s.len(), |k: int| if start <= k < end {
        checked(s[k], module_base_spec(modules, s[k].path.module), reads[k - start], expected)
    } else {
        s[k]
    })
}

/// The candidates sorted by rank, keeping the order within a rank.
fn sorted_by_rank(cands: &Vec<StablePointerCandidate>) -> (r: Vec<StablePointerCandidate>)
    ensures
        cands_view(r@) == ranked_below(cands_view(cands@), 3),
{
    let ghost s = cands_view(cands@);
    let mut out: Vec<StablePointerCandidate> = Vec::new();
    let mut k: u8 = 0;
    while k < 3
        invariant
            k <= 3,
            s == cands_view(cands@),
            cands_view(out@) == ranked_below(s, k as nat),
        decreases 3 - k,
    {
        let mut i: usize = 0;
        assert(s.subrange(0, 0) =~= Seq::<CandidateView>::empty());
        while i < cands.len()
            invariant
                i <= cands@.len(),
                k < 3,
                s == cands_view(cands@),
                cands_view(out@) == ranked_below(s, k as nat) + with_rank(s.subrange(0, i as int), k),
            decreases cands@.len() - i,
        {
            proof {
                let pre = s.subrange(0, i + 1);
                assert(pre.drop_last() == s.subrange(0, i as int));
                assert(pre.last() == cands@[i as int]@);
            }
            let c = &cands[i];
            let r: u8 = if c.valid == Some(true) {
                0
            } else if c.valid.is_none() && c.observed_value.is_some() {
                1
            } else {
                2
            };
            if r == k {
                let d = c.duplicate();
                let ghost before = out@;
                let ghost dv = d@;
                out.push(d);
                assert(cands_view(out@) =~= cands_view(before).push(dv));
            }
            i = i + 1;
        }
        assert(s.subrange(0, s.len() as int) == s);
        k = k + 1;
    }
    out
}

/// How many candidates of `v` rank `k`.
fn count_rank(v: &Vec<StablePointerCandidate>, k: u8) -> (n: usize)
    ensures
        n == with_rank(cands_view(v@), k).len(),
{
    let ghost s = cands_view(v@);
    let mut n: usize = 0;
    let mut i: usize = 0;
    assert(s.subrange(0, 0) =~= Seq::<CandidateView>::empty());
    while i < v.len()
        invariant
            i <= v@.len(),
            s == cands_view(v@),
            n == with_rank(s.subrange(0, i as int), k).len(),
            n <= i,
        decreases v@.len() - i,
    {
        proof {
            let pre = s.subrange(0, i + 1);
            assert(pre.drop_last() == s.subrange(0, i as int));
            assert(pre.last() == v@[i as int]@);
        }
        let c = &v[i];
        let r: u8 = if c.valid == Some(true) {
            0
        } else if c.valid.is_none() && c.observed_value.is_some() {
            1
        } else {
            2
        };
        if r == k {
            n = n + 1;
        }
        i = i + 1;
    }
    assert(s.subrange(0, s.len() as int) == s);
    n
}

/// Checks candidate `i` against `modules` and `read`.
fn check_candidate(dialog: &mut StablePointerDialog, i: usize, modules: &[(String, usize, usize)], read: &PathRead)
    requires
        i < old(dialog).candidates@.len(),
    ensures
        final(dialog).candidates@.len() == old(dialog).candidates@.len(),
        final(dialog).candidates@[i as int]@ == checked(
            old(dialog).candidates@[i as int]@,
            module_base_spec(modules@, old(dialog).candidates@[i as int].path.module@),
            *read,
            old(dialog).expected_value,
        ),
        forall|k: int| 0 <= k < old(dialog).candidates@.len() && k != i ==> #[trigger] final(dialog).candidates@[k]
            == old(dialog).candidates@[k],
        *final(dialog) == (StablePointerDialog { candidates: final(dialog).candidates, ..*old(dialog) }),
{
    let base = match module_base_named(modules, dialog.candidates[i].path.module.as_str()) {
        Some(b) => b,
        None => {
            dialog.candidates[i].valid = Some(false);
            return;
        },
    };
    let offset = dialog.candidates[i].path.module_offset;
    let resolved_base = if base <= usize::MAX - offset {
        base + offset
    } else {
        offset - (usize::MAX - base) - 1
    };
    dialog.candidates[i].resolved_base = Some(resolved_base);
    let address = match read.address {
        Some(a) => a,
        None => {
            dialog.candidates[i].valid = Some(false);
            return;
        },
    };
    dialog.candidates[i].resolved_address = Some(address);
    let observed = match read.observed {
        Some(v) => v,
        None => {
            dialog.candidates[i].valid = Some(false);
            return;
        },
    };
    dialog.candidates[i].observed_value = Some(observed);
    dialog.candidates[i].live_value = Some(observed);
    dialog.candidates[i].filter_value = Some(observed);
    dialog.candidates[i].valid = if observed == dialog.expected_value { Some(true) } else { None };
}

impl CrosshairApp {
    /// Checks the next batch of candidates while a validation runs: `modules` lists the
    /// modules of the process (name, base, size), and `reads[k]` is what resolving the path
    /// of candidate `start + k` of `validation_batch` and reading there gave. Once every
    /// candidate is checked they are ranked (expected value, another value, broken) and the
    /// status counts them; `float_text` is the expected value written in decimal when it is
    /// a float. The validation stops if the selected process changed.
    pub fn advance_stable_pointer_validation(
        &self,
        dialog: &mut StablePointerDialog,
        modules: &[(String, usize, usize)],
        reads: &[PathRead],
        float_text: Option<String>,
    )
        requires
            old(dialog).validation_cursor <= old(dialog).candidates@.len(),
            reads@.len() == batch_end(*old(dialog)) - old(dialog).validation_cursor,
        ensures
            old(dialog).validation_pid is None ==> *final(dialog) == *old(dialog),
            old(dialog).validation_pid is Some && self.memory_panel.process_pid != old(dialog).validation_pid ==> {
                &&& final(dialog).status@ == "The selected process changed during validation"@
                &&& *final(dialog) == (StablePointerDialog { validation_pid: None, status: final(dialog).status, ..*old(dialog) })
            },
            old(dialog).validation_pid is Some && self.memory_panel.process_pid == old(dialog).validation_pid ==> {
                let d = *old(dialog);
                let end = batch_end(d);
                let all = batch_checked(cands_view(d.candidates@), d.validation_cursor as int, end, modules@, reads@, d.expected_value);
                let n = d.candidates@.len();
                if end < n {
                    &&& cands_view(final(dialog).candidates@) == all
                    &&& final(dialog).status@ == "Validating "@ + dec_digits(end as nat) + "/"@ + dec_digits(n) + " pointer path(s)..."@
                    &&& *final(dialog) == (StablePointerDialog {
                        candidates: final(dialog).candidates,
                        validation_cursor: end as usize,
                        status: final(dialog).status,
                        ..d
                    })
                } else {
                    let valid = with_rank(all, 0).len();
                    let changed = with_rank(all, 1).len();
                    let expected = match editable_text_spec(d.expected_value, false) {
                        Some(t) => t,
                        None => match float_text {
                            Some(t) => t@,
                            None => Seq::empty(),
                        },
                    };
                    &&& cands_view(final(dialog).candidates@) == ranked_below(all, 3)
                    &&& final(dialog).selected == (if n > 0 { Some(0usize) } else { None })
                    &&& final(dialog).status@ == validation_status(d.validation_pid.unwrap(), valid, changed, (n - (valid + changed)) as nat, expected)
                    &&& *final(dialog) == (StablePointerDialog {
                        candidates: final(dialog).candidates,
                        selected: final(dialog).selected,
                        validation_pid: None,
                        validation_cursor: end as usize,
                        status: final(dialog).status,
                        ..d
                    })
                }
            },
    {
        let pid = match dialog.validation_pid {
            Some(p) => p,
            None => return,
        };
        if self.memory_panel.process_pid != Some(pid) {
            dialog.validation_pid = None;
            dialog.status = owned("The selected process changed during validation");
            return;
        }
        let (start, end) = dialog.validation_batch();
        let ghost d = *dialog;
        let ghost s = cands_view(d.candidates@);
        let mut i: usize = start;
        while i < end
            invariant
                start <= i <= end,
                end == batch_end(d),
                start == d.validation_cursor,
                end <= d.candidates@.len(),
                reads@.len() == end - start,
                s == cands_view(d.candidates@),
                dialog.candidates@.len() == d.candidates@.len(),
                forall|k: int| 0 <= k < dialog.candidates@.len() ==> #[trigger] dialog.candidates@[k]@ == if start <= k < i {
                    checked(s[k], module_base_spec(modules@, s[k].path.module), reads@[k - start], d.expected_value)
                } else {
                    s[k]
                },
                *dialog == (StablePointerDialog { candidates: dialog.candidates, ..d }),
            decreases end - i,
        {
            check_candidate(dialog, i, modules, &reads[i - start]);
            i = i + 1;
        }
        let ghost all = batch_checked(s, start as int, end as int, modules@, reads@, d.expected_value);
        assert(cands_view(dialog.candidates@) =~= all);
        dialog.validation_cursor = end;
        let n = dialog.candidates.len();
        if end < n {
            let mut st = owned("Validating ");
            push_dec_digits(&mut st, end as u64);
            push_str(&mut st, "/");
            push_dec_digits(&mut st, n as u64);
            push_str(&mut st, " pointer path(s)...");
            dialog.status = st;
            return;
        }
        let valid = count_rank(&dialog.candidates, 0);
        let changed = count_rank(&dialog.candidates, 1);
        proof {
            lemma_rank_counts(all);
        }
        let broken = n - (valid + changed);
        let sorted = sorted_by_rank(&dialog.candidates);
        let expected = match editable_scan_value(dialog.expected_value, false) {
            Some(t) => t,
            None => match float_text {
                Some(t) => t,
                None => String::new(),
            },
        };
        let mut st = owned("PID ");
        push_dec_digits(&mut st, pid as u64);
        push_str(&mut st, ": ");
        push_dec_digits(&mut st, valid as u64);
        push_str(&mut st, " verified, ");
        push_dec_digits(&mut st, changed as u64);
        push_str(&mut st, " resolved with a different value, ");
        push_dec_digits(&mut st, broken as u64);
        push_str(&mut st, " broken. Expected ");
        push_str(&mut st, expected.as_str());
        push_str(&mut st, ".");
        dialog.candidates = sorted;
        dialog.selected = if n > 0 { Some(0) } else { None };
        dialog.validation_pid = None;
        dialog.status = st;
    }
}

/// The description of a saved pointer row: its module and the offset in it.
pub open spec fn path_description(p: PointerPathView) -> Seq<char> {
    p.module + "+"@ + hex_digits(p.module_offset as nat)
}

/// The row saved for a stable-pointer candidate with path `p`.
pub open spec fn pointer_row(r: SavedMemoryAddress, p: PointerPathView, base: usize, address: usize, value_type: ScanValueType, read: Option<ScanValue>, to_library: bool) -> bool {
    &&& r.address == address
    &&& r.value_type == value_type
    &&& r.current == read
    &&& r.text_encoding is None
    &&& r.text_byte_len == 0
    &&& r.current_text is None
    &&& r.description@ == path_description(p)
    &&& r.group@ == Seq::<char>::empty()
    &&& !r.hexadecimal
    &&& r.pointer is Some
    &&& r.pointer.unwrap()@ == (PointerModel { base, module: Some((p.module, p.module_offset)), offsets: p.offsets })
    &&& r.frozen is None
    &&& r.saved_to_library == to_library
}

/// Whether `after` is `before` with only the status of the panel changed, to `status`.
pub open spec fn panel_status_set(before: CrosshairApp, after: CrosshairApp, status: Seq<char>) -> bool {
    &&& after.memory_panel.status@ == status
    &&& after == (CrosshairApp { memory_panel: MemoryPanelState { status: after.memory_panel.status, ..before.memory_panel }, ..before })
}

/// The row saved for a candidate with path `path`, and the message announcing it.
pub fn pointer_row_for(
    path: &PointerPath,
    base: usize,
    address: usize,
    value_type: ScanValueType,
    read: Option<ScanValue>,
    to_library: bool,
) -> (r: (SavedMemoryAddress, String))
    ensures
        pointer_row(r.0, path@, base, address, value_type, read, to_library),
        r.1@ == "✔ Pointer "@ + path_description(path@) + " added to Address list!"@,
{
    let mut desc = path.module.clone();
    push_str(&mut desc, "+");
    push_hex_digits(&mut desc, path.module_offset as u64);
    let pointer = PointerSpec {
        base,
        module: Some((path.module.clone(), path.module_offset)),
        offsets: copy_offsets(&path.offsets),
    };
    let mut msg = owned("✔ Pointer ");
    push_str(&mut msg, desc.as_str());
    push_str(&mut msg, " added to Address list!");
    let row = SavedMemoryAddress {
        address,
        value_type,
        current: read,
        text_encoding: None,
        text_byte_len: 0,
        current_text: None,
        description: desc,
        group: String::new(),
        hexadecimal: false,
        pointer: Some(pointer),
        frozen: None,
        saved_to_library: to_library,
    };
    (row, msg)
}

impl CrosshairApp {
    /// Saves the selected candidate as a pointer row, and in the library when
    /// `save_to_library`. `module_address` is the address its module and offset resolved
    /// to, `resolved` the address its path resolved to from there, `read` the value read
    /// there, and `first_module` the first module of the process.
    #[verifier::rlimit(60)]
    pub fn add_stable_pointer_candidate(
        &mut self,
        dialog: &mut StablePointerDialog,
        save_to_library: bool,
        module_address: Option<usize>,
        resolved: Option<usize>,
        read: Option<ScanValue>,
        first_module: Option<String>,
    )
        ensures
            old(self).memory_panel.process_pid is None ==> {
                &&& *final(self) == *old(self)
                &&& final(dialog).status@ == "Select a process first"@
                &&& *final(dialog) == (StablePointerDialog { status: final(dialog).status, ..*old(dialog) })
            },
            old(self).memory_panel.process_pid is Some && (old(dialog).selected is None
                || old(dialog).selected.unwrap() >= old(dialog).candidates@.len()) ==> {
                &&& *final(self) == *old(self)
                &&& final(dialog).status@ == "Please select a pointer candidate first!"@
                &&& *final(dialog) == (StablePointerDialog { status: final(dialog).status, ..*old(dialog) })
            },
            old(self).memory_panel.process_pid is Some && old(dialog).selected is Some
                && old(dialog).selected.unwrap() < old(dialog).candidates@.len() ==> {
                let p = old(dialog).candidates@[old(dialog).selected.unwrap() as int].path@;
                match (module_address, resolved) {
                    (None, _) => {
                        &&& panel_status_set(*old(self), *final(self), "Pointer module is not loaded"@)
                        &&& final(dialog).status@ == "Pointer module is not loaded"@
                        &&& *final(dialog) == (StablePointerDialog { status: final(dialog).status, ..*old(dialog) })
                    },
                    (Some(_), None) => {
                        &&& panel_status_set(*old(self), *final(self), "Unable to resolve pointer"@)
                        &&& final(dialog).status@ == "Unable to resolve pointer"@
                        &&& *final(dialog) == (StablePointerDialog { status: final(dialog).status, ..*old(dialog) })
                    },
                    (Some(base), Some(address)) => {
                        let msg = "✔ Pointer "@ + path_description(p) + " added to Address list!"@;
                        &&& final(self).memory_panel.saved@.len() == old(self).memory_panel.saved@.len() + 1
                        &&& final(self).memory_panel.saved@.drop_last() == old(self).memory_panel.saved@
                        &&& pointer_row(final(self).memory_panel.saved@.last(), p, base, address, old(dialog).value_type, read, save_to_library)
                        &&& final(self).memory_panel.status@ == msg
                        &&& final(self).memory_panel == (MemoryPanelState {
                            saved: final(self).memory_panel.saved,
                            status: final(self).memory_panel.status,
                            ..old(self).memory_panel
                        })
                        &&& entries_view(final(self).state.memory_pointer_list@) == if save_to_library {
                            persisted(
                                entries_view(old(self).state.memory_pointer_list@),
                                final(self).memory_panel.saved@,
                                fallback_app_name(old(self).memory_panel.process_pid, string_opt(first_module)),
                            )
                        } else {
                            entries_view(old(self).state.memory_pointer_list@)
                        }
                        &&& final(self).state == (AppState { memory_pointer_list: final(self).state.memory_pointer_list, ..old(self).state })
                        &&& final(self).capture_hotkey_combo_keys == old(self).capture_hotkey_combo_keys
                        &&& final(self).capture_hotkey_combo_vks == old(self).capture_hotkey_combo_vks
                        &&& final(dialog).status@ == msg
                        &&& *final(dialog) == (StablePointerDialog { status: final(dialog).status, ..*old(dialog) })
                    },
                }
            },
    {
        if self.memory_panel.process_pid.is_none() {
            dialog.status = owned("Select a process first");
            return;
        }
        let index = match dialog.selected {
            Some(i) => if i < dialog.candidates.len() {
                i
            } else {
                dialog.status = owned("Please select a pointer candidate first!");
                return;
            },
            None => {
                dialog.status = owned("Please select a pointer candidate first!");
                return;
            },
        };
        let base = match module_address {
            Some(b) => b,
            None => {
                self.memory_panel.status = owned("Pointer module is not loaded");
                dialog.status = owned("Pointer module is not loaded");
                return;
            },
        };
        let address = match resolved {
            Some(a) => a,
            None => {
                self.memory_panel.status = owned("Unable to resolve pointer");
                dialog.status = owned("Unable to resolve pointer");
                return;
            },
        };
        let (row, msg) = pointer_row_for(&dialog.candidates[index].path, base, address, dialog.value_type, read, save_to_library);
        let ghost before = self.memory_panel.saved@;
        self.memory_panel.saved.push(row);
        assert(self.memory_panel.saved@.drop_last() == before);
        self.memory_panel.status = msg.clone();
        dialog.status = msg;
        if save_to_library {
            self.persist_memory_pointers(first_module);
        }
    }
}

} // verus!
