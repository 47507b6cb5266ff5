//! The deep pointer scan: a pointer map captured before a restart (map A), compared with
//! one captured after it (map B) for the paths both share, and those paths saved as
//! pointer rows or as the root of an entity list.
use vstd::prelude::*;
use vstd::std_specs::hash::obeys_key_model;
use std::collections::HashSet;
use crate::entity::{all_candidates, dedup_seq, expand_entity_slot_targets, sat_mul};
use crate::number::{dec_digits, hex_digits, push_dec_digits};
use crate::panel::{CrosshairApp, MemoryPanelState};
use crate::pointer::{format_pointer_path, with_offsets, PointerPath};
use crate::saved::{increasing, increasing_elements, SavedMemoryAddress};
use crate::scan::{ScanValue, ScanValueType};
use crate::stable_pointer::{pointer_row, pointer_row_for};
use crate::settings::PointerScanLimits;
use crate::text::{ascii_lower_seq, owned, push_str, trim};
use crate::selection::{mark_rows, rows_between};
use crate::stable_filter::{module_filter_text, module_shown, module_shown_with};

verus! {

broadcast use vstd::std_specs::hash::group_hash_axioms;

/// The deep pointer dialog.
pub struct DeepPointerDialog {
    /// Whether pointer map A is captured and held for a comparison.
    pub has_map_a: bool,
    pub source_pid: u32,
    /// The addresses map A was captured for.
    pub source_addresses: Vec<usize>,
    pub value_type: ScanValueType,
    pub status: String,
    /// Whether a capture or a comparison runs.
    pub running: bool,
    /// The paths the comparison found.
    pub candidates: Vec<PointerPath>,
    pub selected: HashSet<usize>,
    pub selection_anchor: Option<usize>,
    /// The module search text of the table.
    pub filter: String,
    pub exe_only: bool,
    /// The type the rows' values are read and saved as.
    pub display_type: ScanValueType,
    /// The overlay preset a found root is saved to.
    pub entity_preset_id: Option<u32>,
    pub entity_y_offset: i64,
    pub entity_z_offset: i64,
    /// The size of an entity slot, in bytes.
    pub entity_stride: u32,
    /// How many entity slots on each side of a target are searched, and how many entities
    /// a saved root lists.
    pub entity_count: u32,
    /// Whether the candidates are entity-list roots rather than identical paths.
    pub using_entity_roots: bool,
}

/// The addresses of the rows listed in `order` that exist, in that order.
pub open spec fn listed_addresses(saved: Seq<SavedMemoryAddress>, order: Seq<usize>) -> Seq<usize>
    decreases order.len(),
{
    if order.len() == 0 {
        seq![]
    } else {
        let rest = listed_addresses(saved, order.drop_last());
        if order.last() < saved.len() {
            rest.push(saved[order.last() as int].address)
        } else {
            rest
        }
    }
}

/// Whether `sources` are the addresses a deep pointer scan of `saved` starts from: with
/// more than one saved row selected, those of the selected rows in increasing order of
/// row; otherwise the address of `saved` alone.
pub open spec fn scan_sources(p: MemoryPanelState, saved: SavedMemoryAddress, sources: Seq<usize>) -> bool {
    if p.selected_saved@.len() > 1 {
        exists|order: Seq<usize>| #[trigger] increasing(order) && order.to_set() == p.selected_saved@
            && sources == listed_addresses(p.saved@, order)
    } else {
        sources == seq![saved.address]
    }
}

/// Whether `d` is a new dialog for process `pid` and the addresses `sources` of values
/// of type `value_type`, with `status`, running or not, and the overlay preset `preset`
/// chosen.
pub open spec fn new_deep_dialog(
    d: DeepPointerDialog,
    pid: u32,
    sources: Seq<usize>,
    value_type: ScanValueType,
    status: Seq<char>,
    running: bool,
    preset: Option<u32>,
) -> bool {
    &&& !d.has_map_a
    &&& d.source_pid == pid
    &&& d.source_addresses@ == sources
    &&& d.value_type == value_type
    &&& d.status@ == status
    &&& d.running == running
    &&& d.candidates@.len() == 0
    &&& d.selected@ == Set::<usize>::empty()
    &&& d.selection_anchor is None
    &&& d.filter@ == Seq::<char>::empty()
    &&& !d.exe_only
    &&& d.display_type == value_type
    &&& d.entity_preset_id == preset
    &&& d.entity_y_offset == 4
    &&& d.entity_z_offset == 8
    &&& d.entity_stride == 0x48
    &&& d.entity_count == 32
    &&& !d.using_entity_roots
}

/// `x` held between `lo` and `hi`, as `clamp` does.
pub open spec fn clamped(x: usize, lo: usize, hi: usize) -> usize {
    if x < lo {
        lo
    } else if x > hi {
        hi
    } else {
        x
    }
}

/// How many paths each map may give for a comparison: sixty-four times the result
/// limit, at least the largest result limit and at most sixteen times it.
pub open spec fn comparison_limit(result_limit: usize, max_result_limit: usize) -> usize {
    clamped(sat_mul(result_limit, 64), max_result_limit, sat_mul(max_result_limit, 16))
}

/// What a deep pointer scan is to do next.
pub enum DeepPointerJob {
    /// Capture pointer map A of the process.
    CaptureMapA { pid: u32, limits: PointerScanLimits },
    /// Capture map B and compare the paths both maps give to the targets.
    Compare {
        pid: u32,
        /// The entity slots around the addresses map A was captured for.
        targets_a: Vec<usize>,
        /// The entity slots around the addresses of this scan.
        targets_b: Vec<usize>,
        entity_stride: usize,
        /// How many paths each map may give.
        comparison_limit: usize,
        limits: PointerScanLimits,
    },
}

/// The addresses a deep pointer scan of `saved` starts from.
fn deep_scan_sources(p: &MemoryPanelState, saved: &SavedMemoryAddress) -> (r: Vec<usize>)
    ensures
        scan_sources(*p, *saved, r@),
{
    assert(obeys_key_model::<usize>());
    if p.selected_saved.len() > 1 {
        let order = increasing_elements(&p.selected_saved);
        let mut r: Vec<usize> = Vec::new();
        let mut i: usize = 0;
        while i < order.len()
            invariant
                i <= order@.len(),
                r@ == listed_addresses(p.saved@, order@.subrange(0, i as int)),
            decreases order@.len() - i,
        {
            let ghost pre = order@.subrange(0, i + 1);
            assert(pre.drop_last() == order@.subrange(0, i as int));
            assert(pre.last() == order@[i as int]);
            if order[i] < p.saved.len() {
                r.push(p.saved[order[i]].address);
            }
            i = i + 1;
        }
        assert(order@.subrange(0, order@.len() as int) == order@);
        assert(increasing(order@) && order@.to_set() == p.selected_saved@ && r@ == listed_addresses(p.saved@, order@));
        r
    } else {
        let mut r: Vec<usize> = Vec::new();
        r.push(saved.address);
        assert(r@ =~= seq![saved.address]);
        r
    }
}

/// A new dialog, as `new_deep_dialog` describes it.
fn new_dialog(
    pid: u32,
    sources: Vec<usize>,
    value_type: ScanValueType,
    status: String,
    running: bool,
    preset: Option<u32>,
) -> (d: DeepPointerDialog)
    ensures
        new_deep_dialog(d, pid, sources@, value_type, status@, running, preset),
{
    DeepPointerDialog {
        has_map_a: false,
        source_pid: pid,
        source_addresses: sources,
        value_type,
        status,
        running,
        candidates: Vec::new(),
        selected: HashSet::new(),
        selection_anchor: None,
        filter: String::new(),
        exe_only: false,
        display_type: value_type,
        entity_preset_id: preset,
        entity_y_offset: 4,
        entity_z_offset: 8,
        entity_stride: 0x48,
        entity_count: 32,
        using_entity_roots: false,
    }
}

impl CrosshairApp {
    /// Starts a deep pointer scan from `saved`, or, when the dialog holds map A, captures
    /// map B and compares the two. `modules` is whether the modules of the process could
    /// be listed, or the error; `limits` are the scan limits, `max_result_limit` the
    /// largest result limit, and `first_preset` the first overlay preset. Without a
    /// process nothing starts and the status asks for one; without modules the dialog
    /// only reports the error.
    pub fn start_or_compare_deep_pointer_scan(
        &mut self,
        dialog: &mut Option<DeepPointerDialog>,
        saved: &SavedMemoryAddress,
        modules: Result<(), String>,
        limits: PointerScanLimits,
        max_result_limit: usize,
        first_preset: Option<u32>,
    ) -> (job: Option<DeepPointerJob>)
        ensures
            final(self).state == old(self).state,
            final(self).capture_hotkey_combo_keys == old(self).capture_hotkey_combo_keys,
            final(self).capture_hotkey_combo_vks == old(self).capture_hotkey_combo_vks,
            ({
                let p = old(self).memory_panel;
                let q = final(self).memory_panel;
                let fd = *final(dialog);
                if p.process_pid is None {
                    &&& job is None
                    &&& q.status@ == "Select a process"@
                    &&& q == (MemoryPanelState { status: q.status, ..p })
                    &&& *final(dialog) == *old(dialog)
                } else {
                    let pid = p.process_pid.unwrap();
                    match modules {
                        Err(e) => {
                            let status = "Unable to list process modules: "@ + e@;
                            &&& job is None
                            &&& q.status@ == status
                            &&& q == (MemoryPanelState { status: q.status, ..p })
                            &&& fd is Some
                            &&& match *old(dialog) {
                                Some(d) => {
                                    &&& fd.unwrap().status@ == status
                                    &&& fd.unwrap() == (DeepPointerDialog {
                                        status: fd.unwrap().status,
                                        running: false,
                                        ..d
                                    })
                                },
                                None => scan_sources(p, *saved, fd.unwrap().source_addresses@)
                                    && new_deep_dialog(fd.unwrap(), pid, fd.unwrap().source_addresses@,
                                    saved.value_type, status, false, first_preset),
                            }
                        },
                        Ok(_) => {
                            &&& q == p
                            &&& match *old(dialog) {
                                Some(d) if d.has_map_a => {
                                    let f = fd.unwrap();
                                    let stride = d.entity_stride as usize;
                                    let slots = d.entity_count as usize;
                                    &&& fd is Some
                                    &&& job matches Some(DeepPointerJob::Compare {
                                        pid: jp,
                                        targets_a,
                                        targets_b,
                                        entity_stride,
                                        comparison_limit: cl,
                                        limits: jl,
                                    })
                                    &&& jp == pid
                                    &&& targets_a@ == dedup_seq(all_candidates(d.source_addresses@, stride, slots))
                                    &&& exists|sources: Seq<usize>| scan_sources(p, *saved, sources)
                                        && targets_b@ == dedup_seq(all_candidates(sources, stride, slots))
                                        && f.status@ == "Capturing map B and comparing "@ + dec_digits(sources.len())
                                        + " address(es) with map A..."@
                                    &&& entity_stride == stride
                                    &&& cl == comparison_limit(limits.result_limit, max_result_limit)
                                    &&& jl == limits
                                    &&& f.candidates@.len() == 0
                                    &&& f.selected@ == Set::<usize>::empty()
                                    &&& f == (DeepPointerDialog {
                                        value_type: saved.value_type,
                                        status: f.status,
                                        running: true,
                                        candidates: f.candidates,
                                        selected: f.selected,
                                        selection_anchor: None,
                                        using_entity_roots: false,
                                        ..d
                                    })
                                },
                                _ => {
                                    &&& fd is Some
                                    &&& job matches Some(DeepPointerJob::CaptureMapA { pid: jp, limits: jl })
                                    &&& jp == pid
                                    &&& jl == limits
                                    &&& scan_sources(p, *saved, fd.unwrap().source_addresses@)
                                    &&& new_deep_dialog(fd.unwrap(), pid, fd.unwrap().source_addresses@,
                                        saved.value_type, "Capturing pointer map A..."@, true, first_preset)
                                },
                            }
                        },
                    }
                }
            }),
    {
        let pid = match self.memory_panel.process_pid {
            Some(p) => p,
            None => {
                self.memory_panel.status = owned("Select a process");
                return None;
            },
        };
        let sources = deep_scan_sources(&self.memory_panel, saved);
        if let Err(e) = modules {
            let mut status = owned("Unable to list process modules: ");
            push_str(&mut status, e.as_str());
            self.memory_panel.status = status.clone();
            match dialog {
                Some(d) => {
                    d.status = status;
                    d.running = false;
                },
                None => {
                    *dialog = Some(new_dialog(pid, sources, saved.value_type, status, false, first_preset));
                },
            }
            return None;
        }
        let compare = match dialog {
            Some(d) => d.has_map_a,
            None => false,
        };
        if compare {
            match dialog {
                Some(d) => {
                    let stride = d.entity_stride as usize;
                    let slots = d.entity_count as usize;
                    let targets_a = expand_entity_slot_targets(d.source_addresses.as_slice(), stride, slots);
                    let targets_b = expand_entity_slot_targets(sources.as_slice(), stride, slots);
                    let high = match max_result_limit.checked_mul(16) {
                        Some(v) => v,
                        None => usize::MAX,
                    };
                    let wide = match limits.result_limit.checked_mul(64) {
                        Some(v) => v,
                        None => usize::MAX,
                    };
                    let cl = if wide < max_result_limit {
                        max_result_limit
                    } else if wide > high {
                        high
                    } else {
                        wide
                    };
                    let mut status = owned("Capturing map B and comparing ");
                    push_dec_digits(&mut status, sources.len() as u64);
                    push_str(&mut status, " address(es) with map A...");
                    d.value_type = saved.value_type;
                    d.status = status;
                    d.running = true;
                    d.candidates = Vec::new();
                    d.selected = HashSet::new();
                    d.selection_anchor = None;
                    d.using_entity_roots = false;
                    Some(DeepPointerJob::Compare {
                        pid,
                        targets_a,
                        targets_b,
                        entity_stride: stride,
                        comparison_limit: cl,
                        limits,
                    })
                },
                None => None,
            }
        } else {
            *dialog = Some(new_dialog(pid, sources, saved.value_type, owned("Capturing pointer map A..."), true, first_preset));
            Some(DeepPointerJob::CaptureMapA { pid, limits })
        }
    }
}

/// What a comparison of the two maps found: the paths identical in both, and the roots
/// of entity lists once the changing slot offset is removed.
pub struct DeepPointerComparison {
    pub exact: Vec<PointerPath>,
    pub entity_roots: Vec<PointerPath>,
}

/// What a job of the deep pointer scan gave.
pub enum DeepPointerOutcome {
    /// Map A was captured, or why not.
    MapA(Result<(), String>),
    /// The comparison of the two maps, or why it failed.
    Compared(Result<DeepPointerComparison, String>),
}

/// The status after a comparison found `exact` identical paths and `roots` entity-list
/// roots with slots of `stride` bytes.
pub open spec fn comparison_status(exact: nat, roots: nat, stride: u32) -> Seq<char> {
    if exact == 0 && roots > 0 {
        "No identical full path. Found "@ + dec_digits(roots)
            + " stable entity-list root(s) after removing the changing slot offset (stride "@ + dec_digits(stride as nat)
            + ")."@
    } else if exact == 0 {
        "No identical pointer path or stable entity-list root found with stride "@ + dec_digits(stride as nat)
            + ". Verify the stride before comparing again."@
    } else {
        "Compared map A and map B: "@ + dec_digits(exact) + " identical pointer path(s)."@
    }
}

impl DeepPointerDialog {
    /// Takes the outcome of the running job. Map A, once captured, is held for the
    /// comparison. A comparison lists the identical paths, or, when there are none, the
    /// entity-list roots, with nothing selected. A failure only sets the status.
    pub fn receive_deep_pointer_result(&mut self, outcome: DeepPointerOutcome)
        ensures
            match outcome {
                DeepPointerOutcome::MapA(Ok(_)) => {
                    &&& final(self).status@ == "Map A ready. Restart the game, find the new target address, then right-click it and choose Compare with map A."@
                    &&& *final(self) == (DeepPointerDialog { status: final(self).status, has_map_a: true, running: false, ..*old(self) })
                },
                DeepPointerOutcome::Compared(Ok(c)) => {
                    let roots = c.exact@.len() == 0 && c.entity_roots@.len() > 0;
                    &&& final(self).using_entity_roots == roots
                    &&& final(self).candidates@ == (if roots { c.entity_roots@ } else { c.exact@ })
                    &&& final(self).selected@ == Set::<usize>::empty()
                    &&& final(self).status@ == comparison_status(c.exact@.len(), c.entity_roots@.len(), old(self).entity_stride)
                    &&& *final(self) == (DeepPointerDialog {
                        status: final(self).status,
                        candidates: final(self).candidates,
                        selected: final(self).selected,
                        selection_anchor: None,
                        using_entity_roots: final(self).using_entity_roots,
                        running: false,
                        ..*old(self)
                    })
                },
                DeepPointerOutcome::MapA(Err(e)) | DeepPointerOutcome::Compared(Err(e)) => {
                    &&& final(self).status@ == "Deep pointer scan failed: "@ + e@
                    &&& *final(self) == (DeepPointerDialog { status: final(self).status, running: false, ..*old(self) })
                },
            },
    {
        self.running = false;
        match outcome {
            DeepPointerOutcome::MapA(Ok(_)) => {
                self.has_map_a = true;
                self.status = owned(
                    "Map A ready. Restart the game, find the new target address, then right-click it and choose Compare with map A.",
                );
            },
            DeepPointerOutcome::Compared(Ok(c)) => {
                let exact_count = c.exact.len();
                let root_count = c.entity_roots.len();
                let roots = exact_count == 0 && root_count > 0;
                self.using_entity_roots = roots;
                self.candidates = if roots { c.entity_roots } else { c.exact };
                self.selected = HashSet::new();
                self.selection_anchor = None;
                let mut s = String::new();
                if roots {
                    push_str(&mut s, "No identical full path. Found ");
                    push_dec_digits(&mut s, root_count as u64);
                    push_str(&mut s, " stable entity-list root(s) after removing the changing slot offset (stride ");
                    push_dec_digits(&mut s, self.entity_stride as u64);
                    push_str(&mut s, ").");
                } else if exact_count == 0 {
                    push_str(&mut s, "No identical pointer path or stable entity-list root found with stride ");
                    push_dec_digits(&mut s, self.entity_stride as u64);
                    push_str(&mut s, ". Verify the stride before comparing again.");
                } else {
                    push_str(&mut s, "Compared map A and map B: ");
                    push_dec_digits(&mut s, exact_count as u64);
                    push_str(&mut s, " identical pointer path(s).");
                }
                self.status = s;
            },
            DeepPointerOutcome::MapA(Err(e)) | DeepPointerOutcome::Compared(Err(e)) => {
                let mut s = owned("Deep pointer scan failed: ");
                push_str(&mut s, e.as_str());
                self.status = s;
            },
        }
    }
}

/// The rows the deep pointer table shows under its search text and executable switch.
pub open spec fn shown_rows(d: DeepPointerDialog) -> Set<usize> {
    Set::new(|i: usize| i < d.candidates@.len() && module_shown(d.candidates@[i as int].module@, d.filter@, d.exe_only))
}

/// The selection after a click on row `index`: Shift with an anchor adds the rows from
/// the anchor to `index` (to the selection kept with Ctrl, else alone); Ctrl toggles the
/// row; a plain click selects it alone.
pub open spec fn deep_row_click(sel: Set<usize>, anchor: Option<usize>, index: usize, shift: bool, additive: bool) -> Set<usize> {
    let base = if additive {
        sel
    } else {
        Set::empty()
    };
    match anchor {
        Some(a) if shift => {
            let lo = if a <= index { a } else { index };
            let hi = if a <= index { index } else { a };
            base.union(rows_between(lo as int, hi as int))
        },
        _ => if additive && sel.contains(index) {
            sel.remove(index)
        } else {
            base.insert(index)
        },
    }
}

impl DeepPointerDialog {
    /// Selects every row the table shows.
    pub fn select_all_shown(&mut self)
        ensures
            final(self).selected@ == shown_rows(*old(self)),
            *final(self) == (DeepPointerDialog { selected: final(self).selected, ..*old(self) }),
    {
        assert(obeys_key_model::<usize>());
        let f = module_filter_text(self.filter.as_str());
        let mut sel: HashSet<usize> = HashSet::new();
        let mut i: usize = 0;
        while i < self.candidates.len()
            invariant
                obeys_key_model::<usize>(),
                i <= self.candidates@.len(),
                f@ == ascii_lower_seq(trim(self.filter@)),
                sel@ == Set::new(|k: usize| k < i && module_shown(self.candidates@[k as int].module@, self.filter@, self.exe_only)),
            decreases self.candidates@.len() - i,
        {
            let shown = module_shown_with(self.candidates[i].module.as_str(), &f, self.exe_only);
            if shown {
                sel.insert(i);
            }
            assert(sel@ =~= Set::new(|k: usize| k < i + 1 && module_shown(self.candidates@[k as int].module@, self.filter@, self.exe_only)));
            i = i + 1;
        }
        assert(sel@ =~= shown_rows(*self));
        self.selected = sel;
    }

    /// A click on row `index`; `shift` and `additive` (Ctrl or Command) are the modifiers
    /// held. The anchor moves to the row unless Shift extends from an anchor.
    pub fn click_deep_pointer_row(&mut self, index: usize, shift: bool, additive: bool)
        ensures
            final(self).selected@ == deep_row_click(old(self).selected@, old(self).selection_anchor, index, shift, additive),
            final(self).selection_anchor == (match old(self).selection_anchor {
                Some(a) if shift => Some(a),
                _ => Some(index),
            }),
            *final(self) == (DeepPointerDialog {
                selected: final(self).selected,
                selection_anchor: final(self).selection_anchor,
                ..*old(self)
            }),
    {
        assert(obeys_key_model::<usize>());
        match self.selection_anchor {
            Some(anchor) if shift => {
                if !additive {
                    self.selected.clear();
                }
                let (start, end) = if anchor <= index {
                    (anchor, index)
                } else {
                    (index, anchor)
                };
                mark_rows(&mut self.selected, start, end, true);
            },
            _ => {
                if additive {
                    if self.selected.contains(&index) {
                        self.selected.remove(&index);
                    } else {
                        self.selected.insert(index);
                    }
                } else {
                    self.selected.clear();
                    self.selected.insert(index);
                }
                self.selection_anchor = Some(index);
            },
        }
    }
}

impl DeepPointerDialog {
    /// The rows to save: row `one` alone when given, else the selected rows in increasing
    /// order; rows past the candidates are left out.
    pub fn rows_to_save(&self, one: Option<usize>) -> (r: Vec<usize>)
        ensures
            forall|k: int| 0 <= k < r@.len() ==> #[trigger] r@[k] < self.candidates@.len(),
            match one {
                Some(i) => r@ == (if i < self.candidates@.len() { seq![i] } else { seq![] }),
                None => increasing(r@) && r@.to_set() == self.selected@.filter(|i: usize| i < self.candidates@.len()),
            },
    {
        match one {
            Some(i) => {
                let mut r: Vec<usize> = Vec::new();
                if i < self.candidates.len() {
                    r.push(i);
                }
                assert(r@ =~= (if i < self.candidates@.len() { seq![i] } else { seq![] }));
                r
            },
            None => {
                let order = increasing_elements(&self.selected);
                let n = self.candidates.len();
                let mut r: Vec<usize> = Vec::new();
                let mut k: usize = 0;
                while k < order.len()
                    invariant
                        k <= order@.len(),
                        n == self.candidates@.len(),
                        increasing(order@),
                        increasing(r@),
                        forall|j: int| 0 <= j < r@.len() ==> #[trigger] r@[j] < n,
                        forall|j: int| 0 <= j < r@.len() ==> order@.subrange(0, k as int).contains(#[trigger] r@[j]),
                        r@.to_set() == order@.subrange(0, k as int).to_set().filter(|i: usize| i < n),
                    decreases order@.len() - k,
                {
                    let x = order[k];
                    let ghost prev = r@;
                    let ghost px = order@.subrange(0, k as int);
                    let ghost nx = order@.subrange(0, k + 1);
                    assert(nx == px.push(x));
                    proof {
                        px.lemma_push_to_set_commute(x);
                    }
                    if x < n {
                        r.push(x);
                        assert forall|a: int, b: int| 0 <= a < b < r@.len() implies r@[a] < r@[b] by {
                            if b == r@.len() - 1 {
                                assert(px.contains(prev[a]));
                                let j = choose|j: int| 0 <= j < px.len() && px[j] == prev[a];
                                assert(order@[j] < order@[k as int]);
                            }
                        }
                        proof {
                            prev.lemma_push_to_set_commute(x);
                        }
                    }
                    assert forall|j: int| 0 <= j < r@.len() implies nx.contains(#[trigger] r@[j]) by {
                        if j < prev.len() {
                            assert(px.contains(prev[j]));
                        } else {
                            assert(nx[k as int] == x);
                        }
                    }
                    assert(r@.to_set() =~= nx.to_set().filter(|i: usize| i < n));
                    k = k + 1;
                }
                assert(order@.subrange(0, order@.len() as int) == order@);
                assert(r@.to_set() =~= self.selected@.filter(|i: usize| i < n));
                r
            },
        }
    }
}

/// Where a candidate's path led: the address its module and offset resolved to, the
/// address its offsets resolved to from there, and the value read there.
pub struct DeepPointerRead {
    pub base: usize,
    pub address: usize,
    pub value: Option<ScanValue>,
}

/// The positions among the first `n` whose row exists and whose path resolved, in order.
pub open spec fn resolved_positions(rows: Seq<usize>, reads: Seq<Option<DeepPointerRead>>, len: nat, n: nat) -> Seq<int>
    decreases n,
{
    if n == 0 {
        seq![]
    } else {
        let rest = resolved_positions(rows, reads, len, (n - 1) as nat);
        if rows[n - 1] < len && reads[n - 1] is Some {
            rest.push(n - 1)
        } else {
            rest
        }
    }
}

/// The positions in `resolved_positions` are below `n`, each once, in increasing order.
proof fn lemma_resolved_positions(rows: Seq<usize>, reads: Seq<Option<DeepPointerRead>>, len: nat, n: nat)
    ensures
        forall|j: int| 0 <= j < resolved_positions(rows, reads, len, n).len()
            ==> 0 <= #[trigger] resolved_positions(rows, reads, len, n)[j] < n,
        resolved_positions(rows, reads, len, n).len() <= n,
    decreases n,
{
    if n > 0 {
        lemma_resolved_positions(rows, reads, len, (n - 1) as nat);
    }
}

impl CrosshairApp {
    /// Saves candidate rows of the dialog as pointer rows of type `display_type`:
    /// `rows` are the rows to save and `reads` where each path led, when it resolved.
    /// Each resolved row is added, described by its module and offset, and the status
    /// says how many. Without a process nothing changes.
    pub fn add_deep_pointer_rows(
        &mut self,
        dialog: &DeepPointerDialog,
        rows: &Vec<usize>,
        reads: &Vec<Option<DeepPointerRead>>,
    )
        requires
            rows@.len() == reads@.len(),
        ensures
            old(self).memory_panel.process_pid is None ==> *final(self) == *old(self),
            old(self).memory_panel.process_pid is Some ==> {
                let pos = resolved_positions(rows@, reads@, dialog.candidates@.len(), rows@.len());
                let before = old(self).memory_panel.saved@;
                let after = final(self).memory_panel.saved@;
                &&& after.len() == before.len() + pos.len()
                &&& after.subrange(0, before.len() as int) == before
                &&& forall|j: int| 0 <= j < pos.len() ==> {
                    let k = #[trigger] pos[j];
                    let read = reads@[k].unwrap();
                    pointer_row(after[before.len() + j], dialog.candidates@[rows@[k] as int]@, read.base, read.address,
                        dialog.display_type, read.value, false)
                }
                &&& final(self).memory_panel.status@ == "Added "@ + dec_digits(pos.len()) + " deep pointer(s) to Address list"@
                &&& final(self).memory_panel == (MemoryPanelState {
                    saved: final(self).memory_panel.saved,
                    status: final(self).memory_panel.status,
                    ..old(self).memory_panel
                })
                &&& final(self).state == old(self).state
                &&& final(self).capture_hotkey_combo_keys == old(self).capture_hotkey_combo_keys
                &&& final(self).capture_hotkey_combo_vks == old(self).capture_hotkey_combo_vks
            },
    {
        if self.memory_panel.process_pid.is_none() {
            return;
        }
        let ghost before = self.memory_panel.saved@;
        let ghost len = dialog.candidates@.len();
        let mut added: usize = 0;
        let mut k: usize = 0;
        while k < rows.len()
            invariant
                k <= rows@.len(),
                rows@.len() == reads@.len(),
                len == dialog.candidates@.len(),
                added == resolved_positions(rows@, reads@, len, k as nat).len(),
                added <= k,
                self.memory_panel.saved@.len() == before.len() + added,
                self.memory_panel.saved@.subrange(0, before.len() as int) == before,
                forall|j: int| 0 <= j < added ==> {
                    let p = #[trigger] resolved_positions(rows@, reads@, len, k as nat)[j];
                    let read = reads@[p].unwrap();
                    pointer_row(self.memory_panel.saved@[before.len() + j], dialog.candidates@[rows@[p] as int]@, read.base,
                        read.address, dialog.display_type, read.value, false)
                },
                *self == (CrosshairApp {
                    memory_panel: MemoryPanelState { saved: self.memory_panel.saved, ..old(self).memory_panel },
                    ..*old(self)
                }),
            decreases rows@.len() - k,
        {
            let ghost prev_pos = resolved_positions(rows@, reads@, len, k as nat);
            let ghost prev_saved = self.memory_panel.saved@;
            let index = rows[k];
            if index < dialog.candidates.len() {
                if let Some(read) = &reads[k] {
                    let (row, _) = pointer_row_for(&dialog.candidates[index], read.base, read.address, dialog.display_type, read.value, false);
                    self.memory_panel.saved.push(row);
                    assert(resolved_positions(rows@, reads@, len, (k + 1) as nat) == prev_pos.push(k as int));
                    assert forall|j: int| 0 <= j < added + 1 implies {
                        let p = #[trigger] resolved_positions(rows@, reads@, len, (k + 1) as nat)[j];
                        let read = reads@[p].unwrap();
                        pointer_row(self.memory_panel.saved@[before.len() + j], dialog.candidates@[rows@[p] as int]@, read.base,
                            read.address, dialog.display_type, read.value, false)
                    } by {
                        if j < added {
                            assert(self.memory_panel.saved@[before.len() + j] == prev_saved[before.len() + j]);
                            assert(resolved_positions(rows@, reads@, len, (k + 1) as nat)[j] == prev_pos[j]);
                        }
                    }
                    assert(self.memory_panel.saved@.subrange(0, before.len() as int) =~= before) by {
                        assert(prev_saved.subrange(0, before.len() as int) == before);
                    }
                    added = added + 1;
                }
            }
            k = k + 1;
        }
        let mut s = owned("Added ");
        push_dec_digits(&mut s, added as u64);
        push_str(&mut s, " deep pointer(s) to Address list");
        self.memory_panel.status = s;
    }
}

/// An entity-list source for an overlay preset: the pointer expression of the list root,
/// the offsets of the Y and Z coordinates, the slot size and the number of entities.
pub struct EntityListSource {
    pub root: String,
    pub y_offset: i64,
    pub z_offset: i64,
    pub stride: u32,
    pub count: u32,
}

impl DeepPointerDialog {
    /// The entity-list source row `index` gives the chosen overlay preset: its path as the
    /// list root, the dialog's offsets, a slot of at least one byte, and between one and
    /// 512 entities. None without such a row or without a chosen preset.
    pub fn entity_list_source(&self, index: usize) -> (r: Option<EntityListSource>)
        ensures
            r is Some <==> index < self.candidates@.len() && self.entity_preset_id is Some,
            r is Some ==> {
                let src = r.unwrap();
                let c = self.candidates@[index as int];
                &&& src.root@ == with_offsets(c.module@ + seq!['+'] + hex_digits(c.module_offset as nat), c.offsets@)
                &&& src.y_offset == self.entity_y_offset
                &&& src.z_offset == self.entity_z_offset
                &&& src.stride == (if self.entity_stride < 1 { 1 } else { self.entity_stride })
                &&& src.count == (if self.entity_count < 1 { 1 } else if self.entity_count > 512 { 512 } else { self.entity_count })
            },
    {
        if index >= self.candidates.len() || self.entity_preset_id.is_none() {
            return None;
        }
        let stride = if self.entity_stride < 1 { 1 } else { self.entity_stride };
        let count = if self.entity_count < 1 {
            1
        } else if self.entity_count > 512 {
            512
        } else {
            self.entity_count
        };
        Some(EntityListSource {
            root: format_pointer_path(&self.candidates[index]),
            y_offset: self.entity_y_offset,
            z_offset: self.entity_z_offset,
            stride,
            count,
        })
    }

    /// Records that the found root was saved to the preset named `preset_name`: map A is
    /// released and the status says where the source went.
    pub fn entity_source_saved(&mut self, preset_name: &str)
        ensures
            final(self).status@ == "Saved Entity List source to "@ + preset_name@ + ". Pointer map memory was released."@,
            *final(self) == (DeepPointerDialog { has_map_a: false, status: final(self).status, ..*old(self) }),
    {
        let mut s = owned("Saved Entity List source to ");
        push_str(&mut s, preset_name);
        push_str(&mut s, ". Pointer map memory was released.");
        self.has_map_a = false;
        self.status = s;
    }
}

} // verus!
