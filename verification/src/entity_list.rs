//! The entity-list search: finding the pointer table that lists a game's entities from a
//! few entity bases, following the active candidate back to a stable module root, and
//! saving it.
use vstd::prelude::*;
use vstd::std_specs::hash::obeys_key_model;
use std::collections::HashSet;
use crate::entity::{
    active_address_spec, active_entity_candidate_address, entity_root_priority, is_system_module, root_priority,
    system_module, EntityListCandidate, EntityListDialog,
};
use crate::pointer::{copy_offsets, PointerPath, PointerPathView};
use crate::rtti::{in_range, range_contains};
use crate::panel::{AppState, CrosshairApp, MemoryPanelState};
use crate::pointer::{PointerModel, PointerSpec};
use crate::scan::{ScanValue, ScanValueType};
use crate::saved::SavedMemoryAddress;
use crate::library::{entries_view, fallback_app_name, persisted, string_opt};
use crate::entity::entity_expressions;
use crate::saved::set_elements;
use crate::pointer::format_pointer_expression;
use crate::address::format_prefixed_memory_address;
use crate::number::{dec_digits, push_dec_digits};
use crate::text::{owned, push_str};

verus! {

broadcast use vstd::std_specs::hash::group_hash_axioms;

/// How well a candidate list held up when read again: how many input entities it lists,
/// how many of its slots hold readable pointers, and how many rows have plausible
/// coordinates.
pub struct EntityListValidation {
    pub matched_entities: usize,
    pub readable_pointers: usize,
    pub plausible_xyz: usize,
}

/// The views of a list of paths.
pub open spec fn paths_view(s: Seq<PointerPath>) -> Seq<PointerPathView> {
    s.map_values(|p: PointerPath| p@)
}

/// The paths of `s` whose module ranks `k`, in order.
pub open spec fn with_priority(s: Seq<PointerPathView>, k: u8) -> Seq<PointerPathView>
    decreases s.len(),
{
    if s.len() == 0 {
        Seq::empty()
    } else {
        let rest = with_priority(s.drop_last(), k);
        if root_priority(s.last().module) == k {
            rest.push(s.last())
        } else {
            rest
        }
    }
}

/// The paths of `s` whose module ranks below `k`, by rank and then in order.
pub open spec fn ranked_below(s: Seq<PointerPathView>, k: nat) -> Seq<PointerPathView>
    decreases k,
{
    if k == 0 {
        Seq::empty()
    } else {
        ranked_below(s, (k - 1) as nat) + with_priority(s, (k - 1) as u8)
    }
}

/// The paths as the dialog lists them, as a stable sort by module rank leaves them:
/// executable modules first, then other modules, then system modules.
pub open spec fn by_priority(s: Seq<PointerPathView>) -> Seq<PointerPathView> {
    ranked_below(s, 3)
}

/// The ranked list is the paths of each rank in turn.
proof fn lemma_by_priority_three(s: Seq<PointerPathView>)
    ensures
        by_priority(s) == with_priority(s, 0) + with_priority(s, 1) + with_priority(s, 2),
{
    reveal_with_fuel(ranked_below, 4);
    assert(ranked_below(s, 1) =~= with_priority(s, 0));
}

/// Ranking stable roots by their module keeps every root, each as often as before.
pub proof fn lemma_ranking_keeps_roots(s: Seq<PointerPathView>)
    ensures
        by_priority(s).to_multiset() == s.to_multiset(),
    decreases s.len(),
{
    broadcast use vstd::seq_lib::group_to_multiset_ensures;
    broadcast use vstd::seq_lib::lemma_multiset_commutative;
    broadcast use vstd::multiset::group_multiset_axioms;

    lemma_by_priority_three(s);
    if s.len() == 0 {
        assert(by_priority(s) =~= Seq::<PointerPathView>::empty());
    } else {
        let d = s.drop_last();
        let x = s.last();
        lemma_ranking_keeps_roots(d);
        lemma_by_priority_three(d);
        assert(s == d.push(x));
        let m0 = with_priority(d, 0).to_multiset();
        let m1 = with_priority(d, 1).to_multiset();
        let m2 = with_priority(d, 2).to_multiset();
        assert((with_priority(d, 0) + with_priority(d, 1) + with_priority(d, 2)).to_multiset() =~= m0.add(m1).add(m2));
        assert((with_priority(s, 0) + with_priority(s, 1) + with_priority(s, 2)).to_multiset() =~= with_priority(s, 0).to_multiset().add(
            with_priority(s, 1).to_multiset(),
        ).add(with_priority(s, 2).to_multiset()));
        assert(s.to_multiset() =~= d.to_multiset().insert(x));
        let k = root_priority(x.module);
        if k == 0 {
            assert(with_priority(s, 0).to_multiset() =~= m0.insert(x));
        } else if k == 1 {
            assert(with_priority(s, 1).to_multiset() =~= m1.insert(x));
        } else {
            assert(k == 2);
            assert(with_priority(s, 2).to_multiset() =~= m2.insert(x));
        }
        assert(by_priority(s).to_multiset() =~= s.to_multiset());
    }
}

/// The paths sorted by the rank of their module, keeping the order of equal ranks.
pub fn roots_by_priority(roots: &Vec<PointerPath>) -> (r: Vec<PointerPath>)
    ensures
        paths_view(r@) == by_priority(paths_view(roots@)),
{
    let ghost s = paths_view(roots@);
    let mut out: Vec<PointerPath> = Vec::new();
    let mut k: u8 = 0;
    while k < 3
        invariant
            k <= 3,
            s == paths_view(roots@),
            paths_view(out@) == ranked_below(s, k as nat),
        decreases 3 - k,
    {
        let mut i: usize = 0;
        assert(s.subrange(0, 0) =~= Seq::<PointerPathView>::empty());
        while i < roots.len()
            invariant
                i <= roots@.len(),
                k < 3,
                s == paths_view(roots@),
                paths_view(out@) == ranked_below(s, k as nat) + with_priority(s.subrange(0, i as int), k),
            decreases roots@.len() - i,
        {
            proof {
                let pre = s.subrange(0, i + 1);
                assert(pre.drop_last() == s.subrange(0, i as int));
                assert(pre.last() == roots@[i as int]@);
            }
            if entity_root_priority(roots[i].module.as_str()) == k {
                let p = roots[i].duplicate();
                let ghost before = out@;
                let ghost pv = p@;
                out.push(p);
                assert(paths_view(out@) =~= paths_view(before).push(pv));
            }
            i = i + 1;
        }
        assert(s.subrange(0, s.len() as int) == s);
        k = k + 1;
    }
    out
}

/// What an entity-list scan found: the ranked candidates, how many pointers to the input
/// entities it met, and whether it was stopped early.
pub struct EntityListScanResult {
    pub candidates: Vec<EntityListCandidate>,
    pub pointer_hits: usize,
    pub cancelled: bool,
}

/// A finished entity-list scan, with the process, bases and pointer width it ran with.
pub struct EntityListJobResult {
    pub pid: u32,
    pub entity_bases: Vec<usize>,
    pub pointer_width: usize,
    pub result: Result<EntityListScanResult, String>,
}

/// A finished stable-root search for one candidate address.
pub struct EntityListRootJobResult {
    pub pid: u32,
    pub candidate_address: usize,
    pub cancelled: bool,
    pub result: Result<Vec<PointerPath>, String>,
}

/// The status after an entity-list scan: stopped early, nothing found, or what was found.
pub open spec fn entity_scan_status(cancelled: bool, hits: usize, count: nat, pid: u32) -> Seq<char> {
    if cancelled {
        "Stopped after "@ + dec_digits(hits as nat) + " pointer hits; "@ + dec_digits(count) + " candidates ranked."@
    } else if count == 0 {
        "No pointer array/table found. Linked lists, ECS, handles and encrypted pointers are not supported yet."@
    } else {
        "Found "@ + dec_digits(hits as nat) + " pointer hits in "@ + dec_digits(count) + " ranked candidates (PID "@
            + dec_digits(pid as nat) + ")."@
    }
}

/// The status after a stable-root search: stopped early, nothing found, or what was found.
pub open spec fn root_scan_status(cancelled: bool, count: nat, pid: u32) -> Seq<char> {
    if cancelled {
        "Stable-root scan stopped; kept "@ + dec_digits(count) + " partial candidates."@
    } else if count == 0 {
        "No stable module root found for this candidate."@
    } else {
        "Found "@ + dec_digits(count) + " stable-root candidates for PID "@ + dec_digits(pid as nat) + "."@
    }
}

fn push_count(s: &mut String, n: u64)
    ensures
        final(s)@ == old(s)@ + dec_digits(n as nat),
{
    push_dec_digits(s, n);
}

/// Whether `after` is `before` once the outcome of an entity-list scan was taken in: the
/// candidates, with the first one active and selected, or the error.
pub open spec fn list_result_received(before: EntityListDialog, after: EntityListDialog, result: EntityListJobResult) -> bool {
    match result.result {
        Ok(scan) => {
            let n = scan.candidates@.len();
            &&& after.candidates == scan.candidates
            &&& after.active_candidate == (if n > 0 { Some(0usize) } else { None })
            &&& after.selected@ == (if n > 0 { set![0usize] } else { Set::<usize>::empty() })
            &&& after.status@ == entity_scan_status(scan.cancelled, scan.pointer_hits, n, result.pid)
            &&& after == (EntityListDialog {
                candidates: after.candidates,
                active_candidate: after.active_candidate,
                selected: after.selected,
                status: after.status,
                searching: false,
                pointer_width: result.pointer_width,
                entity_bases: result.entity_bases,
                ..before
            })
        },
        Err(e) => {
            &&& after.status@ == "Entity-list search failed: "@ + e@
            &&& after == (EntityListDialog {
                status: after.status,
                searching: false,
                pointer_width: result.pointer_width,
                entity_bases: result.entity_bases,
                ..before
            })
        },
    }
}

/// Takes in the outcome of an entity-list scan.
pub fn receive_entity_list_result(dialog: &mut EntityListDialog, result: EntityListJobResult)
    ensures
        list_result_received(*old(dialog), *final(dialog), result),
{
    dialog.searching = false;
    dialog.pointer_width = result.pointer_width;
    dialog.entity_bases = result.entity_bases;
    match result.result {
        Ok(scan) => {
            let n = scan.candidates.len();
            let mut status = String::new();
            if scan.cancelled {
                push_str(&mut status, "Stopped after ");
                push_count(&mut status, scan.pointer_hits as u64);
                push_str(&mut status, " pointer hits; ");
                push_count(&mut status, n as u64);
                push_str(&mut status, " candidates ranked.");
            } else if n == 0 {
                push_str(&mut status, "No pointer array/table found. Linked lists, ECS, handles and encrypted pointers are not supported yet.");
            } else {
                push_str(&mut status, "Found ");
                push_count(&mut status, scan.pointer_hits as u64);
                push_str(&mut status, " pointer hits in ");
                push_count(&mut status, n as u64);
                push_str(&mut status, " ranked candidates (PID ");
                push_count(&mut status, result.pid as u64);
                push_str(&mut status, ").");
            }
            let mut selected: HashSet<usize> = HashSet::new();
            if n > 0 {
                assert(obeys_key_model::<usize>());
                selected.insert(0);
                assert(selected@ =~= set![0usize]);
            }
            dialog.candidates = scan.candidates;
            dialog.active_candidate = if n > 0 { Some(0) } else { None };
            dialog.selected = selected;
            dialog.status = status;
        },
        Err(e) => {
            let mut status = owned("Entity-list search failed: ");
            push_str(&mut status, e.as_str());
            dialog.status = status;
        },
    }
}

/// Whether `after` is `before` once the outcome of a stable-root search was taken in: kept
/// only while it is for the active candidate, with the roots ranked and the first
/// selected, or the error.
pub open spec fn root_result_received(before: EntityListDialog, after: EntityListDialog, result: EntityListRootJobResult) -> bool {
    &&& active_address_spec(before) != Some(result.candidate_address) ==> {
        &&& after.status@ == "Discarded stable-root results for the previous candidate."@
        &&& after == (EntityListDialog { status: after.status, root_searching: false, ..before })
    }
    &&& active_address_spec(before) == Some(result.candidate_address) ==> match result.result {
        Ok(roots) => {
            let ranked = by_priority(paths_view(roots@));
            &&& paths_view(after.roots@) == ranked
            &&& after.selected_root == (if ranked.len() > 0 { Some(0usize) } else { None })
            &&& after.root_address == Some(result.candidate_address)
            &&& after.status@ == root_scan_status(result.cancelled, ranked.len(), result.pid)
            &&& after == (EntityListDialog {
                roots: after.roots,
                selected_root: after.selected_root,
                root_address: after.root_address,
                status: after.status,
                root_searching: false,
                ..before
            })
        },
        Err(e) => {
            &&& after.status@ == "Stable-root search failed: "@ + e@
            &&& after == (EntityListDialog { status: after.status, root_searching: false, ..before })
        },
    }
}

/// Takes in the outcome of a stable-root search.
pub fn receive_entity_root_result(dialog: &mut EntityListDialog, result: EntityListRootJobResult)
    ensures
        root_result_received(*old(dialog), *final(dialog), result),
{
    dialog.root_searching = false;
    match active_entity_candidate_address(dialog) {
        Some(a) if a == result.candidate_address => {},
        _ => {
            dialog.status = owned("Discarded stable-root results for the previous candidate.");
            return;
        },
    }
    match result.result {
        Ok(roots) => {
            let ranked = roots_by_priority(&roots);
            let n = ranked.len();
            let mut status = String::new();
            if result.cancelled {
                push_str(&mut status, "Stable-root scan stopped; kept ");
                push_count(&mut status, n as u64);
                push_str(&mut status, " partial candidates.");
            } else if n == 0 {
                push_str(&mut status, "No stable module root found for this candidate.");
            } else {
                push_str(&mut status, "Found ");
                push_count(&mut status, n as u64);
                push_str(&mut status, " stable-root candidates for PID ");
                push_count(&mut status, result.pid as u64);
                push_str(&mut status, ".");
            }
            dialog.roots = ranked;
            dialog.selected_root = if n > 0 { Some(0) } else { None };
            dialog.root_address = Some(result.candidate_address);
            dialog.status = status;
        },
        Err(e) => {
            let mut status = owned("Stable-root search failed: ");
            push_str(&mut status, e.as_str());
            dialog.status = status;
        },
    }
}

/// The roots of `address` inside loaded modules: each module (name, base, size) whose span
/// holds it, skipping system modules unless they are allowed, with the offset in it.
pub open spec fn direct_roots(modules: Seq<(String, usize, usize)>, address: usize, allow_system: bool) -> Seq<PointerPathView>
    decreases modules.len(),
{
    if modules.len() == 0 {
        Seq::empty()
    } else {
        let rest = direct_roots(modules.drop_last(), address, allow_system);
        let m = modules.last();
        if in_range(m.1, m.2, address) && (allow_system || !system_module(m.0@)) {
            rest.push(PointerPathView { module: m.0@, module_offset: (address - m.1) as usize, offsets: Seq::empty() })
        } else {
            rest
        }
    }
}

fn direct_root_paths(modules: &[(String, usize, usize)], address: usize, allow_system: bool) -> (r: Vec<PointerPath>)
    ensures
        paths_view(r@) == direct_roots(modules@, address, allow_system),
{
    let mut out: Vec<PointerPath> = Vec::new();
    let mut i: usize = 0;
    assert(modules@.subrange(0, 0) =~= Seq::<(String, usize, usize)>::empty());
    while i < modules.len()
        invariant
            i <= modules@.len(),
            paths_view(out@) == direct_roots(modules@.subrange(0, i as int), address, allow_system),
        decreases modules@.len() - i,
    {
        proof {
            let pre = modules@.subrange(0, i + 1);
            assert(pre.drop_last() == modules@.subrange(0, i as int));
            assert(pre.last() == modules@[i as int]);
        }
        let (name, base, size) = (&modules[i].0, modules[i].1, modules[i].2);
        if range_contains(base, size, address) && (allow_system || !is_system_module(name.as_str())) {
            let p = PointerPath { module: name.clone(), module_offset: address - base, offsets: Vec::new() };
            let ghost before = out@;
            let ghost pv = p@;
            out.push(p);
            assert(paths_view(out@) =~= paths_view(before).push(pv));
        }
        i = i + 1;
    }
    assert(modules@.subrange(0, modules@.len() as int) == modules@);
    out
}

impl CrosshairApp {
    /// Looks for a stable root of the active candidate: when the candidate lies inside a
    /// loaded module (`modules` lists name, base and size), those modules are its roots;
    /// otherwise the roots are cleared and the candidate address is returned for a pointer
    /// search.
    pub fn start_entity_list_root_search(&self, dialog: &mut EntityListDialog, modules: &[(String, usize, usize)]) -> (r: Option<usize>)
        ensures
            self.memory_panel.process_pid is None ==> {
                &&& r is None
                &&& final(dialog).status@ == "Select a process first."@
                &&& *final(dialog) == (EntityListDialog { status: final(dialog).status, ..*old(dialog) })
            },
            self.memory_panel.process_pid is Some && active_address_spec(*old(dialog)) is None ==> {
                &&& r is None
                &&& final(dialog).status@ == "Select one candidate first."@
                &&& *final(dialog) == (EntityListDialog { status: final(dialog).status, ..*old(dialog) })
            },
            self.memory_panel.process_pid is Some && active_address_spec(*old(dialog)) is Some ==> {
                let a = active_address_spec(*old(dialog)).unwrap();
                let direct = by_priority(direct_roots(modules@, a, old(dialog).allow_system_roots));
                if direct.len() > 0 {
                    &&& r is None
                    &&& paths_view(final(dialog).roots@) == direct
                    &&& final(dialog).selected_root == Some(0usize)
                    &&& final(dialog).root_address == Some(a)
                    &&& final(dialog).status@ == "Candidate is already inside a loaded module."@
                    &&& *final(dialog) == (EntityListDialog {
                        roots: final(dialog).roots,
                        selected_root: final(dialog).selected_root,
                        root_address: final(dialog).root_address,
                        status: final(dialog).status,
                        ..*old(dialog)
                    })
                } else {
                    &&& r == Some(a)
                    &&& final(dialog).roots@.len() == 0
                    &&& final(dialog).selected_root is None
                    &&& final(dialog).root_address is None
                    &&& final(dialog).status@ == "Searching pointer paths to the candidate..."@
                    &&& *final(dialog) == (EntityListDialog {
                        roots: final(dialog).roots,
                        selected_root: None,
                        root_address: None,
                        status: final(dialog).status,
                        root_searching: true,
                        ..*old(dialog)
                    })
                }
            },
    {
        if self.memory_panel.process_pid.is_none() {
            dialog.status = owned("Select a process first.");
            return None;
        }
        let address = match active_entity_candidate_address(dialog) {
            Some(a) => a,
            None => {
                dialog.status = owned("Select one candidate first.");
                return None;
            },
        };
        let direct = roots_by_priority(&direct_root_paths(modules, address, dialog.allow_system_roots));
        if direct.len() > 0 {
            dialog.roots = direct;
            dialog.selected_root = Some(0);
            dialog.root_address = Some(address);
            dialog.status = owned("Candidate is already inside a loaded module.");
            return None;
        }
        dialog.roots = Vec::new();
        dialog.selected_root = None;
        dialog.root_address = None;
        dialog.status = owned("Searching pointer paths to the candidate...");
        dialog.root_searching = true;
        Some(address)
    }
}

/// Where the address of the candidate in use comes from: the selected stable root, else
/// the active candidate moved by the list offset.
pub enum CandidateSource {
    Root(PointerSpec),
    Address(usize),
    Missing,
}

/// The pointer of a root path: no base, the path's module and offset, and its offsets.
pub open spec fn root_pointer(p: PointerPathView) -> PointerModel {
    PointerModel { base: 0, module: Some((p.module, p.module_offset)), offsets: p.offsets }
}

fn pointer_of(p: &PointerPath) -> (r: PointerSpec)
    ensures
        r@ == root_pointer(p@),
{
    PointerSpec { base: 0, module: Some((p.module.clone(), p.module_offset)), offsets: copy_offsets(&p.offsets) }
}

/// Where the address of the candidate in use comes from.
pub fn resolved_entity_candidate_address(dialog: &EntityListDialog) -> (r: CandidateSource)
    ensures
        match r {
            CandidateSource::Root(p) => dialog.selected_root is Some && dialog.selected_root.unwrap() < dialog.roots@.len()
                && p@ == root_pointer(dialog.roots@[dialog.selected_root.unwrap() as int]@),
            CandidateSource::Address(a) => !(dialog.selected_root is Some && dialog.selected_root.unwrap() < dialog.roots@.len())
                && active_address_spec(*dialog) == Some(a),
            CandidateSource::Missing => !(dialog.selected_root is Some && dialog.selected_root.unwrap() < dialog.roots@.len())
                && active_address_spec(*dialog) is None,
        },
{
    if let Some(i) = dialog.selected_root {
        if i < dialog.roots.len() {
            return CandidateSource::Root(pointer_of(&dialog.roots[i]));
        }
    }
    match active_entity_candidate_address(dialog) {
        Some(a) => CandidateSource::Address(a),
        None => CandidateSource::Missing,
    }
}

/// The root saved with a candidate: the selected stable root, when the roots were found
/// for that candidate address.
pub open spec fn saved_root_spec(d: EntityListDialog, candidate: usize) -> Option<PointerPathView> {
    match d.selected_root {
        Some(i) => if d.root_address == Some(candidate) && i < d.roots@.len() {
            Some(d.roots@[i as int]@)
        } else {
            None
        },
        None => None,
    }
}

/// The pointer saved with the candidate at `candidate`, from its stable root.
pub fn entity_candidate_pointer(dialog: &EntityListDialog, candidate: usize) -> (r: Option<PointerSpec>)
    ensures
        match saved_root_spec(*dialog, candidate) {
            Some(p) => r is Some && r.unwrap()@ == root_pointer(p),
            None => r is None,
        },
{
    match dialog.selected_root {
        Some(i) => if dialog.root_address == Some(candidate) && i < dialog.roots.len() {
            Some(pointer_of(&dialog.roots[i]))
        } else {
            None
        },
        None => None,
    }
}

/// The row saved for an entity-list candidate.
pub open spec fn candidate_row(r: SavedMemoryAddress, address: usize, value_type: ScanValueType, read: Option<ScanValue>, root: Option<PointerPathView>) -> bool {
    &&& r.address == address
    &&& r.value_type == value_type
    &&& r.current == read
    &&& r.text_encoding is None
    &&& r.text_byte_len == 0
    &&& r.current_text is None
    &&& r.description@ == "Entity list candidate"@
    &&& r.group@ == Seq::<char>::empty()
    &&& !r.hexadecimal
    &&& match root {
        Some(p) => r.pointer is Some && r.pointer.unwrap()@ == root_pointer(p),
        None => r.pointer is None,
    }
    &&& r.frozen is None
    &&& r.saved_to_library
}

impl CrosshairApp {
    /// Saves the candidate in use as a saved row and in the library. `candidate` is its
    /// address or why it could not be resolved, `resolved_root` the address its saved root
    /// resolves to, `read` the value read at the saved address, and `first_module` the first
    /// module of the process. The row holds a pointer of the dialog's width.
    pub fn save_entity_list_candidate(
        &mut self,
        dialog: &mut EntityListDialog,
        candidate: Result<usize, String>,
        resolved_root: Option<usize>,
        read: Option<ScanValue>,
        first_module: Option<String>,
    )
        ensures
            old(self).memory_panel.process_pid is None ==> {
                &&& *final(self) == *old(self)
                &&& final(dialog).status@ == "Select a process first."@
                &&& *final(dialog) == (EntityListDialog { status: final(dialog).status, ..*old(dialog) })
            },
            old(self).memory_panel.process_pid is Some ==> match candidate {
                Err(e) => {
                    &&& *final(self) == *old(self)
                    &&& final(dialog).status@ == "Unable to resolve candidate: "@ + e@
                    &&& *final(dialog) == (EntityListDialog { status: final(dialog).status, ..*old(dialog) })
                },
                Ok(c) => {
                    let root = saved_root_spec(*old(dialog), c);
                    let address = if root is Some && resolved_root is Some { resolved_root.unwrap() } else { c };
                    let vt = if old(dialog).pointer_width == 4 { ScanValueType::I32 } else { ScanValueType::I64 };
                    &&& final(self).memory_panel.saved@.len() == old(self).memory_panel.saved@.len() + 1
                    &&& final(self).memory_panel.saved@.drop_last() == old(self).memory_panel.saved@
                    &&& candidate_row(final(self).memory_panel.saved@.last(), address, vt, read, root)
                    &&& final(self).memory_panel == (MemoryPanelState { saved: final(self).memory_panel.saved, ..old(self).memory_panel })
                    &&& entries_view(final(self).state.memory_pointer_list@) == persisted(
                        entries_view(old(self).state.memory_pointer_list@),
                        final(self).memory_panel.saved@,
                        fallback_app_name(old(self).memory_panel.process_pid, string_opt(first_module)),
                    )
                    &&& final(self).state == (AppState { memory_pointer_list: final(self).state.memory_pointer_list, ..old(self).state })
                    &&& final(self).capture_hotkey_combo_keys == old(self).capture_hotkey_combo_keys
                    &&& final(self).capture_hotkey_combo_vks == old(self).capture_hotkey_combo_vks
                    &&& final(dialog).status@ == "Candidate saved to MEMORY addresses and library."@
                    &&& *final(dialog) == (EntityListDialog { status: final(dialog).status, ..*old(dialog) })
                },
            },
    {
        if self.memory_panel.process_pid.is_none() {
            dialog.status = owned("Select a process first.");
            return;
        }
        let c = match candidate {
            Ok(c) => c,
            Err(e) => {
                let mut s = owned("Unable to resolve candidate: ");
                push_str(&mut s, e.as_str());
                dialog.status = s;
                return;
            },
        };
        let pointer = entity_candidate_pointer(dialog, c);
        let address = match (&pointer, resolved_root) {
            (Some(_), Some(a)) => a,
            _ => c,
        };
        let value_type = if dialog.pointer_width == 4 { ScanValueType::I32 } else { ScanValueType::I64 };
        let ghost before = self.memory_panel.saved@;
        self.memory_panel.saved.push(SavedMemoryAddress {
            address,
            value_type,
            current: read,
            text_encoding: None,
            text_byte_len: 0,
            current_text: None,
            description: owned("Entity list candidate"),
            group: String::new(),
            hexadecimal: false,
            pointer,
            frozen: None,
            saved_to_library: true,
        });
        assert(self.memory_panel.saved@.drop_last() == before);
        self.persist_memory_pointers(first_module);
        dialog.status = owned("Candidate saved to MEMORY addresses and library.");
    }
}

/// `a + b`, saturating at `usize::MAX`.
pub open spec fn sat_add(a: int, b: int) -> int {
    if a + b > usize::MAX { usize::MAX as int } else { a + b }
}

/// `a - b`, saturating at zero.
pub open spec fn sat_sub(a: int, b: int) -> int {
    if a - b < 0 { 0 } else { a - b }
}

/// `a / w` rounded up.
pub open spec fn div_ceil(a: int, w: int) -> int {
    if a % w == 0 { a / w } else { a / w + 1 }
}

/// The number of table slots read to preview the candidate `c`: its span moved by the list
/// offset, plus the gap allowed after it (`extra`), in pointers of `width` bytes, plus one,
/// kept between 16 and 512.
pub open spec fn preview_slots_spec(c: EntityListCandidate, list_offset: isize, extra: int, width: int) -> int {
    let span = sat_sub(c.end_address as int, c.address as int);
    let moved = if list_offset < 0 { sat_add(span, -list_offset) } else { sat_sub(span, list_offset as int) };
    let slots = sat_add(div_ceil(sat_add(moved, extra), width), 1);
    if slots < 16 { 16 } else if slots > 512 { 512 } else { slots }
}

/// The gap the dialog allows after a candidate: its max-gap text as an address, else 128.
pub open spec fn preview_extra(d: EntityListDialog) -> int {
    match crate::address::address_spec(d.max_gap@) {
        Some(v) => v,
        None => 128,
    }
}

impl EntityListDialog {
    /// How many table slots to read to preview the active candidate.
    pub fn preview_slots(&self) -> (n: usize)
        requires
            self.pointer_width > 0,
            self.active_candidate is Some,
            self.active_candidate.unwrap() < self.candidates@.len(),
        ensures
            n == preview_slots_spec(
                self.candidates@[self.active_candidate.unwrap() as int],
                self.list_offset,
                preview_extra(*self),
                self.pointer_width as int,
            ),
    {
        let c = &self.candidates[self.active_candidate.unwrap()];
        let span = c.end_address.saturating_sub(c.address);
        let moved = if self.list_offset < 0 {
            let magnitude: usize = ((-(self.list_offset + 1)) as usize) + 1;
            span.saturating_add(magnitude)
        } else {
            span.saturating_sub(self.list_offset as usize)
        };
        let extra = match crate::address::parse_memory_address(self.max_gap.as_str()) {
            Some(v) => v,
            None => 128,
        };
        let total = moved.saturating_add(extra);
        let w = self.pointer_width;
        let q = total / w;
        let ceil = if total % w == 0 {
            q
        } else {
            assert(q < usize::MAX) by (nonlinear_arith)
                requires
                    q == total / w,
                    total % w != 0,
                    w > 0,
                    total <= usize::MAX,
            {
                if w == 1 {
                    assert(total % 1 == 0);
                }
            }
            q + 1
        };
        let slots = ceil.saturating_add(1);
        if slots < 16 {
            16
        } else if slots > 512 {
            512
        } else {
            slots
        }
    }
}

/// What previewing a candidate gave: its address could not be resolved, reading the table
/// failed, or how well the table held up.
pub enum PreviewOutcome {
    Unresolved(String),
    Failed(String),
    Validated(EntityListValidation),
}

impl CrosshairApp {
    /// Whether the active candidate can be previewed, with the X, Y and Z offsets to read:
    /// a process is selected, a candidate is active, and the offsets read. The status says
    /// what is missing, but for the candidate.
    pub fn plan_entity_preview(&self, dialog: &mut EntityListDialog) -> (r: Option<[usize; 3]>)
        ensures
            self.memory_panel.process_pid is None ==> {
                &&& r is None
                &&& final(dialog).status@ == "Select a process first."@
                &&& *final(dialog) == (EntityListDialog { status: final(dialog).status, ..*old(dialog) })
            },
            self.memory_panel.process_pid is Some && (old(dialog).active_candidate is None
                || old(dialog).active_candidate.unwrap() >= old(dialog).candidates@.len()) ==> r is None && *final(dialog) == *old(dialog),
            self.memory_panel.process_pid is Some && old(dialog).active_candidate is Some
                && old(dialog).active_candidate.unwrap() < old(dialog).candidates@.len() ==> match crate::entity::xyz_offsets_spec(*old(dialog)) {
                Ok(o) => r is Some && r.unwrap()@ == o && *final(dialog) == *old(dialog),
                Err(e) => {
                    &&& r is None
                    &&& final(dialog).status@ == e
                    &&& *final(dialog) == (EntityListDialog { status: final(dialog).status, ..*old(dialog) })
                },
            },
    {
        if self.memory_panel.process_pid.is_none() {
            dialog.status = owned("Select a process first.");
            return None;
        }
        match dialog.active_candidate {
            Some(i) => if i >= dialog.candidates.len() {
                return None;
            },
            None => return None,
        }
        match crate::entity::parse_entity_xyz_offsets(dialog) {
            Ok(o) => Some(o),
            Err(e) => {
                dialog.status = e;
                None
            },
        }
    }
}

/// Takes the entity bases resolved again before a validating preview: `outcome` is the
/// pointer width of the process with the bases, or why they could not be resolved. At
/// least three bases are needed.
pub fn accept_preview_bases(dialog: &mut EntityListDialog, outcome: Result<(usize, Vec<usize>), String>) -> (ok: bool)
    ensures
        match outcome {
            Ok((w, bases)) => if bases@.len() >= 3 {
                ok && *final(dialog) == (EntityListDialog { pointer_width: w, entity_bases: bases, ..*old(dialog) })
            } else {
                &&& !ok
                &&& final(dialog).status@ == "At least three unique entity bases are required."@
                &&& *final(dialog) == (EntityListDialog { status: final(dialog).status, ..*old(dialog) })
            },
            Err(e) => {
                &&& !ok
                &&& final(dialog).status@ == "Unable to resolve entity inputs: "@ + e@
                &&& *final(dialog) == (EntityListDialog { status: final(dialog).status, ..*old(dialog) })
            },
        },
{
    match outcome {
        Ok((w, bases)) => {
            if bases.len() >= 3 {
                dialog.pointer_width = w;
                dialog.entity_bases = bases;
                true
            } else {
                dialog.status = owned("At least three unique entity bases are required.");
                false
            }
        },
        Err(e) => {
            let mut s = owned("Unable to resolve entity inputs: ");
            push_str(&mut s, e.as_str());
            dialog.status = s;
            false
        },
    }
}

/// The status of a validating preview of process `pid`.
pub open spec fn validated_status(pid: u32, v: EntityListValidation, bases: nat) -> Seq<char> {
    "Validated PID "@ + dec_digits(pid as nat) + ": "@ + dec_digits(v.matched_entities as nat) + "/"@ + dec_digits(bases)
        + " input entities, "@ + dec_digits(v.readable_pointers as nat) + " readable pointers, "@
        + dec_digits(v.plausible_xyz as nat) + " plausible XYZ rows."@
}

impl CrosshairApp {
    /// Records what previewing the active candidate gave. A validating preview reports
    /// failures and results in the status; a background refresh only keeps a result.
    pub fn refresh_entity_list_preview(&self, dialog: &mut EntityListDialog, validating: bool, outcome: PreviewOutcome)
        requires
            self.memory_panel.process_pid is Some,
        ensures
            match outcome {
                PreviewOutcome::Unresolved(e) => if validating {
                    &&& final(dialog).status@ == "Unable to resolve candidate: "@ + e@
                    &&& *final(dialog) == (EntityListDialog { status: final(dialog).status, ..*old(dialog) })
                } else {
                    *final(dialog) == *old(dialog)
                },
                PreviewOutcome::Failed(e) => if validating {
                    &&& final(dialog).status@ == "Validation failed: "@ + e@
                    &&& *final(dialog) == (EntityListDialog { status: final(dialog).status, ..*old(dialog) })
                } else {
                    *final(dialog) == *old(dialog)
                },
                PreviewOutcome::Validated(v) => {
                    &&& final(dialog).preview == Some(v)
                    &&& validating ==> final(dialog).status@ == validated_status(
                        self.memory_panel.process_pid.unwrap(),
                        v,
                        old(dialog).entity_bases@.len(),
                    )
                    &&& !validating ==> final(dialog).status == old(dialog).status
                    &&& *final(dialog) == (EntityListDialog { preview: final(dialog).preview, status: final(dialog).status, ..*old(dialog) })
                },
            },
    {
        match outcome {
            PreviewOutcome::Unresolved(e) => {
                if validating {
                    let mut s = owned("Unable to resolve candidate: ");
                    push_str(&mut s, e.as_str());
                    dialog.status = s;
                }
            },
            PreviewOutcome::Failed(e) => {
                if validating {
                    let mut s = owned("Validation failed: ");
                    push_str(&mut s, e.as_str());
                    dialog.status = s;
                }
            },
            PreviewOutcome::Validated(v) => {
                if validating {
                    let pid = match self.memory_panel.process_pid {
                        Some(p) => p,
                        None => 0,
                    };
                    let mut s = owned("Validated PID ");
                    push_count(&mut s, pid as u64);
                    push_str(&mut s, ": ");
                    push_count(&mut s, v.matched_entities as u64);
                    push_str(&mut s, "/");
                    push_count(&mut s, dialog.entity_bases.len() as u64);
                    push_str(&mut s, " input entities, ");
                    push_count(&mut s, v.readable_pointers as u64);
                    push_str(&mut s, " readable pointers, ");
                    push_count(&mut s, v.plausible_xyz as u64);
                    push_str(&mut s, " plausible XYZ rows.");
                    dialog.status = s;
                }
                dialog.preview = Some(v);
            },
        }
    }
}

/// `inputs` followed by each expression of `exprs` that is not among them yet.
pub open spec fn append_new(inputs: Seq<Seq<char>>, exprs: Seq<Seq<char>>) -> Seq<Seq<char>>
    decreases exprs.len(),
{
    if exprs.len() == 0 {
        inputs
    } else {
        let before = append_new(inputs, exprs.drop_last());
        if before.contains(exprs.last()) {
            before
        } else {
            before.push(exprs.last())
        }
    }
}

/// The inputs padded with blank ones to at least three.
pub open spec fn pad_inputs(s: Seq<Seq<char>>) -> Seq<Seq<char>> {
    if s.len() >= 3 {
        s
    } else {
        s + Seq::new((3 - s.len()) as nat, |i: int| Seq::<char>::empty())
    }
}

/// Whether `d` is the entity-list dialog as opened, apart from its inputs: fields X, Y and
/// Z at offsets 0, 4 and 8, a gap of at most 128 bytes, nothing found, and 8-byte pointers.
pub open spec fn fresh_entity_dialog(d: EntityListDialog) -> bool {
    &&& d.new_input@ == Seq::<char>::empty()
    &&& !d.inputs_are_x_fields
    &&& d.x_offset@ == "0"@
    &&& d.y_offset@ == "4"@
    &&& d.z_offset@ == "8"@
    &&& d.max_gap@ == "128"@
    &&& d.status@ == "Add at least three entity bases, then search."@
    &&& d.candidates@.len() == 0
    &&& d.selected@ == Set::<usize>::empty()
    &&& d.selection_anchor is None
    &&& d.active_candidate is None
    &&& d.entity_bases@.len() == 0
    &&& d.pointer_width == 8
    &&& !d.searching
    &&& !d.root_searching
    &&& d.list_offset == 0
    &&& d.preview is None
    &&& d.roots@.len() == 0
    &&& d.selected_root is None
    &&& d.root_address is None
    &&& !d.allow_system_roots
}

/// The characters of each of a list of texts.
pub open spec fn texts(s: Seq<String>) -> Seq<Seq<char>> {
    s.map_values(|t: String| t@)
}

/// Appends `e` unless an equal text is already in `v`.
fn push_new(v: &mut Vec<String>, e: String)
    ensures
        texts(final(v)@) == (if texts(old(v)@).contains(e@) { texts(old(v)@) } else { texts(old(v)@).push(e@) }),
{
    let ghost before = texts(v@);
    let mut i: usize = 0;
    while i < v.len()
        invariant
            i <= v@.len(),
            *v == *old(v),
            before == texts(v@),
            forall|k: int| 0 <= k < i ==> before[k] != e@,
        decreases v@.len() - i,
    {
        if v[i] == e {
            assert(before[i as int] == e@);
            return;
        }
        i = i + 1;
    }
    let ghost ev = e@;
    v.push(e);
    assert(texts(v@) =~= before.push(ev));
}

impl CrosshairApp {
    /// The entity-list dialog as opened on the current selection: the entity expressions
    /// of the selected saved rows, then those of the selected scan results not among them
    /// yet, padded with blank inputs to at least three. The selections are taken in the
    /// order their sets yield them.
    pub fn open_entity_list_dialog(&self) -> (d: EntityListDialog)
        ensures
            fresh_entity_dialog(d),
            exists|order: Seq<usize>, results: Seq<usize>| {
                &&& order.to_set() == self.memory_panel.selected_saved@
                &&& order.no_duplicates()
                &&& results.to_set() == self.memory_panel.selected_results@
                &&& results.no_duplicates()
                &&& texts(d.inputs@) == pad_inputs(append_new(
                    entity_expressions(self.memory_panel, order, Seq::empty()),
                    entity_expressions(self.memory_panel, Seq::empty(), results),
                ))
            },
    {
        let order = set_elements(&self.memory_panel.selected_saved);
        let results = set_elements(&self.memory_panel.selected_results);
        let ghost p = self.memory_panel;
        let mut inputs: Vec<String> = Vec::new();
        let mut i: usize = 0;
        assert(order@.subrange(0, 0) =~= Seq::<usize>::empty());
        while i < order.len()
            invariant
                i <= order@.len(),
                p == self.memory_panel,
                texts(inputs@) == entity_expressions(p, order@.subrange(0, i as int), Seq::empty()),
            decreases order@.len() - i,
        {
            let k = order[i];
            proof {
                let pre = order@.subrange(0, i + 1);
                assert(pre.drop_last() == order@.subrange(0, i as int));
                assert(pre.last() == k);
            }
            if k < self.memory_panel.saved.len() {
                let e = match &self.memory_panel.saved[k].pointer {
                    Some(ptr) => format_pointer_expression(ptr),
                    None => format_prefixed_memory_address(self.memory_panel.saved[k].address),
                };
                let ghost before = inputs@;
                let ghost ev = e@;
                inputs.push(e);
                assert(texts(inputs@) =~= texts(before).push(ev));
            }
            i = i + 1;
        }
        assert(order@.subrange(0, order@.len() as int) == order@);
        let ghost saved_part = texts(inputs@);
        let mut j: usize = 0;
        assert(results@.subrange(0, 0) =~= Seq::<usize>::empty());
        while j < results.len()
            invariant
                j <= results@.len(),
                p == self.memory_panel,
                saved_part == entity_expressions(p, order@, Seq::empty()),
                texts(inputs@) == append_new(saved_part, entity_expressions(p, Seq::empty(), results@.subrange(0, j as int))),
            decreases results@.len() - j,
        {
            let k = results[j];
            let ghost prev = entity_expressions(p, Seq::empty(), results@.subrange(0, j as int));
            proof {
                let pre = results@.subrange(0, j + 1);
                assert(pre.drop_last() == results@.subrange(0, j as int));
                assert(pre.last() == k);
            }
            let address = if k < self.memory_panel.candidates.len() {
                Some(self.memory_panel.candidates[k].address)
            } else if k < self.memory_panel.text_candidates.len() {
                Some(self.memory_panel.text_candidates[k].address)
            } else {
                None
            };
            if let Some(a) = address {
                let e = format_prefixed_memory_address(a);
                let ghost now = entity_expressions(p, Seq::empty(), results@.subrange(0, j + 1));
                assert(now == prev.push(e@));
                assert(now.drop_last() == prev);
                push_new(&mut inputs, e);
            }
            j = j + 1;
        }
        assert(results@.subrange(0, results@.len() as int) == results@);
        let ghost listed = texts(inputs@);
        while inputs.len() < 3
            invariant
                listed.len() <= inputs@.len() <= if listed.len() >= 3 { listed.len() } else { 3 },
                texts(inputs@) == listed + Seq::new((inputs@.len() - listed.len()) as nat, |i: int| Seq::<char>::empty()),
            decreases 3 - inputs@.len(),
        {
            let ghost before = texts(inputs@);
            let blank = String::new();
            let ghost bv = blank@;
            assert(bv == Seq::<char>::empty());
            inputs.push(blank);
            assert(texts(inputs@) =~= before.push(bv));
            assert(texts(inputs@) =~= listed + Seq::new((inputs@.len() - listed.len()) as nat, |i: int| Seq::<char>::empty()));
        }
        assert(texts(inputs@) =~= pad_inputs(listed));
        EntityListDialog {
            inputs,
            new_input: String::new(),
            inputs_are_x_fields: false,
            x_offset: owned("0"),
            y_offset: owned("4"),
            z_offset: owned("8"),
            max_gap: owned("128"),
            status: owned("Add at least three entity bases, then search."),
            candidates: Vec::new(),
            selected: HashSet::new(),
            selection_anchor: None,
            active_candidate: None,
            entity_bases: Vec::new(),
            pointer_width: 8,
            searching: false,
            root_searching: false,
            list_offset: 0,
            preview: None,
            roots: Vec::new(),
            selected_root: None,
            root_address: None,
            allow_system_roots: false,
        }
    }

    /// Checks what a search needs before its entity bases are resolved: a process, its
    /// pointer width (`pointer_width`, or why it could not be detected), X, Y and Z offsets
    /// that read, and a gap between entries of at least one pointer. Gives the offsets and
    /// the gap, or says in the status what is wrong.
    pub fn prepare_entity_list_search(&self, dialog: &mut EntityListDialog, pointer_width: Result<usize, String>) -> (r: Option<([usize; 3], usize)>)
        ensures
            r is None ==> *final(dialog) == (EntityListDialog { status: final(dialog).status, ..*old(dialog) }),
            r is Some ==> *final(dialog) == *old(dialog),
            self.memory_panel.process_pid is None ==> r is None && final(dialog).status@ == "Select a process first."@,
            self.memory_panel.process_pid is Some ==> match pointer_width {
                Err(e) => r is None && final(dialog).status@ == "Unable to detect process architecture: "@ + e@,
                Ok(w) => match crate::entity::xyz_offsets_spec(*old(dialog)) {
                    Err(e) => r is None && final(dialog).status@ == e,
                    Ok(o) => match crate::address::address_spec(old(dialog).max_gap@) {
                        Some(g) if g >= w => r is Some && r.unwrap().0@ == o && r.unwrap().1 == g,
                        _ => r is None && final(dialog).status@ == "Max bytes between entries must be at least "@
                            + dec_digits(w as nat) + "."@,
                    },
                },
            },
    {
        if self.memory_panel.process_pid.is_none() {
            dialog.status = owned("Select a process first.");
            return None;
        }
        let w = match pointer_width {
            Ok(w) => w,
            Err(e) => {
                let mut s = owned("Unable to detect process architecture: ");
                push_str(&mut s, e.as_str());
                dialog.status = s;
                return None;
            },
        };
        let xyz = match crate::entity::parse_entity_xyz_offsets(dialog) {
            Ok(o) => o,
            Err(e) => {
                dialog.status = e;
                return None;
            },
        };
        match crate::address::parse_memory_address(dialog.max_gap.as_str()) {
            Some(g) => if g >= w {
                return Some((xyz, g));
            },
            None => {},
        }
        let mut s = owned("Max bytes between entries must be at least ");
        push_count(&mut s, w as u64);
        push_str(&mut s, ".");
        dialog.status = s;
        None
    }
}

/// Starts a search with the resolved entity bases (or why they could not be resolved):
/// with at least three, the previous results are cleared and the search is marked
/// running. Gives whether it started.
pub fn start_entity_list_search(dialog: &mut EntityListDialog, bases: Result<Vec<usize>, String>, pointer_width: usize) -> (started: bool)
    ensures
        match bases {
            Err(e) => {
                &&& !started
                &&& final(dialog).status@ == e@
                &&& *final(dialog) == (EntityListDialog { status: final(dialog).status, ..*old(dialog) })
            },
            Ok(b) => if b@.len() < 3 {
                &&& !started
                &&& final(dialog).status@ == "At least three unique, resolvable entity bases are required."@
                &&& *final(dialog) == (EntityListDialog { status: final(dialog).status, ..*old(dialog) })
            } else {
                &&& started
                &&& final(dialog).candidates@.len() == 0
                &&& final(dialog).selected@ == Set::<usize>::empty()
                &&& final(dialog).roots@.len() == 0
                &&& final(dialog).status@ == "Searching readable memory for "@ + dec_digits(b@.len()) + " entity pointers..."@
                &&& *final(dialog) == (EntityListDialog {
                    candidates: final(dialog).candidates,
                    selected: final(dialog).selected,
                    active_candidate: None,
                    preview: None,
                    roots: final(dialog).roots,
                    selected_root: None,
                    root_address: None,
                    entity_bases: b,
                    pointer_width,
                    status: final(dialog).status,
                    searching: true,
                    root_searching: false,
                    ..*old(dialog)
                })
            },
        },
{
    let b = match bases {
        Ok(b) => b,
        Err(e) => {
            dialog.status = e;
            return false;
        },
    };
    if b.len() < 3 {
        dialog.status = owned("At least three unique, resolvable entity bases are required.");
        return false;
    }
    let mut s = owned("Searching readable memory for ");
    push_count(&mut s, b.len() as u64);
    push_str(&mut s, " entity pointers...");
    dialog.candidates = Vec::new();
    dialog.selected = HashSet::new();
    dialog.active_candidate = None;
    dialog.preview = None;
    dialog.roots = Vec::new();
    dialog.selected_root = None;
    dialog.root_address = None;
    dialog.entity_bases = b;
    dialog.pointer_width = pointer_width;
    dialog.status = s;
    dialog.searching = true;
    dialog.root_searching = false;
    true
}

/// Takes in the jobs of the dialog that finished: a candidate search and a stable-root
/// search, each when it has a result. The search result is taken in first.
pub fn poll_entity_list_jobs(dialog: &mut EntityListDialog, search: Option<EntityListJobResult>, roots: Option<EntityListRootJobResult>)
    ensures
        match (search, roots) {
            (None, None) => *final(dialog) == *old(dialog),
            (Some(s), None) => list_result_received(*old(dialog), *final(dialog), s),
            (None, Some(r)) => root_result_received(*old(dialog), *final(dialog), r),
            (Some(s), Some(r)) => exists|mid: EntityListDialog| list_result_received(*old(dialog), mid, s)
                && root_result_received(mid, *final(dialog), r),
        },
{
    if let Some(result) = search {
        receive_entity_list_result(dialog, result);
    }
    if let Some(result) = roots {
        receive_entity_root_result(dialog, result);
    }
}

} // verus!
