use std::collections::HashSet;

use memory_panel::chain::{read_remote_pointer, resolve_entity_expression, resolve_memory_address, ChainWalk};
use memory_panel::entity::{parse_entity_expression, EntityListCandidate, EntityListDialog, PointerStepError};
use memory_panel::entity_list::{
    accept_preview_bases, poll_entity_list_jobs, resolved_entity_candidate_address, roots_by_priority,
    start_entity_list_search, CandidateSource, EntityListJobResult, EntityListRootJobResult, EntityListScanResult,
    EntityListValidation, PreviewOutcome,
};
use memory_panel::panel::{AppState, CrosshairApp, MemoryPanelState};
use memory_panel::pointer::{PointerPath, PointerSpec};
use memory_panel::saved::{SavedMemoryAddress, ScanCandidate};
use memory_panel::scan::{ScanValue, ScanValueType};

fn app() -> CrosshairApp {
    CrosshairApp {
        memory_panel: MemoryPanelState::default(),
        state: AppState {
            memory_pointer_scan_offset: String::new(),
            memory_pointer_scan_depth: 5,
            memory_pointer_scan_result_limit: 1000,
            memory_pointer_scan_memory_mb: 1024,
            memory_scan_hotkeys: Vec::new(),
            memory_pointer_list: Vec::new(),
            memory_code_list: Vec::new(),
            memory_camera_x: "cx".to_owned(),
            memory_camera_y: "cy".to_owned(),
            memory_camera_z: "cz".to_owned(),
            memory_camera_viewport_width: "1920".to_owned(),
            memory_camera_viewport_height: "1080".to_owned(),
        },
        capture_hotkey_combo_keys: None,
        capture_hotkey_combo_vks: Vec::new(),
    }
}

fn row(address: usize) -> SavedMemoryAddress {
    SavedMemoryAddress {
        address,
        value_type: ScanValueType::I32,
        current: None,
        text_encoding: None,
        text_byte_len: 0,
        current_text: None,
        description: String::new(),
        group: String::new(),
        hexadecimal: false,
        pointer: None,
        frozen: None,
        saved_to_library: false,
    }
}

fn path(module: &str, offset: usize) -> PointerPath {
    PointerPath { module: module.to_owned(), module_offset: offset, offsets: vec![0x10] }
}

fn candidate(address: usize, end_address: usize) -> EntityListCandidate {
    EntityListCandidate { address, end_address, matched_entities: 3, readable_pointers: 8, plausible_xyz: 2 }
}

fn opened(a: &CrosshairApp) -> EntityListDialog {
    a.open_entity_list_dialog()
}

#[test]
fn entity_dialog_opens_on_the_selection() {
    let mut a = app();
    a.memory_panel.saved = vec![row(0x1000)];
    a.memory_panel.selected_saved = HashSet::from([0]);
    a.memory_panel.candidates = vec![ScanCandidate { address: 0x1000, value: ScanValue::I32(0) }, ScanCandidate {
        address: 0x2000,
        value: ScanValue::I32(0),
    }];
    a.memory_panel.selected_results = HashSet::from([0]);
    let d = opened(&a);
    assert_eq!(d.inputs, vec!["0x00001000".to_owned(), String::new(), String::new()]);
    assert_eq!(d.x_offset, "0");
    assert_eq!(d.y_offset, "4");
    assert_eq!(d.z_offset, "8");
    assert_eq!(d.max_gap, "128");
    assert_eq!(d.pointer_width, 8);
    assert_eq!(d.status, "Add at least three entity bases, then search.");
}

#[test]
fn entity_search_checks_its_inputs() {
    let mut a = app();
    let mut d = opened(&a);
    assert!(a.prepare_entity_list_search(&mut d, Ok(8)).is_none());
    assert_eq!(d.status, "Select a process first.");
    a.memory_panel.process_pid = Some(10);
    assert!(a.prepare_entity_list_search(&mut d, Err("no access".to_owned())).is_none());
    assert_eq!(d.status, "Unable to detect process architecture: no access");
    d.max_gap = "4".to_owned();
    assert!(a.prepare_entity_list_search(&mut d, Ok(8)).is_none());
    assert_eq!(d.status, "Max bytes between entries must be at least 8.");
    d.max_gap = "0x80".to_owned();
    let (xyz, gap) = a.prepare_entity_list_search(&mut d, Ok(8)).unwrap();
    assert_eq!(xyz, [0, 4, 8]);
    assert_eq!(gap, 0x80);
    d.y_offset = "q".to_owned();
    assert!(a.prepare_entity_list_search(&mut d, Ok(8)).is_none());
    assert_eq!(d.status, "Invalid Y field offset.");

    assert!(!start_entity_list_search(&mut d, Ok(vec![1, 2]), 8));
    assert_eq!(d.status, "At least three unique, resolvable entity bases are required.");
    assert!(!start_entity_list_search(&mut d, Err("bad input".to_owned()), 8));
    assert_eq!(d.status, "bad input");
    d.candidates = vec![candidate(1, 2)];
    assert!(start_entity_list_search(&mut d, Ok(vec![1, 2, 3]), 4));
    assert!(d.searching);
    assert!(d.candidates.is_empty());
    assert_eq!(d.entity_bases, vec![1, 2, 3]);
    assert_eq!(d.pointer_width, 4);
    assert_eq!(d.status, "Searching readable memory for 3 entity pointers...");
}

#[test]
fn entity_jobs_are_taken_in() {
    let a = app();
    let mut d = opened(&a);
    d.searching = true;
    poll_entity_list_jobs(
        &mut d,
        Some(EntityListJobResult {
            pid: 42,
            entity_bases: vec![5, 6, 7],
            pointer_width: 8,
            result: Ok(EntityListScanResult { candidates: vec![candidate(0x100, 0x180)], pointer_hits: 12, cancelled: false }),
        }),
        None,
    );
    assert!(!d.searching);
    assert_eq!(d.active_candidate, Some(0));
    assert_eq!(d.selected, HashSet::from([0]));
    assert_eq!(d.status, "Found 12 pointer hits in 1 ranked candidates (PID 42).");

    poll_entity_list_jobs(
        &mut d,
        None,
        Some(EntityListRootJobResult {
            pid: 42,
            candidate_address: 0x100,
            cancelled: false,
            result: Ok(vec![path("kernel32.dll", 1), path("engine.dll", 2), path("Game.EXE", 3)]),
        }),
    );
    let modules: Vec<&str> = d.roots.iter().map(|p| p.module.as_str()).collect();
    assert_eq!(modules, vec!["Game.EXE", "engine.dll", "kernel32.dll"]);
    assert_eq!(d.selected_root, Some(0));
    assert_eq!(d.root_address, Some(0x100));
    assert_eq!(d.status, "Found 3 stable-root candidates for PID 42.");

    poll_entity_list_jobs(
        &mut d,
        None,
        Some(EntityListRootJobResult { pid: 42, candidate_address: 0x999, cancelled: false, result: Ok(Vec::new()) }),
    );
    assert_eq!(d.status, "Discarded stable-root results for the previous candidate.");

    poll_entity_list_jobs(
        &mut d,
        Some(EntityListJobResult { pid: 1, entity_bases: Vec::new(), pointer_width: 4, result: Err("cancelled".to_owned()) }),
        None,
    );
    assert_eq!(d.status, "Entity-list search failed: cancelled");
    assert_eq!(d.pointer_width, 4);

    poll_entity_list_jobs(
        &mut d,
        Some(EntityListJobResult {
            pid: 1,
            entity_bases: Vec::new(),
            pointer_width: 8,
            result: Ok(EntityListScanResult { candidates: Vec::new(), pointer_hits: 3, cancelled: true }),
        }),
        None,
    );
    assert_eq!(d.status, "Stopped after 3 pointer hits; 0 candidates ranked.");
    assert_eq!(d.active_candidate, None);
}

#[test]
fn roots_rank_executable_modules_first_keeping_order() {
    let roots = vec![path("a.dll", 1), path("ntdll.dll", 2), path("x.exe", 3), path("b.dll", 4)];
    let ranked = roots_by_priority(&roots);
    let offsets: Vec<usize> = ranked.iter().map(|p| p.module_offset).collect();
    assert_eq!(offsets, vec![3, 1, 4, 2]);
}

#[test]
fn root_search_uses_loaded_modules_first() {
    let mut a = app();
    let mut d = opened(&a);
    a.memory_panel.process_pid = Some(3);
    assert_eq!(a.start_entity_list_root_search(&mut d, &[]), None);
    assert_eq!(d.status, "Select one candidate first.");
    d.candidates = vec![candidate(0x1_0100, 0x1_0200)];
    d.active_candidate = Some(0);
    let modules = vec![("game.exe".to_owned(), 0x1_0000, 0x1000), ("ntdll.dll".to_owned(), 0x1_0000, 0x1000)];
    assert_eq!(a.start_entity_list_root_search(&mut d, &modules), None);
    assert_eq!(d.roots.len(), 1);
    assert_eq!(d.roots[0].module_offset, 0x100);
    assert_eq!(d.status, "Candidate is already inside a loaded module.");
    d.candidates = vec![candidate(0x9_0000, 0x9_0100)];
    assert_eq!(a.start_entity_list_root_search(&mut d, &modules), Some(0x9_0000));
    assert!(d.root_searching);
    assert!(d.roots.is_empty());
}

#[test]
fn preview_reads_span_plus_gap_in_pointers() {
    let a = app();
    let mut d = opened(&a);
    d.candidates = vec![candidate(0x1000, 0x1400)];
    d.active_candidate = Some(0);
    assert_eq!(d.preview_slots(), (0x400 + 128) / 8 + 1);
    d.list_offset = -0x100;
    d.max_gap = "0".to_owned();
    assert_eq!(d.preview_slots(), 0x500 / 8 + 1);
    d.candidates = vec![candidate(0x1000, 0x1008)];
    assert_eq!(d.preview_slots(), (8 + 0x100) / 8 + 1);
    d.list_offset = 0;
    assert_eq!(d.preview_slots(), 16);
    d.candidates = vec![candidate(0, 0x10000)];
    assert_eq!(d.preview_slots(), 512);
    d.pointer_width = 3;
    d.candidates = vec![candidate(0, 0x100)];
    assert_eq!(d.preview_slots(), 0x100 / 3 + 1 + 1);
}

#[test]
fn preview_outcomes_are_reported_when_validating() {
    let mut a = app();
    let mut d = opened(&a);
    assert_eq!(a.plan_entity_preview(&mut d), None);
    assert_eq!(d.status, "Select a process first.");
    a.memory_panel.process_pid = Some(77);
    assert_eq!(a.plan_entity_preview(&mut d), None);
    d.candidates = vec![candidate(0x1000, 0x1100)];
    d.active_candidate = Some(0);
    assert_eq!(a.plan_entity_preview(&mut d), Some([0, 4, 8]));

    assert!(!accept_preview_bases(&mut d, Ok((8, vec![1]))));
    assert_eq!(d.status, "At least three unique entity bases are required.");
    assert!(!accept_preview_bases(&mut d, Err("x".to_owned())));
    assert_eq!(d.status, "Unable to resolve entity inputs: x");
    assert!(accept_preview_bases(&mut d, Ok((4, vec![1, 2, 3]))));
    assert_eq!(d.pointer_width, 4);

    a.refresh_entity_list_preview(&mut d, true, PreviewOutcome::Unresolved("gone".to_owned()));
    assert_eq!(d.status, "Unable to resolve candidate: gone");
    d.status = "kept".to_owned();
    a.refresh_entity_list_preview(&mut d, false, PreviewOutcome::Failed("io".to_owned()));
    assert_eq!(d.status, "kept");
    a.refresh_entity_list_preview(
        &mut d,
        true,
        PreviewOutcome::Validated(EntityListValidation { matched_entities: 2, readable_pointers: 30, plausible_xyz: 12 }),
    );
    assert_eq!(d.status, "Validated PID 77: 2/3 input entities, 30 readable pointers, 12 plausible XYZ rows.");
    assert!(d.preview.is_some());
}

#[test]
fn candidate_saves_with_its_stable_root() {
    let mut a = app();
    let mut d = opened(&a);
    a.save_entity_list_candidate(&mut d, Ok(1), None, None, None);
    assert_eq!(d.status, "Select a process first.");
    a.memory_panel.process_pid = Some(5);
    a.save_entity_list_candidate(&mut d, Err("select a candidate first".to_owned()), None, None, None);
    assert_eq!(d.status, "Unable to resolve candidate: select a candidate first");

    d.roots = vec![path("game.exe", 0x40)];
    d.selected_root = Some(0);
    d.root_address = Some(0x5000);
    match resolved_entity_candidate_address(&d) {
        CandidateSource::Root(p) => assert_eq!(p.module, Some(("game.exe".to_owned(), 0x40))),
        _ => panic!("expected the root"),
    }
    a.save_entity_list_candidate(&mut d, Ok(0x5000), Some(0x5008), Some(ScanValue::I64(1)), Some("game.exe".to_owned()));
    let saved = &a.memory_panel.saved[0];
    assert_eq!(saved.address, 0x5008);
    assert_eq!(saved.value_type, ScanValueType::I64);
    assert_eq!(saved.description, "Entity list candidate");
    assert!(saved.saved_to_library);
    assert_eq!(saved.pointer.as_ref().unwrap().offsets, vec![0x10]);
    assert_eq!(a.state.memory_pointer_list.len(), 1);
    assert_eq!(a.state.memory_pointer_list[0].module, "game.exe");
    assert_eq!(d.status, "Candidate saved to MEMORY addresses and library.");

    d.root_address = Some(0x1);
    a.save_entity_list_candidate(&mut d, Ok(0x6000), Some(0x6008), None, None);
    assert_eq!(a.memory_panel.saved[1].address, 0x6000);
    assert!(a.memory_panel.saved[1].pointer.is_none());
}

#[test]
fn pointer_chain_walks_one_read_at_a_time() {
    let mut w = ChainWalk::new(0x1000, vec![0x10, 0x8], 8);
    assert_eq!(w.pending(), Some(0x1000));
    assert_eq!(w.read_type(), ScanValueType::I64);
    assert_eq!(w.advance(ScanValue::I64(0x2000)), Ok(()));
    assert_eq!(w.pending(), Some(0x2010));
    assert_eq!(w.advance(ScanValue::I32(1)), Err(PointerStepError::UnsupportedWidth));
    assert_eq!(w.advance(ScanValue::I64(-1)), Err(PointerStepError::Overflow));
    assert_eq!(w.advance(ScanValue::I64(0x3000)), Ok(()));
    assert_eq!(w.pending(), None);
    assert_eq!(w.address, 0x3008);
    assert_eq!(PointerStepError::Overflow.describe(true), "pointer chain overflow");
    assert_eq!(PointerStepError::Overflow.describe(false), "pointer overflow");

    let spec = PointerSpec { base: 0x50, module: None, offsets: vec![4] };
    let w = resolve_memory_address(0x99, Some(&spec), None, 4);
    assert_eq!((w.address, w.offsets.clone(), w.read_type()), (0x50, vec![4], ScanValueType::I32));
    let w = resolve_memory_address(0x99, None, None, 4);
    assert_eq!((w.address, w.pending()), (0x99, None));
    let expr = parse_entity_expression("game.exe+10 [8]").unwrap();
    let w = resolve_entity_expression(&expr, Some(0x40_0010), 8);
    assert_eq!((w.address, w.offsets.clone()), (0x40_0010, vec![8]));
    assert_eq!(read_remote_pointer(&[0x78, 0x56, 0x34, 0x12], 4), Some(0x1234_5678));
    assert_eq!(read_remote_pointer(&[0x78, 0x56, 0x34], 4), None);
}
