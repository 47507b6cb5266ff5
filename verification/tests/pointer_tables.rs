use std::collections::HashSet;

use memory_panel::deep_pointer::{
    DeepPointerComparison, DeepPointerDialog, DeepPointerJob, DeepPointerOutcome, DeepPointerRead,
};
use memory_panel::panel::{AppState, CrosshairApp, MemoryPanelState};
use memory_panel::pointer::PointerPath;
use memory_panel::saved::{ScanCandidate, SavedMemoryAddress};
use memory_panel::scan::{MemoryScanAction, ScanComparison, ScanValue, ScanValueType};
use memory_panel::settings::PointerScanLimits;
use memory_panel::stable_filter::{
    candidate_state_text, format_path_offsets, format_path_root, module_shown_in_table, StablePointerFilterOutcome,
    StablePointerScanOutcome,
};
use memory_panel::stable_pointer::{StablePointerCandidate, StablePointerDialog};

fn app() -> CrosshairApp {
    CrosshairApp {
        memory_panel: MemoryPanelState::default(),
        state: AppState {
            memory_pointer_scan_offset: String::new(),
            memory_pointer_scan_depth: 5,
            memory_pointer_scan_result_limit: 1000,
            memory_pointer_scan_memory_mb: 1024,
            memory_scan_hotkeys: Vec::new(),
            memory_pointer_list: Vec::new(),
            memory_code_list: Vec::new(),
            memory_camera_x: String::new(),
            memory_camera_y: String::new(),
            memory_camera_z: String::new(),
            memory_camera_viewport_width: "1920".to_owned(),
            memory_camera_viewport_height: "1080".to_owned(),
        },
        capture_hotkey_combo_keys: None,
        capture_hotkey_combo_vks: Vec::new(),
    }
}

fn row(address: usize, current: Option<ScanValue>) -> SavedMemoryAddress {
    SavedMemoryAddress {
        address,
        value_type: ScanValueType::I32,
        current,
        text_encoding: None,
        text_byte_len: 0,
        current_text: None,
        description: String::new(),
        group: String::new(),
        hexadecimal: false,
        pointer: None,
        frozen: None,
        saved_to_library: false,
    }
}

fn limits(result_limit: usize) -> PointerScanLimits {
    PointerScanLimits { max_offset: 0x1000, max_depth: 5, result_limit, max_bytes: 1 << 30 }
}

fn path(module: &str, offset: usize, offsets: Vec<usize>) -> PointerPath {
    PointerPath { module: module.to_owned(), module_offset: offset, offsets }
}

fn stable_dialog(a: &mut CrosshairApp, result_limit: usize) -> StablePointerDialog {
    a.memory_panel.process_pid = Some(7);
    a.start_stable_pointer_scan(&row(0x10, Some(ScanValue::I32(100))), Ok(()), limits(result_limit)).unwrap()
}

fn checked(module: &str, address: Option<usize>, observed: Option<ScanValue>) -> StablePointerCandidate {
    StablePointerCandidate {
        path: path(module, 0x40, vec![0x8]),
        valid: Some(true),
        resolved_base: Some(0x1000),
        resolved_address: address,
        observed_value: observed,
        live_value: None,
        filter_value: None,
    }
}

#[test]
fn table_filter_matches_trimmed_text_without_case() {
    assert!(module_shown_in_table("Game.EXE", "", true));
    assert!(!module_shown_in_table("engine.dll", "", true));
    assert!(module_shown_in_table("engine.dll", "  GINE ", false));
    assert!(!module_shown_in_table("engine.dll", "game", false));
    assert!(module_shown_in_table("anything", "   ", false));
}

#[test]
fn path_columns_are_written_in_hexadecimal() {
    let p = path("game.exe", 0x1A2B, vec![0x10, 0x8, 0xFF]);
    assert_eq!(format_path_root(&p), "game.exe+1A2B");
    assert_eq!(format_path_offsets(&p.offsets, " -> "), "10 -> 8 -> FF");
    assert_eq!(format_path_offsets(&p.offsets, " \u{2192} "), "10 \u{2192} 8 \u{2192} FF");
    assert_eq!(format_path_offsets(&Vec::new(), " -> "), "");
}

#[test]
fn found_paths_list_executables_first() {
    let mut a = app();
    let mut d = stable_dialog(&mut a, 1000);
    let paths = vec![
        path("engine.dll", 0x10, vec![0x8]),
        path("Game.exe", 0x20, vec![0x8]),
        path("other.dll", 0x30, vec![]),
        path("tool.EXE", 0x40, vec![0x4]),
    ];
    d.receive_stable_pointer_paths(StablePointerScanOutcome { pid: 7, result: Ok(paths) }, "12.5".to_owned());
    let modules: Vec<&str> = d.candidates.iter().map(|c| c.path.module.as_str()).collect();
    assert_eq!(modules, vec!["Game.exe", "tool.EXE", "engine.dll", "other.dll"]);
    assert!(!d.scanning);
    assert_eq!(d.selected, Some(0));
    assert_eq!(
        d.status,
        "4 candidate(s). Restart the game, restore the target value, select the new process, then Validate."
    );
    assert!(d.candidates.iter().all(|c| c.valid.is_none() && c.resolved_address.is_none()));
}

#[test]
fn found_paths_at_the_limit_say_so() {
    let mut a = app();
    let mut d = stable_dialog(&mut a, 2);
    let paths = vec![path("a.exe", 0x10, vec![]), path("b.exe", 0x20, vec![])];
    d.receive_stable_pointer_paths(StablePointerScanOutcome { pid: 7, result: Ok(paths) }, "1.0".to_owned());
    assert_eq!(
        d.status,
        "2 candidate(s) (path limit reached). Restart the game, restore the target value, select the new process, then Validate."
    );
}

#[test]
fn no_paths_found_reports_the_limits() {
    let mut a = app();
    let mut d = stable_dialog(&mut a, 1000);
    d.receive_stable_pointer_paths(StablePointerScanOutcome { pid: 7, result: Ok(Vec::new()) }, "3.2".to_owned());
    assert_eq!(d.selected, None);
    assert_eq!(d.status, "No module-based pointer paths found after reading 3.2 MB (5 levels, max offset 0x1000)");
}

#[test]
fn a_scan_of_another_process_or_a_failure_only_sets_the_status() {
    let mut a = app();
    let mut d = stable_dialog(&mut a, 1000);
    d.receive_stable_pointer_paths(StablePointerScanOutcome { pid: 8, result: Ok(vec![path("a.exe", 1, vec![])]) }, String::new());
    assert_eq!(d.status, "The source process changed during pointer scan");
    assert!(d.candidates.is_empty());
    d.receive_stable_pointer_paths(StablePointerScanOutcome { pid: 7, result: Err("boom".to_owned()) }, String::new());
    assert_eq!(d.status, "Pointer scan failed: boom");
}

#[test]
fn candidate_states_name_the_check() {
    let mut c = checked("a.exe", Some(0x10), None);
    assert_eq!(candidate_state_text(&c), "VERIFIED");
    c.valid = Some(false);
    assert_eq!(candidate_state_text(&c), "BROKEN");
    c.valid = None;
    assert_eq!(candidate_state_text(&c), "NOT CHECKED");
    c.observed_value = Some(ScanValue::I32(3));
    assert_eq!(candidate_state_text(&c), "VALUE CHANGED");
}

#[test]
fn visible_candidates_follow_the_search() {
    let mut a = app();
    let mut d = stable_dialog(&mut a, 1000);
    d.candidates = vec![checked("game.exe", None, None), checked("engine.dll", None, None), checked("GAME2.exe", None, None)];
    assert_eq!(d.visible_indices(), vec![0, 1, 2]);
    d.filter = " game".to_owned();
    assert_eq!(d.visible_indices(), vec![0, 2]);
    d.filter = String::new();
    d.exe_only = true;
    assert_eq!(d.visible_indices(), vec![0, 2]);
}

#[test]
fn value_filter_starts_from_resolved_candidates_in_address_order() {
    let mut a = app();
    let mut d = stable_dialog(&mut a, 1000);
    d.scanning = false;
    let mut late = checked("a.exe", Some(0x300), None);
    late.filter_value = Some(ScanValue::I32(9));
    late.observed_value = Some(ScanValue::I32(1));
    d.candidates = vec![
        late,
        checked("b.exe", Some(0x100), Some(ScanValue::I32(5))),
        checked("c.exe", None, Some(ScanValue::I32(6))),
        checked("d.exe", Some(0x200), None),
    ];
    let job = a
        .start_stable_pointer_filter(&mut d, MemoryScanAction::Exact, Some(ScanValue::I32(5)), None, None)
        .unwrap();
    assert_eq!(job.pid, 7);
    assert_eq!(job.input_count, 4);
    assert_eq!(job.comparison, Some(ScanComparison::Exact));
    assert_eq!(job.exact, Some(ScanValue::I32(5)));
    assert_eq!(job.inputs, vec![
        ScanCandidate { address: 0x100, value: ScanValue::I32(5) },
        ScanCandidate { address: 0x300, value: ScanValue::I32(9) },
    ]);
    assert!(d.filtering);
    assert_eq!(d.status, "New value \u{2014} filtering 4 candidate(s)\u{2026}");
    assert_eq!(a.memory_panel.last_action, "New value");
    assert!(a.start_stable_pointer_filter(&mut d, MemoryScanAction::Exact, Some(ScanValue::I32(5)), None, None).is_none());
}

#[test]
fn value_filter_reports_what_is_missing() {
    let mut a = app();
    let mut d = stable_dialog(&mut a, 1000);
    d.scanning = false;
    assert!(a.start_stable_pointer_filter(&mut d, MemoryScanAction::Exact, None, None, None).is_none());
    assert_eq!(d.status, "Invalid value");
    assert!(a.start_stable_pointer_filter(&mut d, MemoryScanAction::Between, None, None, Some(ScanValue::I32(1))).is_none());
    assert_eq!(d.status, "Invalid minimum value");
    assert!(a
        .start_stable_pointer_filter(&mut d, MemoryScanAction::Between, None, Some(ScanValue::I32(4)), Some(ScanValue::I32(1)))
        .is_none());
    assert_eq!(d.status, "Minimum must not exceed maximum");
    assert!(a.start_stable_pointer_filter(&mut d, MemoryScanAction::Changed, None, None, None).is_none());
    assert_eq!(d.status, "Validate candidates before applying value filters");
    a.memory_panel.process_pid = None;
    assert!(a.start_stable_pointer_filter(&mut d, MemoryScanAction::Changed, None, None, None).is_none());
    assert_eq!(d.status, "Select the restarted process before filtering candidates");
}

#[test]
fn first_scan_filter_compares_exactly_and_unknown_compares_nothing() {
    let mut a = app();
    let mut d = stable_dialog(&mut a, 1000);
    d.scanning = false;
    d.candidates = vec![checked("a.exe", Some(0x10), Some(ScanValue::I32(1)))];
    let job = a.start_stable_pointer_filter(&mut d, MemoryScanAction::FirstScan, Some(ScanValue::I32(1)), None, None).unwrap();
    assert_eq!(job.comparison, Some(ScanComparison::Exact));
    d.filtering = false;
    let job = a.start_stable_pointer_filter(&mut d, MemoryScanAction::Unknown, None, None, None).unwrap();
    assert_eq!(job.comparison, None);
    assert_eq!(job.exact, None);
}

#[test]
fn filter_results_keep_matching_candidates_with_their_values() {
    let mut a = app();
    let mut d = stable_dialog(&mut a, 1000);
    d.candidates = vec![
        checked("a.exe", Some(0x100), None),
        checked("b.exe", Some(0x200), None),
        checked("c.exe", None, None),
        checked("d.exe", Some(0x300), None),
    ];
    d.filtering = true;
    let outcome = StablePointerFilterOutcome {
        pid: 7,
        action: MemoryScanAction::Increased,
        input_count: 4,
        result: Ok(vec![
            ScanCandidate { address: 0x300, value: ScanValue::I32(2) },
            ScanCandidate { address: 0x100, value: ScanValue::I32(8) },
            ScanCandidate { address: 0x300, value: ScanValue::I32(3) },
        ]),
    };
    d.receive_stable_pointer_filter(Some(7), outcome);
    assert!(!d.filtering);
    let kept: Vec<&str> = d.candidates.iter().map(|c| c.path.module.as_str()).collect();
    assert_eq!(kept, vec!["a.exe", "d.exe"]);
    assert_eq!(d.candidates[0].filter_value, Some(ScanValue::I32(8)));
    assert_eq!(d.candidates[1].live_value, Some(ScanValue::I32(3)));
    assert_eq!(d.selected, Some(0));
    assert_eq!(d.status, "Increased: 4 \u{2192} 2 candidate(s)");
}

#[test]
fn filter_results_of_another_process_are_dropped() {
    let mut a = app();
    let mut d = stable_dialog(&mut a, 1000);
    d.candidates = vec![checked("a.exe", Some(0x100), None)];
    let outcome = StablePointerFilterOutcome { pid: 7, action: MemoryScanAction::Changed, input_count: 1, result: Ok(Vec::new()) };
    d.receive_stable_pointer_filter(Some(9), outcome);
    assert_eq!(d.status, "The selected process changed during pointer filtering");
    assert_eq!(d.candidates.len(), 1);
    let outcome = StablePointerFilterOutcome { pid: 9, action: MemoryScanAction::Changed, input_count: 1, result: Err("gone".to_owned()) };
    d.receive_stable_pointer_filter(Some(9), outcome);
    assert_eq!(d.status, "Pointer candidate filter failed: gone");
}

#[test]
fn deep_scan_captures_map_a_first() {
    let mut a = app();
    let mut dialog: Option<DeepPointerDialog> = None;
    assert!(a.start_or_compare_deep_pointer_scan(&mut dialog, &row(0x10, None), Ok(()), limits(100), 100_000, Some(3)).is_none());
    assert_eq!(a.memory_panel.status, "Select a process");
    a.memory_panel.process_pid = Some(7);
    let job = a.start_or_compare_deep_pointer_scan(&mut dialog, &row(0x10, None), Ok(()), limits(100), 100_000, Some(3));
    assert!(matches!(job, Some(DeepPointerJob::CaptureMapA { pid: 7, .. })));
    let d = dialog.as_ref().unwrap();
    assert_eq!(d.status, "Capturing pointer map A...");
    assert_eq!(d.source_addresses, vec![0x10]);
    assert!(d.running && !d.has_map_a);
    assert_eq!(d.entity_preset_id, Some(3));
    assert_eq!(d.entity_stride, 0x48);
    assert_eq!(d.entity_count, 32);
}

#[test]
fn deep_scan_of_several_rows_starts_from_their_addresses() {
    let mut a = app();
    a.memory_panel.process_pid = Some(7);
    a.memory_panel.saved = vec![row(0x30, None), row(0x10, None), row(0x20, None)];
    a.memory_panel.selected_saved = HashSet::from([2, 0, 9]);
    let mut dialog: Option<DeepPointerDialog> = None;
    a.start_or_compare_deep_pointer_scan(&mut dialog, &row(0x10, None), Ok(()), limits(100), 100_000, None);
    assert_eq!(dialog.unwrap().source_addresses, vec![0x30, 0x20]);
}

#[test]
fn deep_scan_without_modules_reports_the_error() {
    let mut a = app();
    a.memory_panel.process_pid = Some(7);
    let mut dialog: Option<DeepPointerDialog> = None;
    let job = a.start_or_compare_deep_pointer_scan(&mut dialog, &row(0x10, None), Err("denied".to_owned()), limits(100), 100_000, None);
    assert!(job.is_none());
    assert_eq!(a.memory_panel.status, "Unable to list process modules: denied");
    let d = dialog.unwrap();
    assert_eq!(d.status, "Unable to list process modules: denied");
    assert!(!d.running);
}

#[test]
fn deep_scan_compares_with_map_a_around_entity_slots() {
    let mut a = app();
    a.memory_panel.process_pid = Some(7);
    let mut dialog: Option<DeepPointerDialog> = None;
    a.start_or_compare_deep_pointer_scan(&mut dialog, &row(0x1000, None), Ok(()), limits(100), 100_000, None);
    {
        let d = dialog.as_mut().unwrap();
        d.receive_deep_pointer_result(DeepPointerOutcome::MapA(Ok(())));
        assert!(d.has_map_a && !d.running);
        assert_eq!(
            d.status,
            "Map A ready. Restart the game, find the new target address, then right-click it and choose Compare with map A."
        );
        d.entity_stride = 0x10;
        d.entity_count = 1;
    }
    let mut saved = row(0x2000, None);
    saved.value_type = ScanValueType::F32;
    let job = a.start_or_compare_deep_pointer_scan(&mut dialog, &saved, Ok(()), limits(100), 100_000, None);
    match job {
        Some(DeepPointerJob::Compare { pid, targets_a, targets_b, entity_stride, comparison_limit, .. }) => {
            assert_eq!(pid, 7);
            assert_eq!(targets_a, vec![0x1000, 0x0FF0, 0x1010]);
            assert_eq!(targets_b, vec![0x2000, 0x1FF0, 0x2010]);
            assert_eq!(entity_stride, 0x10);
            assert_eq!(comparison_limit, 100_000);
        },
        _ => panic!("expected a comparison"),
    }
    let d = dialog.as_ref().unwrap();
    assert_eq!(d.status, "Capturing map B and comparing 1 address(es) with map A...");
    assert_eq!(d.value_type, ScanValueType::F32);
    assert!(d.running);
}

#[test]
fn comparison_limit_is_held_between_bounds() {
    let mut a = app();
    a.memory_panel.process_pid = Some(7);
    for (result_limit, expected) in [(10usize, 1000usize), (100, 6400), (1000, 16_000), (usize::MAX, 16_000)] {
        let mut dialog: Option<DeepPointerDialog> = None;
        a.start_or_compare_deep_pointer_scan(&mut dialog, &row(0x10, None), Ok(()), limits(1), 1000, None);
        dialog.as_mut().unwrap().receive_deep_pointer_result(DeepPointerOutcome::MapA(Ok(())));
        match a.start_or_compare_deep_pointer_scan(&mut dialog, &row(0x10, None), Ok(()), limits(result_limit), 1000, None) {
            Some(DeepPointerJob::Compare { comparison_limit, .. }) => assert_eq!(comparison_limit, expected),
            _ => panic!("expected a comparison"),
        }
    }
}

fn deep_dialog() -> DeepPointerDialog {
    let mut a = app();
    a.memory_panel.process_pid = Some(7);
    let mut dialog: Option<DeepPointerDialog> = None;
    a.start_or_compare_deep_pointer_scan(&mut dialog, &row(0x10, None), Ok(()), limits(100), 100_000, Some(1));
    dialog.unwrap()
}

#[test]
fn comparison_results_list_identical_paths_or_entity_roots() {
    let mut d = deep_dialog();
    d.selected.insert(0);
    let c = DeepPointerComparison { exact: vec![path("a.exe", 1, vec![])], entity_roots: vec![path("b.exe", 2, vec![])] };
    d.receive_deep_pointer_result(DeepPointerOutcome::Compared(Ok(c)));
    assert!(!d.using_entity_roots);
    assert_eq!(d.candidates[0].module, "a.exe");
    assert!(d.selected.is_empty());
    assert_eq!(d.status, "Compared map A and map B: 1 identical pointer path(s).");
    let c = DeepPointerComparison { exact: Vec::new(), entity_roots: vec![path("b.exe", 2, vec![]), path("c.exe", 3, vec![])] };
    d.receive_deep_pointer_result(DeepPointerOutcome::Compared(Ok(c)));
    assert!(d.using_entity_roots);
    assert_eq!(d.candidates.len(), 2);
    assert_eq!(
        d.status,
        "No identical full path. Found 2 stable entity-list root(s) after removing the changing slot offset (stride 72)."
    );
    let c = DeepPointerComparison { exact: Vec::new(), entity_roots: Vec::new() };
    d.receive_deep_pointer_result(DeepPointerOutcome::Compared(Ok(c)));
    assert_eq!(
        d.status,
        "No identical pointer path or stable entity-list root found with stride 72. Verify the stride before comparing again."
    );
    d.receive_deep_pointer_result(DeepPointerOutcome::MapA(Err("no memory".to_owned())));
    assert_eq!(d.status, "Deep pointer scan failed: no memory");
}

#[test]
fn deep_rows_select_by_click_and_by_search() {
    let mut d = deep_dialog();
    d.candidates = vec![
        path("game.exe", 1, vec![]),
        path("engine.dll", 2, vec![]),
        path("game2.exe", 3, vec![]),
        path("x.dll", 4, vec![]),
    ];
    d.click_deep_pointer_row(1, false, false);
    assert_eq!(d.selected, HashSet::from([1]));
    assert_eq!(d.selection_anchor, Some(1));
    d.click_deep_pointer_row(3, true, false);
    assert_eq!(d.selected, HashSet::from([1, 2, 3]));
    assert_eq!(d.selection_anchor, Some(1));
    d.click_deep_pointer_row(2, false, true);
    assert_eq!(d.selected, HashSet::from([1, 3]));
    assert_eq!(d.selection_anchor, Some(2));
    d.exe_only = true;
    d.select_all_shown();
    assert_eq!(d.selected, HashSet::from([0, 2]));
    d.exe_only = false;
    d.filter = "DLL".to_owned();
    d.select_all_shown();
    assert_eq!(d.selected, HashSet::from([1, 3]));
}

#[test]
fn deep_rows_are_saved_as_pointer_rows() {
    let mut d = deep_dialog();
    d.candidates = vec![path("game.exe", 0x40, vec![0x8, 0x10]), path("engine.dll", 0x80, vec![])];
    d.selected = HashSet::from([1, 0, 5]);
    d.display_type = ScanValueType::I64;
    let rows = d.rows_to_save(None);
    assert_eq!(rows, vec![0, 1]);
    assert_eq!(d.rows_to_save(Some(1)), vec![1]);
    assert!(d.rows_to_save(Some(2)).is_empty());
    let mut a = app();
    a.memory_panel.process_pid = Some(7);
    let reads = vec![Some(DeepPointerRead { base: 0x1000, address: 0x5000, value: Some(ScanValue::I64(12)) }), None];
    a.add_deep_pointer_rows(&d, &rows, &reads);
    assert_eq!(a.memory_panel.status, "Added 1 deep pointer(s) to Address list");
    assert_eq!(a.memory_panel.saved.len(), 1);
    let r = &a.memory_panel.saved[0];
    assert_eq!(r.address, 0x5000);
    assert_eq!(r.value_type, ScanValueType::I64);
    assert_eq!(r.current, Some(ScanValue::I64(12)));
    assert_eq!(r.description, "game.exe+40");
    let p = r.pointer.as_ref().unwrap();
    assert_eq!(p.base, 0x1000);
    assert_eq!(p.module, Some(("game.exe".to_owned(), 0x40)));
    assert_eq!(p.offsets, vec![0x8, 0x10]);
}

#[test]
fn a_found_root_becomes_an_entity_list_source() {
    let mut d = deep_dialog();
    d.candidates = vec![path("game.exe", 0x40, vec![0x8, 0x10])];
    d.entity_count = 900;
    d.entity_stride = 0;
    let src = d.entity_list_source(0).unwrap();
    assert_eq!(src.root, "game.exe+40 [8, 10]");
    assert_eq!(src.y_offset, 4);
    assert_eq!(src.z_offset, 8);
    assert_eq!(src.stride, 1);
    assert_eq!(src.count, 512);
    assert!(d.entity_list_source(1).is_none());
    d.entity_preset_id = None;
    assert!(d.entity_list_source(0).is_none());
    d.has_map_a = true;
    d.entity_source_saved("Players");
    assert!(!d.has_map_a);
    assert_eq!(d.status, "Saved Entity List source to Players. Pointer map memory was released.");
}
