use std::collections::HashSet;

use memory_panel::entity::{
    active_entity_candidate_address, entity_root_priority, expand_entity_slot_targets, follow_pointer,
    is_system_module, parse_entity_expression, parse_entity_xyz_offsets, resolve_entity_inputs,
    EntityListCandidate, EntityListDialog, EntityRoot, PointerStepError,
};
use memory_panel::panel::{AppState, CrosshairApp, MemoryPanelState};
use memory_panel::pointer::PointerSpec;
use memory_panel::saved::{SavedMemoryAddress, ScanCandidate, TextScanCandidate};
use memory_panel::scan::{ScanValue, ScanValueType};

fn dialog(inputs: &[&str]) -> EntityListDialog {
    EntityListDialog {
        inputs: inputs.iter().map(|s| s.to_string()).collect(),
        new_input: String::new(),
        inputs_are_x_fields: false,
        x_offset: "10".to_owned(),
        y_offset: "14".to_owned(),
        z_offset: "18".to_owned(),
        max_gap: "128".to_owned(),
        status: String::new(),
        candidates: Vec::new(),
        selected: HashSet::new(),
        selection_anchor: None,
        active_candidate: None,
        entity_bases: Vec::new(),
        pointer_width: 8,
        searching: false,
        root_searching: false,
        list_offset: 0,
        preview: None,
        roots: Vec::new(),
        selected_root: None,
        root_address: None,
        allow_system_roots: false,
    }
}

fn candidate(address: usize, end_address: usize) -> EntityListCandidate {
    EntityListCandidate { address, end_address, matched_entities: 0, readable_pointers: 0, plausible_xyz: 0 }
}

#[test]
fn slot_targets_spread_around_each_target_once() {
    assert_eq!(
        expand_entity_slot_targets(&[0x100, 0x108], 8, 1),
        vec![0x100, 0xF8, 0x108, 0x110]
    );
    assert_eq!(expand_entity_slot_targets(&[4], 8, 2), vec![4, 12, 20]);
    assert_eq!(expand_entity_slot_targets(&[usize::MAX], 1, 1), vec![usize::MAX, usize::MAX - 1]);
    assert!(expand_entity_slot_targets(&[], 8, 3).is_empty());
}

#[test]
fn system_modules_rank_last_and_executables_first() {
    assert!(is_system_module("KERNEL32.DLL"));
    assert!(is_system_module("msvcp140.dll"));
    assert!(!is_system_module("game.dll"));
    assert_eq!(entity_root_priority("Game.EXE"), 0);
    assert_eq!(entity_root_priority("engine.dll"), 1);
    assert_eq!(entity_root_priority("ntdll.dll"), 2);
}

#[test]
fn entity_field_offsets_are_hexadecimal() {
    let mut d = dialog(&[]);
    assert_eq!(parse_entity_xyz_offsets(&d), Ok([0x10, 0x14, 0x18]));
    d.y_offset = "q".to_owned();
    assert_eq!(parse_entity_xyz_offsets(&d), Err("Invalid Y field offset.".to_owned()));
    d.x_offset = String::new();
    assert_eq!(parse_entity_xyz_offsets(&d), Err("Invalid X field offset.".to_owned()));
}

#[test]
fn the_active_candidate_moves_by_the_list_offset() {
    let mut d = dialog(&[]);
    d.candidates = vec![candidate(0x1000, 0x1100)];
    assert_eq!(active_entity_candidate_address(&d), None);
    d.active_candidate = Some(0);
    d.list_offset = -0x10;
    assert_eq!(active_entity_candidate_address(&d), Some(0xFF0));
    d.list_offset = -0x2000;
    assert_eq!(active_entity_candidate_address(&d), None);
    d.active_candidate = Some(3);
    assert_eq!(active_entity_candidate_address(&d), None);
}

#[test]
fn pointers_are_followed_by_width() {
    assert_eq!(follow_pointer(4, ScanValue::I32(-1), 1), Ok(0x1_0000_0000));
    assert_eq!(follow_pointer(8, ScanValue::I64(0x1000), 0x20), Ok(0x1020));
    assert_eq!(follow_pointer(4, ScanValue::I64(1), 0), Err(PointerStepError::UnsupportedWidth));
    assert_eq!(follow_pointer(8, ScanValue::I64(-1), 1), Err(PointerStepError::Overflow));
}

#[test]
fn entity_expressions_name_a_root_and_a_chain() {
    let e = parse_entity_expression("  game.exe+1F0 [10, ; 8 ]  ").unwrap();
    match e.root {
        EntityRoot::Module(m, o) => {
            assert_eq!(m, "game.exe");
            assert_eq!(o, 0x1F0);
        }
        EntityRoot::Address(_) => panic!("expected a module root"),
    }
    assert_eq!(e.offsets, vec![0x10, 8]);
    let e = parse_entity_expression("0x1000+20").unwrap();
    assert!(matches!(e.root, EntityRoot::Address(0x1020)));
    assert!(e.offsets.is_empty());
    assert_eq!(parse_entity_expression("game.exe+10 [8").err(), Some("pointer chain must end with ]".to_owned()));
    assert_eq!(parse_entity_expression("game.exe+10 [8, zz]").err(), Some("invalid pointer offset:  zz".to_owned()));
    assert_eq!(parse_entity_expression("game.exe").err(), Some("use raw, module+offset, or root [offsets]".to_owned()));
    assert_eq!(parse_entity_expression("game.exe+q1").err(), Some("invalid module offset".to_owned()));
}

#[test]
fn entity_inputs_resolve_to_distinct_bases() {
    let mut d = dialog(&["a", "  ", "b", "c"]);
    let resolved = vec![Ok(0x110), Ok(0), Ok(0x210), Ok(0x110)];
    assert_eq!(resolve_entity_inputs(&d, &resolved, [0x10, 0x14, 0x18]), Ok(vec![0x110, 0x210]));
    d.inputs_are_x_fields = true;
    assert_eq!(resolve_entity_inputs(&d, &resolved, [0x10, 0x14, 0x18]), Ok(vec![0x100, 0x200]));
    let low = vec![Ok(0x110), Ok(0), Ok(0x8), Ok(0x110)];
    assert_eq!(resolve_entity_inputs(&d, &low, [0x10, 0x14, 0x18]), Err("Entity 3 is below X offset.".to_owned()));
    let failed = vec![Ok(0x110), Ok(0), Ok(0x210), Err("unreadable".to_owned())];
    assert_eq!(resolve_entity_inputs(&d, &failed, [0x10, 0x14, 0x18]), Err("Entity 4: unreadable".to_owned()));
}

fn app() -> CrosshairApp {
    CrosshairApp {
        memory_panel: MemoryPanelState::default(),
        state: AppState {
            memory_pointer_scan_offset: String::new(),
            memory_pointer_scan_depth: 5,
            memory_pointer_scan_result_limit: 1000,
            memory_pointer_scan_memory_mb: 1024,
            memory_scan_hotkeys: Vec::new(),
            memory_pointer_list: Vec::new(),
            memory_code_list: Vec::new(),
            memory_camera_x: String::new(),
            memory_camera_y: String::new(),
            memory_camera_z: String::new(),
            memory_camera_viewport_width: "1920".to_owned(),
            memory_camera_viewport_height: "1080".to_owned(),
        },
        capture_hotkey_combo_keys: None,
        capture_hotkey_combo_vks: Vec::new(),
    }
}

#[test]
fn selected_rows_and_results_fill_blank_entity_inputs() {
    let mut a = app();
    a.memory_panel.saved = vec![SavedMemoryAddress {
        address: 0x2000,
        value_type: ScanValueType::I32,
        current: None,
        text_encoding: None,
        text_byte_len: 0,
        current_text: None,
        description: String::new(),
        group: String::new(),
        hexadecimal: false,
        pointer: Some(PointerSpec { base: 0, module: Some(("game.exe".to_owned(), 0x40)), offsets: vec![0x18] }),
        frozen: None,
        saved_to_library: false,
    }];
    a.memory_panel.selected_saved = HashSet::from([0, 5]);
    a.memory_panel.candidates = vec![ScanCandidate { address: 0x10, value: ScanValue::I32(0) }];
    a.memory_panel.text_candidates = vec![
        TextScanCandidate { address: 0x99, current: String::new() },
        TextScanCandidate { address: 0x30, current: String::new() },
    ];
    a.memory_panel.selected_results = HashSet::from([1]);
    let mut d = dialog(&["0x00000030", " ", "x"]);
    a.add_selected_entity_addresses(&mut d);
    assert_eq!(d.inputs, vec!["0x00000030", "game.exe+40 [18]", "x"]);
    a.memory_panel.selected_results = HashSet::from([0]);
    a.add_selected_entity_addresses(&mut d);
    assert_eq!(d.inputs, vec!["0x00000030", "game.exe+40 [18]", "x", "0x00000010"]);
    let back = parse_entity_expression(&d.inputs[1]).unwrap();
    assert!(matches!(back.root, EntityRoot::Module(ref m, 0x40) if m == "game.exe"));
    assert_eq!(back.offsets, vec![0x18]);
    let back = parse_entity_expression(&d.inputs[3]).unwrap();
    assert!(matches!(back.root, EntityRoot::Address(0x10)));
}
