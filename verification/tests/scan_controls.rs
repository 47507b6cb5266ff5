use std::collections::HashSet;

use memory_panel::address_dialog::{address_dialog_pointer, AddressDialog};
use memory_panel::panel::{AppState, CrosshairApp, MemoryPanelState};
use memory_panel::pointer::PointerSpec;
use memory_panel::saved::{SavedMemoryAddress, ScanCandidate, TextEncoding, TextScanCandidate};
use memory_panel::scan::{MemoryScanAction, ScanValue, ScanValueType};
use memory_panel::scan_start::{scan_alignment, scan_result_limit, scan_result_limit_text, DEFAULT_SCAN_LIMIT};

fn app() -> CrosshairApp {
    CrosshairApp {
        memory_panel: MemoryPanelState::default(),
        state: AppState {
            memory_pointer_scan_offset: String::new(),
            memory_pointer_scan_depth: 5,
            memory_pointer_scan_result_limit: 1000,
            memory_pointer_scan_memory_mb: 1024,
            memory_scan_hotkeys: Vec::new(),
            memory_pointer_list: Vec::new(),
            memory_code_list: Vec::new(),
            memory_camera_x: String::new(),
            memory_camera_y: String::new(),
            memory_camera_z: String::new(),
            memory_camera_viewport_width: "1920".to_owned(),
            memory_camera_viewport_height: "1080".to_owned(),
        },
        capture_hotkey_combo_keys: None,
        capture_hotkey_combo_vks: Vec::new(),
    }
}

fn row(address: usize) -> SavedMemoryAddress {
    SavedMemoryAddress {
        address,
        value_type: ScanValueType::I32,
        current: None,
        text_encoding: None,
        text_byte_len: 0,
        current_text: None,
        description: String::new(),
        group: String::new(),
        hexadecimal: false,
        pointer: None,
        frozen: Some(ScanValue::I32(1)),
        saved_to_library: false,
    }
}

fn sorted(s: &HashSet<usize>) -> Vec<usize> {
    let mut v: Vec<usize> = s.iter().copied().collect();
    v.sort();
    v
}

#[test]
fn result_clicks_select_rows_and_ranges() {
    let mut a = app();
    a.select_memory_result(3, true, false, false);
    assert_eq!(sorted(&a.memory_panel.selected_results), vec![3]);
    assert_eq!(a.memory_panel.selection_anchor, Some(3));
    assert!(!a.memory_panel.saved_list_active);
    a.select_memory_result(6, true, true, false);
    assert_eq!(sorted(&a.memory_panel.selected_results), vec![3, 4, 5, 6]);
    assert_eq!(a.memory_panel.selection_anchor, Some(3));
    a.select_memory_result(5, false, true, true);
    assert_eq!(sorted(&a.memory_panel.selected_results), vec![6]);
    a.select_memory_result(9, true, false, true);
    assert_eq!(sorted(&a.memory_panel.selected_results), vec![6, 9]);
    a.select_memory_result(1005, true, true, false);
    assert_eq!(a.memory_panel.selected_results.len(), 1000 - 9);
    assert!(!a.memory_panel.selected_results.contains(&1000));
}

#[test]
fn saved_row_clicks_toggle_and_extend() {
    let mut a = app();
    a.select_saved_memory_row(2, false, false, false);
    assert_eq!(sorted(&a.memory_panel.selected_saved), vec![2]);
    assert!(a.memory_panel.saved_list_active);
    a.select_saved_memory_row(0, false, true, true);
    assert_eq!(sorted(&a.memory_panel.selected_saved), vec![0, 1, 2]);
    a.select_saved_memory_row(1, true, false, true);
    assert_eq!(sorted(&a.memory_panel.selected_saved), vec![0, 2]);
    assert_eq!(a.memory_panel.saved_selection_anchor, Some(1));
    a.select_saved_memory_row(4, true, false, false);
    assert_eq!(sorted(&a.memory_panel.selected_saved), vec![4]);
}

#[test]
fn scan_limits_and_alignment_are_read_from_text() {
    assert_eq!(scan_result_limit(""), DEFAULT_SCAN_LIMIT);
    assert_eq!(scan_result_limit(" UNLIMITED "), DEFAULT_SCAN_LIMIT);
    assert_eq!(scan_result_limit("1.000.000"), 1_000_000);
    assert_eq!(scan_result_limit("5"), 1000);
    assert_eq!(scan_result_limit("lots"), DEFAULT_SCAN_LIMIT);
    assert_eq!(scan_result_limit_text(DEFAULT_SCAN_LIMIT), "Unlimited");
    assert_eq!(scan_result_limit_text(25000), "25000");
    assert_eq!(scan_alignment(" 16 ", ScanValueType::I32), 16);
    assert_eq!(scan_alignment("x", ScanValueType::F64), 8);
    assert_eq!(scan_alignment("0", ScanValueType::I8), 1);
    assert_eq!(scan_alignment("99999", ScanValueType::I8), 4096);
}

#[test]
fn scans_start_only_with_valid_inputs() {
    let mut a = app();
    assert!(a.start_memory_action(MemoryScanAction::FirstScan, Some(ScanValue::I32(0)), None, None).is_none());
    assert_eq!(a.memory_panel.status, "Select a process");
    a.memory_panel.process_pid = Some(11);
    assert!(a.start_memory_action(MemoryScanAction::FirstScan, None, None, None).is_none());
    assert_eq!(a.memory_panel.status, "Invalid value");
    assert!(a.start_memory_action(MemoryScanAction::Between, None, Some(ScanValue::I32(5)), Some(ScanValue::I32(1))).is_none());
    assert_eq!(a.memory_panel.status, "Minimum must not exceed maximum");
    assert!(a.start_memory_action(MemoryScanAction::Between, None, None, Some(ScanValue::I32(1))).is_none());
    assert_eq!(a.memory_panel.status, "Invalid minimum value");
    a.memory_panel.text_encoding = Some(TextEncoding::Utf8);
    assert!(a.start_memory_action(MemoryScanAction::Increased, None, None, None).is_none());
    assert_eq!(a.memory_panel.status, "Text scan supports First scan and New value");
    a.memory_panel.scan_settings.value_input = String::new();
    assert!(a.start_memory_action(MemoryScanAction::FirstScan, None, None, None).is_none());
    assert_eq!(a.memory_panel.status, "Text cannot be empty");
    a.memory_panel.text_encoding = None;
    a.memory_panel.scan_settings.is_aob_scan = true;
    a.memory_panel.scan_settings.value_input = "  ".to_owned();
    assert!(a.start_memory_action(MemoryScanAction::FirstScan, None, None, None).is_none());
    assert_eq!(a.memory_panel.status, "AOB pattern cannot be empty");
}

#[test]
fn a_first_scan_starts_a_session() {
    let mut a = app();
    a.memory_panel.process_pid = Some(11);
    a.memory_panel.scan_settings.result_limit_input = "2_000".to_owned();
    a.memory_panel.scan_settings.fast_scan_alignment = "junk".to_owned();
    a.memory_panel.candidates = vec![ScanCandidate { address: 1, value: ScanValue::I32(0) }];
    a.memory_panel.selected_results = HashSet::from([0]);
    let job = a.start_memory_action(MemoryScanAction::FirstScan, Some(ScanValue::I32(0)), None, None).unwrap();
    assert_eq!(job.pid, 11);
    assert_eq!(job.exact, Some(ScanValue::I32(0)));
    assert_eq!(job.range, None);
    assert_eq!(job.result_limit, 2000);
    assert_eq!(job.options.alignment, Some(4));
    assert!(job.options.writable && !job.options.executable);
    assert!(job.candidates.is_empty());
    assert_eq!(job.text, "0");
    assert!(a.memory_panel.candidates.is_empty());
    assert!(a.memory_panel.selected_results.is_empty());
    assert_eq!(a.memory_panel.scan_settings.result_limit_input, "2000");
    assert_eq!(a.memory_panel.scan_settings.fast_scan_alignment, "4");
    assert!(a.memory_panel.scanning && a.memory_panel.job_pending && a.memory_panel.has_scan_session);
    assert_eq!(a.memory_panel.status, "First scan — loading…");
    assert_eq!(a.memory_panel.last_action, "First scan");
    assert!(a.start_memory_action(MemoryScanAction::FirstScan, Some(ScanValue::I32(0)), None, None).is_none());
}

#[test]
fn a_follow_up_scan_filters_the_previous_results() {
    let mut a = app();
    a.memory_panel.process_pid = Some(11);
    a.memory_panel.candidates = vec![
        ScanCandidate { address: 1, value: ScanValue::I32(0) },
        ScanCandidate { address: 2, value: ScanValue::I32(0) },
    ];
    a.memory_panel.text_candidates = vec![TextScanCandidate { address: 3, current: "a".to_owned() }];
    let job = a
        .start_memory_action(MemoryScanAction::Between, None, Some(ScanValue::I32(1)), Some(ScanValue::I32(9)))
        .unwrap();
    assert_eq!(job.range, Some((ScanValue::I32(1), ScanValue::I32(9))));
    assert_eq!(job.exact, None);
    assert_eq!(job.candidates.len(), 2);
    assert!(job.text_candidates.is_empty());
    assert_eq!(a.memory_panel.scan_input_count, 2);
    assert!(!a.memory_panel.has_scan_session);
    assert_eq!(a.memory_panel.status, "Between — loading…");
}

fn dialog(address: &str, offsets: &str, pointer: bool) -> AddressDialog {
    AddressDialog {
        index: 0,
        address: address.to_owned(),
        offsets: offsets.to_owned(),
        pointer,
        description: "renamed".to_owned(),
        value_type: ScanValueType::F32,
        hexadecimal: true,
    }
}

#[test]
fn address_dialog_pointers_are_read() {
    let p: PointerSpec = address_dialog_pointer(&dialog(" engine.dll+8AEEFA0 ", "10, 20;  30", true)).unwrap();
    assert_eq!(p.module, Some(("engine.dll".to_owned(), 0x8AEEFA0)));
    assert_eq!(p.offsets, vec![0x10, 0x20, 0x30]);
    let p = address_dialog_pointer(&dialog("0x1000+10", "8", true)).unwrap();
    assert_eq!(p.module, None);
    assert_eq!(p.base, 0x1010);
    assert_eq!(address_dialog_pointer(&dialog("0x1000", "8, zz", true)).err(), Some("Invalid pointer offsets".to_owned()));
    assert_eq!(address_dialog_pointer(&dialog("nowhere", "", true)).err(), Some("Invalid address".to_owned()));
}

#[test]
fn applying_the_address_dialog_moves_the_row() {
    let mut a = app();
    a.memory_panel.saved = vec![row(0x2000)];
    a.apply_memory_address_dialog(&dialog("+10", "", false), None, None);
    let r = &a.memory_panel.saved[0];
    assert_eq!(r.address, 0x2010);
    assert_eq!(r.description, "renamed");
    assert_eq!(r.value_type, ScanValueType::F32);
    assert!(r.hexadecimal);
    assert_eq!(r.frozen, None);

    a.memory_panel.saved[0].frozen = Some(ScanValue::F32(0));
    a.memory_panel.process_pid = Some(1);
    a.apply_memory_address_dialog(&dialog("game.exe+40", "8", true), Some(0x9999), None);
    let r = &a.memory_panel.saved[0];
    assert_eq!(r.address, 0x9999);
    assert_eq!(r.frozen, None);
    assert_eq!(r.pointer.as_ref().unwrap().module, Some(("game.exe".to_owned(), 0x40)));

    a.memory_panel.process_pid = None;
    a.apply_memory_address_dialog(&dialog("game.exe+40", "8", true), Some(0x9999), None);
    assert_eq!(a.memory_panel.saved[0].address, 0);

    a.apply_memory_address_dialog(&dialog("zz", "", false), None, None);
    assert_eq!(a.memory_panel.status, "Invalid address");
    assert_eq!(a.memory_panel.saved[0].address, 0);
}

#[test]
fn the_value_editor_starts_from_the_row() {
    let mut a = app();
    let mut text = row(1);
    text.current_text = Some("hello".to_owned());
    let mut number = row(2);
    number.current = Some(ScanValue::I16(-2));
    let mut float = row(3);
    float.current = Some(ScanValue::F32(1.5f32.to_bits()));
    a.memory_panel.saved = vec![text, number, float, row(4)];
    a.begin_saved_memory_value_edit(0, None);
    assert_eq!(a.memory_panel.edit_value_input, "hello");
    assert_eq!(a.memory_panel.edit_value_index, Some(0));
    assert!(a.memory_panel.edit_value_open);
    a.begin_saved_memory_value_edit(1, None);
    assert_eq!(a.memory_panel.edit_value_input, "-2");
    a.memory_panel.hex = true;
    a.begin_saved_memory_value_edit(1, None);
    assert_eq!(a.memory_panel.edit_value_input, "FFFE");
    a.memory_panel.hex = false;
    a.begin_saved_memory_value_edit(2, Some("1.5".to_owned()));
    assert_eq!(a.memory_panel.edit_value_input, "1.5");
    a.begin_saved_memory_value_edit(3, None);
    assert_eq!(a.memory_panel.edit_value_input, "");
    a.begin_saved_memory_value_edit(9, None);
    assert_eq!(a.memory_panel.edit_value_index, Some(3));
}
