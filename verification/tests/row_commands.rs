use std::collections::HashSet;

use memory_panel::memory_view::MemoryViewKind;
use memory_panel::panel::{AppState, CrosshairApp, MemoryPanelState};
use memory_panel::pointer::PointerSpec;
use memory_panel::saved::{SavedMemoryAddress, TextEncoding};
use memory_panel::saved_commands::{saved_memory_view, saved_row_value_text};
use memory_panel::scan::{ScanValue, ScanValueType};

fn app() -> CrosshairApp {
    CrosshairApp {
        memory_panel: MemoryPanelState::default(),
        state: AppState {
            memory_pointer_scan_offset: String::new(),
            memory_pointer_scan_depth: 5,
            memory_pointer_scan_result_limit: 1000,
            memory_pointer_scan_memory_mb: 1024,
            memory_scan_hotkeys: Vec::new(),
            memory_pointer_list: Vec::new(),
            memory_code_list: Vec::new(),
            memory_camera_x: String::new(),
            memory_camera_y: String::new(),
            memory_camera_z: String::new(),
            memory_camera_viewport_width: "1920".to_owned(),
            memory_camera_viewport_height: "1080".to_owned(),
        },
        capture_hotkey_combo_keys: None,
        capture_hotkey_combo_vks: Vec::new(),
    }
}

fn row(address: usize, description: &str) -> SavedMemoryAddress {
    SavedMemoryAddress {
        address,
        value_type: ScanValueType::I32,
        current: None,
        text_encoding: None,
        text_byte_len: 0,
        current_text: None,
        description: description.to_owned(),
        group: String::new(),
        hexadecimal: false,
        pointer: None,
        frozen: None,
        saved_to_library: false,
    }
}

fn text_row(address: usize) -> SavedMemoryAddress {
    let mut r = row(address, "");
    r.text_encoding = Some(TextEncoding::Utf8);
    r.text_byte_len = 8;
    r.current_text = Some("name".to_owned());
    r
}

fn selected(app: &CrosshairApp) -> Vec<usize> {
    let mut v: Vec<usize> = app.memory_panel.selected_saved.iter().copied().collect();
    v.sort();
    v
}

#[test]
fn select_all_selects_every_saved_row() {
    let mut a = app();
    a.memory_panel.saved = vec![row(0x10, "a"), row(0x20, "b"), row(0x30, "c")];
    a.memory_panel.selected_saved = HashSet::from([1]);
    a.select_all_saved();
    assert_eq!(selected(&a), vec![0, 1, 2]);
}

#[test]
fn extending_up_selects_to_the_top() {
    let mut a = app();
    a.memory_panel.saved = (0..6).map(|i| row(0x10 * (i + 1), "")).collect();
    a.memory_panel.selected_saved = HashSet::from([3, 5]);
    a.extend_saved_selection_up();
    assert_eq!(selected(&a), vec![0, 1, 2, 3, 4, 5]);
    assert_eq!(a.memory_panel.saved_selection_anchor, Some(0));
}

#[test]
fn extending_down_selects_to_the_bottom() {
    let mut a = app();
    a.memory_panel.saved = (0..6).map(|i| row(0x10 * (i + 1), "")).collect();
    a.memory_panel.selected_saved = HashSet::from([2, 3]);
    a.extend_saved_selection_down();
    assert_eq!(selected(&a), vec![2, 3, 4, 5]);
}

#[test]
fn extending_without_selection_changes_nothing() {
    let mut a = app();
    a.memory_panel.saved = vec![row(0x10, "a"), row(0x20, "b")];
    a.extend_saved_selection_up();
    assert!(a.memory_panel.selected_saved.is_empty());
    a.extend_saved_selection_down();
    assert!(a.memory_panel.selected_saved.is_empty());
    assert_eq!(a.memory_panel.saved_selection_anchor, None);
}

#[test]
fn retyping_selected_rows_makes_them_numeric() {
    let mut a = app();
    a.memory_panel.saved = vec![row(0x10, "a"), text_row(0x20), row(0x30, "c")];
    a.memory_panel.selected_saved = HashSet::from([1, 2]);
    a.set_selected_saved_type(ScanValueType::F32, None);
    assert_eq!(a.memory_panel.saved[0].value_type, ScanValueType::I32);
    assert_eq!(a.memory_panel.saved[1].value_type, ScanValueType::F32);
    assert_eq!(a.memory_panel.saved[1].text_encoding, None);
    assert_eq!(a.memory_panel.saved[2].value_type, ScanValueType::F32);
}

#[test]
fn freezing_selected_rows_holds_their_current_values() {
    let mut a = app();
    let mut r0 = row(0x10, "a");
    r0.current = Some(ScanValue::I32(7));
    let mut r1 = row(0x20, "b");
    r1.current = Some(ScanValue::I32(9));
    let mut t = text_row(0x30);
    t.current = Some(ScanValue::I32(1));
    a.memory_panel.saved = vec![r0, r1, t];
    a.memory_panel.process_pid = Some(42);
    a.memory_panel.selected_saved = HashSet::from([0, 2]);
    assert!(!a.selected_all_frozen());
    a.freeze_selected_saved(true);
    assert_eq!(a.memory_panel.saved[0].frozen, Some(ScanValue::I32(7)));
    assert_eq!(a.memory_panel.saved[1].frozen, None);
    assert_eq!(a.memory_panel.saved[2].frozen, None);
    assert_eq!(a.memory_panel.freeze_targets.len(), 1);
    assert_eq!(a.memory_panel.freeze_targets[0].address, 0x10);
    a.memory_panel.selected_saved = HashSet::from([0]);
    assert!(a.selected_all_frozen());
    a.freeze_selected_saved(false);
    assert_eq!(a.memory_panel.saved[0].frozen, None);
    assert!(a.memory_panel.freeze_targets.is_empty());
}

#[test]
fn a_selection_past_the_rows_is_not_all_frozen() {
    let mut a = app();
    let mut r0 = row(0x10, "a");
    r0.frozen = Some(ScanValue::I32(1));
    a.memory_panel.saved = vec![r0];
    a.memory_panel.selected_saved = HashSet::from([0, 4]);
    assert!(!a.selected_all_frozen());
}

#[test]
fn saving_to_library_marks_numeric_rows_and_counts_them() {
    let mut a = app();
    a.memory_panel.saved = vec![row(0x10, ""), text_row(0x20), row(0x30, "kept")];
    a.memory_panel.selected_saved = HashSet::from([0, 1, 2]);
    a.save_selected_to_library(Some("game.exe".to_owned()));
    assert_eq!(a.memory_panel.status, "2 address(es) saved to library");
    assert!(a.memory_panel.saved[0].saved_to_library);
    assert_eq!(a.memory_panel.saved[0].description, "0x00000010");
    assert!(!a.memory_panel.saved[1].saved_to_library);
    assert!(a.memory_panel.saved[2].saved_to_library);
    assert_eq!(a.memory_panel.saved[2].description, "kept");
}

#[test]
fn a_row_value_column_shows_text_value_or_question_mark() {
    let t = text_row(0x10);
    assert_eq!(saved_row_value_text(&t, None), "name");
    let mut r = row(0x10, "");
    assert_eq!(saved_row_value_text(&r, None), "?");
    r.current = Some(ScanValue::I32(-5));
    assert_eq!(saved_row_value_text(&r, None), "-5");
    r.current = Some(ScanValue::F32(0x3fc0_0000));
    r.value_type = ScanValueType::F32;
    assert_eq!(saved_row_value_text(&r, Some("1.5".to_owned())), "1.5");
}

#[test]
fn the_address_dialog_opens_with_the_row() {
    let mut a = app();
    let mut p = row(0x40, "hp");
    p.pointer = Some(PointerSpec { base: 0x1000, module: Some(("game.exe".to_owned(), 0x40)), offsets: vec![0x18, 0x20] });
    p.hexadecimal = true;
    a.memory_panel.saved = vec![row(0x10, "plain"), p];
    let d = a.address_dialog_for_row(0);
    assert_eq!(d.index, 0);
    assert_eq!(d.address, "0x00000010");
    assert_eq!(d.offsets, "");
    assert!(!d.pointer);
    assert_eq!(d.description, "plain");
    let d = a.address_dialog_for_row(1);
    assert_eq!(d.index, 1);
    assert_eq!(d.address, "game.exe+40");
    assert_eq!(d.offsets, "18, 20");
    assert!(d.pointer);
    assert!(d.hexadecimal);
}

#[test]
fn a_row_memory_view_opens_bytes_or_structure() {
    let bytes = saved_memory_view(0x2000, None, false);
    assert_eq!(bytes.kind, MemoryViewKind::Bytes);
    assert_eq!(bytes.pointer_width, 8);
    assert_eq!(bytes.structure_forward_step, "C");
    assert_eq!(bytes.structure_back_step, "10");
    assert_eq!(bytes.classes.len(), 1);
    assert_eq!(bytes.classes[0].name, "Class_0");
    assert_eq!(bytes.classes[0].address, 0x2000);
    let fields = saved_memory_view(0x2000, Some(4), true);
    assert_eq!(fields.kind, MemoryViewKind::Structure);
    assert_eq!(fields.pointer_width, 4);
    assert_eq!(fields.structure_forward_step, "10");
    assert!(!fields.relative_addresses);
}

#[test]
fn group_dialog_lists_selected_rows_in_order() {
    let mut a = app();
    a.memory_panel.saved = (0..8).map(|i| row(0x10 * (i + 1), "")).collect();
    a.memory_panel.selected_saved = HashSet::from([6, 1, 4, 3]);
    assert_eq!(a.group_dialog_indices(), vec![1, 3, 4, 6]);
}
