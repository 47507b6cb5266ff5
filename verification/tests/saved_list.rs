use std::collections::HashSet;

use memory_panel::dll_import::{import_saved_addresses, DllMemoryEntry, DllPatchMode, DllValueType};
use memory_panel::library::MemoryPointerEntry;
use memory_panel::panel::{AppState, CrosshairApp, MemoryPanelState};
use memory_panel::pointer::PointerSpec;
use memory_panel::saved::{HotkeyBinding, SavedMemoryAddress};
use memory_panel::scan::{MemoryScanAction, ScanValue, ScanValueType};

fn app() -> CrosshairApp {
    CrosshairApp {
        memory_panel: MemoryPanelState::default(),
        state: AppState {
            memory_pointer_scan_offset: String::new(),
            memory_pointer_scan_depth: 5,
            memory_pointer_scan_result_limit: 1000,
            memory_pointer_scan_memory_mb: 1024,
            memory_scan_hotkeys: Vec::new(),
            memory_pointer_list: Vec::new(),
            memory_code_list: Vec::new(),
            memory_camera_x: String::new(),
            memory_camera_y: String::new(),
            memory_camera_z: String::new(),
            memory_camera_viewport_width: "1920".to_owned(),
            memory_camera_viewport_height: "1080".to_owned(),
        },
        capture_hotkey_combo_keys: None,
        capture_hotkey_combo_vks: Vec::new(),
    }
}

fn row(address: usize, description: &str) -> SavedMemoryAddress {
    SavedMemoryAddress {
        address,
        value_type: ScanValueType::I32,
        current: None,
        text_encoding: None,
        text_byte_len: 0,
        current_text: None,
        description: description.to_owned(),
        group: String::new(),
        hexadecimal: false,
        pointer: None,
        frozen: None,
        saved_to_library: false,
    }
}

fn descriptions(app: &CrosshairApp) -> Vec<String> {
    app.memory_panel.saved.iter().map(|r| r.description.clone()).collect()
}

fn selected(app: &CrosshairApp) -> Vec<usize> {
    let mut v: Vec<usize> = app.memory_panel.selected_saved.iter().copied().collect();
    v.sort();
    v
}

#[test]
fn new_panel_is_ready() {
    let p = MemoryPanelState::default();
    assert_eq!(p.status, "Ready");
    assert_eq!(p.last_action, "Ready");
    assert_eq!(p.value_type, ScanValueType::I32);
    assert!(p.saved.is_empty());
    assert_eq!(p.saved_address_sort, 0);
}

#[test]
fn sorting_alternates_and_keeps_ties_stable() {
    let mut a = app();
    a.memory_panel.saved = vec![row(0x30, "a"), row(0x10, "b"), row(0x20, "c"), row(0x10, "d")];
    a.memory_panel.selected_saved = HashSet::from([1, 2]);
    a.sort_saved_addresses();
    assert_eq!(a.memory_panel.saved_address_sort, 1);
    assert_eq!(descriptions(&a), vec!["b", "d", "c", "a"]);
    assert_eq!(selected(&a), vec![0, 2]);
    assert_eq!(a.memory_panel.saved_selection_anchor, Some(0));
    a.sort_saved_addresses();
    assert_eq!(a.memory_panel.saved_address_sort, 2);
    assert_eq!(descriptions(&a), vec!["a", "c", "d", "b"]);
    assert_eq!(selected(&a), vec![1, 3]);
    assert_eq!(a.memory_panel.saved_selection_anchor, Some(1));
}

#[test]
fn sorting_without_selection_has_no_anchor() {
    let mut a = app();
    a.memory_panel.saved = vec![row(2, "x"), row(1, "y")];
    a.memory_panel.saved_selection_anchor = Some(1);
    a.sort_saved_addresses();
    assert_eq!(descriptions(&a), vec!["y", "x"]);
    assert_eq!(a.memory_panel.saved_selection_anchor, None);
}

#[test]
fn grouping_moves_rows_before_the_first_listed() {
    let mut a = app();
    a.memory_panel.saved = vec![row(1, "a"), row(2, "b"), row(3, "c"), row(4, "d"), row(5, "e")];
    a.add_saved_addresses_to_group(&[3, 1], "Enemies", None);
    assert_eq!(descriptions(&a), vec!["a", "b", "d", "c", "e"]);
    let groups: Vec<String> = a.memory_panel.saved.iter().map(|r| r.group.clone()).collect();
    assert_eq!(groups, vec!["", "Enemies", "Enemies", "", ""]);
    assert_eq!(selected(&a), vec![1, 2]);
    assert_eq!(a.memory_panel.saved_selection_anchor, Some(1));
}

#[test]
fn grouping_with_no_rows_listed_selects_nothing_at_the_end() {
    let mut a = app();
    a.memory_panel.saved = vec![row(1, "a"), row(2, "b")];
    a.add_saved_addresses_to_group(&[], "G", None);
    assert_eq!(descriptions(&a), vec!["a", "b"]);
    assert!(a.memory_panel.selected_saved.is_empty());
    assert_eq!(a.memory_panel.saved_selection_anchor, Some(2));
}

#[test]
fn deleting_selected_rows_keeps_the_others_in_order() {
    let mut a = app();
    a.memory_panel.saved = vec![row(1, "a"), row(2, "b"), row(3, "c"), row(4, "d")];
    a.memory_panel.selected_saved = HashSet::from([0, 2, 9]);
    a.memory_panel.edit_value_index = Some(1);
    a.memory_panel.edit_value_open = true;
    a.delete_selected_saved_memory(None);
    assert_eq!(descriptions(&a), vec!["b", "d"]);
    assert!(a.memory_panel.selected_saved.is_empty());
    assert_eq!(a.memory_panel.edit_value_index, None);
    assert!(!a.memory_panel.edit_value_open);
}

#[test]
fn deleting_unselected_rows_selects_all_that_remain() {
    let mut a = app();
    a.memory_panel.saved = vec![row(1, "a"), row(2, "b"), row(3, "c")];
    a.memory_panel.selected_saved = HashSet::from([2, 0]);
    a.delete_unselected_saved_memory(None);
    assert_eq!(descriptions(&a), vec!["a", "c"]);
    assert_eq!(selected(&a), vec![0, 1]);
    assert_eq!(a.memory_panel.saved_selection_anchor, Some(0));

    let mut b = app();
    b.memory_panel.saved = vec![row(1, "a")];
    b.delete_unselected_saved_memory(None);
    assert!(b.memory_panel.saved.is_empty());
    assert_eq!(b.memory_panel.saved_selection_anchor, None);
}

#[test]
fn selection_follows_rows_after_a_delete() {
    let mut a = app();
    a.memory_panel.selected_saved = HashSet::from([0, 2, 3, 7]);
    a.reindex_saved_selection_after_delete(2);
    assert_eq!(selected(&a), vec![0, 2, 6]);
}

#[test]
fn frozen_rows_become_freeze_targets() {
    let mut a = app();
    a.memory_panel.process_pid = Some(42);
    let mut frozen = row(0x100, "hp");
    frozen.frozen = Some(ScanValue::I32(99));
    frozen.pointer = Some(PointerSpec { base: 0, module: Some(("game.exe".to_owned(), 0x10)), offsets: vec![8] });
    a.memory_panel.saved = vec![row(0x50, "free"), frozen];
    a.sync_memory_freeze_targets();
    assert_eq!(a.memory_panel.freeze_pid, Some(42));
    assert!(a.memory_panel.freeze_worker_started);
    assert_eq!(a.memory_panel.freeze_targets.len(), 1);
    assert_eq!(a.memory_panel.freeze_targets[0].address, 0x100);
    assert_eq!(a.memory_panel.freeze_targets[0].value, ScanValue::I32(99));
    let p = a.memory_panel.freeze_targets[0].pointer.as_ref().unwrap();
    assert_eq!(p.module.as_ref().unwrap().0, "game.exe");
    assert_eq!(p.offsets, vec![8]);

    a.memory_panel.saved[1].frozen = None;
    a.sync_memory_freeze_targets();
    assert_eq!(a.memory_panel.freeze_pid, None);
    assert!(a.memory_panel.freeze_targets.is_empty());
    assert!(a.memory_panel.freeze_worker_started);
}

fn library_entry(module: &str, offset: usize, offsets: Vec<usize>, name: &str) -> MemoryPointerEntry {
    MemoryPointerEntry {
        name: name.to_owned(),
        group: String::new(),
        hexadecimal: false,
        app_name: String::new(),
        module: module.to_owned(),
        module_offset: offset,
        offsets,
        value_type: "i32".to_owned(),
        absolute_address: None,
        code_module: String::new(),
        code_offset: 0,
        code_address_offset: 0,
        runtime_address: None,
        runtime_process_id: None,
        tracked_value: String::new(),
        tracked_signature: String::new(),
    }
}

#[test]
fn library_rows_replace_entries_for_the_same_pointer() {
    let mut a = app();
    a.memory_panel.process_pid = Some(7);
    a.state.memory_pointer_list = vec![library_entry("GAME.EXE", 0x10, vec![8], "old")];
    let mut pointed = row(0x1234, "health");
    pointed.saved_to_library = true;
    pointed.value_type = ScanValueType::F32;
    pointed.pointer = Some(PointerSpec { base: 0, module: Some(("game.exe".to_owned(), 0x10)), offsets: vec![8] });
    let mut absolute = row(0x5000, "ammo");
    absolute.saved_to_library = true;
    let not_kept = row(0x6000, "skip");
    a.memory_panel.saved = vec![pointed, absolute, not_kept];
    a.persist_memory_pointers(Some("launcher.exe".to_owned()));
    let list = &a.state.memory_pointer_list;
    assert_eq!(list.len(), 2);
    assert_eq!(list[0].name, "health");
    assert_eq!(list[0].module, "game.exe");
    assert_eq!(list[0].app_name, "game.exe");
    assert_eq!(list[0].value_type, "f32");
    assert_eq!(list[0].absolute_address, None);
    assert_eq!(list[1].name, "ammo");
    assert_eq!(list[1].module, "");
    assert_eq!(list[1].app_name, "launcher.exe");
    assert_eq!(list[1].absolute_address, Some(0x5000));

    a.persist_memory_pointers(Some("launcher.exe".to_owned()));
    assert_eq!(a.state.memory_pointer_list.len(), 2);
}

#[test]
fn library_rows_without_process_are_of_unknown_application() {
    let mut a = app();
    let mut absolute = row(0x5000, "ammo");
    absolute.saved_to_library = true;
    a.memory_panel.saved = vec![absolute];
    a.persist_memory_pointers(Some("ignored.exe".to_owned()));
    assert_eq!(a.state.memory_pointer_list[0].app_name, "Unknown application");
}

#[test]
fn hotkeys_are_stored_by_key_and_read_back() {
    let stored = vec![
        ("unknown".to_owned(), HotkeyBinding { label: "F6".to_owned() }),
        ("nope".to_owned(), HotkeyBinding { label: "F1".to_owned() }),
        ("first_scan".to_owned(), HotkeyBinding { label: "F5".to_owned() }),
        ("unknown".to_owned(), HotkeyBinding { label: "F7".to_owned() }),
    ];
    let panel = MemoryPanelState::with_hotkeys(&stored, &[]);
    assert_eq!(panel.hotkeys.len(), 2);
    let mut a = app();
    a.memory_panel = panel;
    a.memory_panel.capturing_hotkey = Some(MemoryScanAction::Between);
    a.capture_hotkey_combo_keys = Some("Ctrl".to_owned());
    a.capture_hotkey_combo_vks = vec![17];
    a.finish_memory_hotkey_capture(MemoryScanAction::Between, HotkeyBinding { label: "Ctrl+B".to_owned() });
    assert_eq!(a.memory_panel.capturing_hotkey, None);
    assert_eq!(a.capture_hotkey_combo_keys, None);
    assert!(a.capture_hotkey_combo_vks.is_empty());
    let written: Vec<(String, String)> = a
        .state
        .memory_scan_hotkeys
        .iter()
        .map(|(k, b)| (k.clone(), b.label.clone()))
        .collect();
    assert_eq!(
        written,
        vec![
            ("between".to_owned(), "Ctrl+B".to_owned()),
            ("first_scan".to_owned(), "F5".to_owned()),
            ("unknown".to_owned(), "F7".to_owned()),
        ]
    );
    let reread = MemoryPanelState::with_hotkeys(&a.state.memory_scan_hotkeys, &[]);
    let mut pairs: Vec<(String, String)> = reread
        .hotkeys
        .iter()
        .map(|(action, b)| (action.config_key().to_owned(), b.label.clone()))
        .collect();
    pairs.sort();
    assert_eq!(pairs, written);
}

#[test]
fn capturing_a_hotkey_again_replaces_the_binding() {
    let mut a = app();
    a.finish_memory_hotkey_capture(MemoryScanAction::Exact, HotkeyBinding { label: "F1".to_owned() });
    a.finish_memory_hotkey_capture(MemoryScanAction::Exact, HotkeyBinding { label: "F2".to_owned() });
    assert_eq!(a.memory_panel.hotkeys.len(), 1);
    assert_eq!(a.state.memory_scan_hotkeys.len(), 1);
    assert_eq!(a.state.memory_scan_hotkeys[0].0, "exact");
    assert_eq!(a.state.memory_scan_hotkeys[0].1.label, "F2");
}

#[test]
fn saved_rows_import_as_dll_entries() {
    let mut plain = row(0x1234, "");
    plain.current = Some(ScanValue::I32(-5));
    let mut text = row(0x20, "hp");
    text.current_text = Some("abc".to_owned());
    let mut chained = row(0x30, "speed");
    chained.value_type = ScanValueType::F32;
    chained.current = Some(ScanValue::F32(1.5f32.to_bits()));
    chained.pointer = Some(PointerSpec { base: 0x1000, module: None, offsets: vec![4, 8] });
    let empty = row(0xABC, "");
    let saved = vec![plain, text, chained, empty];
    let float_texts = vec![String::new(), String::new(), "1.5".to_owned(), String::new()];
    let mut entries = vec![DllMemoryEntry {
        enabled: false,
        name: "kept".to_owned(),
        address: "0x1".to_owned(),
        offsets: Vec::new(),
        value_type: DllValueType::Int32,
        value_to_write: "1".to_owned(),
        mode: DllPatchMode::WriteOnce,
        hotkey_vk: None,
    }];
    let status = import_saved_addresses(&saved, &float_texts, &mut entries);
    assert_eq!(status, "Imported 4 addresses from saved list!");
    assert_eq!(entries.len(), 5);
    assert_eq!(entries[0].name, "kept");
    let names: Vec<&str> = entries[1..].iter().map(|e| e.name.as_str()).collect();
    assert_eq!(names, vec!["RAM_0x1234", "hp", "speed", "RAM_0xABC"]);
    let addresses: Vec<&str> = entries[1..].iter().map(|e| e.address.as_str()).collect();
    assert_eq!(addresses, vec!["0x1234", "0x20", "0x30", "0xABC"]);
    let values: Vec<&str> = entries[1..].iter().map(|e| e.value_to_write.as_str()).collect();
    assert_eq!(values, vec!["-5", "abc", "1.5", "0"]);
    assert_eq!(entries[3].offsets, vec![4, 8]);
    assert!(entries[1].offsets.is_empty());
    assert!(entries[1..].iter().all(|e| e.enabled
        && e.value_type == DllValueType::Float
        && e.mode == DllPatchMode::HotkeyToggle
        && e.hotkey_vk == Some(0x70)));
}
