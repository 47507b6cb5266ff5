use std::collections::HashSet;

use memory_panel::code_access::CodeAccessDialog;
use memory_panel::memory_view::StructureClass;
use memory_panel::panel::{AppState, CrosshairApp, MemoryPanelState};
use memory_panel::probe::StructureIdentity;
use memory_panel::saved::SavedMemoryAddress;
use memory_panel::saved_commands::saved_memory_view;
use memory_panel::scan::{ScanValue, ScanValueType};

fn app() -> CrosshairApp {
    CrosshairApp {
        memory_panel: MemoryPanelState::default(),
        state: AppState {
            memory_pointer_scan_offset: String::new(),
            memory_pointer_scan_depth: 5,
            memory_pointer_scan_result_limit: 1000,
            memory_pointer_scan_memory_mb: 1024,
            memory_scan_hotkeys: Vec::new(),
            memory_pointer_list: Vec::new(),
            memory_code_list: Vec::new(),
            memory_camera_x: String::new(),
            memory_camera_y: String::new(),
            memory_camera_z: String::new(),
            memory_camera_viewport_width: "1920".to_owned(),
            memory_camera_viewport_height: "1080".to_owned(),
        },
        capture_hotkey_combo_keys: None,
        capture_hotkey_combo_vks: Vec::new(),
    }
}

fn row(address: usize) -> SavedMemoryAddress {
    SavedMemoryAddress {
        address,
        value_type: ScanValueType::I32,
        current: Some(ScanValue::I32(1)),
        text_encoding: None,
        text_byte_len: 0,
        current_text: None,
        description: "r".to_owned(),
        group: String::new(),
        hexadecimal: false,
        pointer: None,
        frozen: Some(ScanValue::I32(1)),
        saved_to_library: false,
    }
}

#[test]
fn selecting_another_process_drops_what_was_read() {
    let mut a = app();
    a.memory_panel.process_pid = Some(4);
    a.memory_panel.saved = vec![row(0x10), row(0x20)];
    a.memory_panel.selected_saved = HashSet::from([1]);
    a.memory_panel.edit_value_index = Some(0);
    a.select_memory_process(Some(4));
    assert_eq!(a.memory_panel.status, "Process selected \u{2014} PID 4");
    assert_eq!(a.memory_panel.saved[0].current, Some(ScanValue::I32(1)));
    assert_eq!(a.memory_panel.selected_saved.len(), 1);
    a.select_memory_process(Some(7));
    assert_eq!(a.memory_panel.process_pid, Some(7));
    assert_eq!(a.memory_panel.status, "Process selected \u{2014} PID 7");
    assert_eq!(a.memory_panel.last_action, "Process changed");
    assert!(a.memory_panel.saved.iter().all(|r| r.current.is_none() && r.frozen.is_none()));
    assert_eq!(a.memory_panel.saved.len(), 2);
    assert!(a.memory_panel.selected_saved.is_empty());
    assert_eq!(a.memory_panel.edit_value_index, None);
    a.select_memory_process(None);
    assert_eq!(a.memory_panel.status, "Unable to open selected process");
}

#[test]
fn identifying_a_class_names_and_moves_the_view() {
    let mut v = saved_memory_view(0x1010, None, true);
    v.identify_structure_class(false, None);
    assert_eq!(v.class_detection_status, "Select a process to identify this class");
    v.identify_structure_class(true, None);
    assert_eq!(v.classes[0].name, "Unknown @ 00001010");
    assert_eq!(v.class_detection_status, "No usable RTTI or vtable was found; field names must be mapped manually");
    v.classes[0].name = "Player".to_owned();
    v.identify_structure_class(true, None);
    assert_eq!(v.classes[0].name, "Player");
    v.elements.truncate(3);
    let id = StructureIdentity { name: "CPlayer".to_owned(), address: 0x1000, evidence: "RTTI".to_owned() };
    v.identify_structure_class(true, Some(id));
    assert_eq!(v.address, 0x1000);
    assert_eq!(v.classes[0].name, "CPlayer");
    assert_eq!(v.classes[0].address, 0x1000);
    assert_eq!(v.elements.len(), 128);
    assert_eq!(v.class_detection_status, "RTTI");
    v.classes.push(StructureClass { name: "Other".to_owned(), address: 0, elements: Vec::new() });
    v.elements.truncate(2);
    let id = StructureIdentity { name: "Same".to_owned(), address: 0x1000, evidence: "vtable".to_owned() };
    v.identify_structure_class(true, Some(id));
    assert_eq!(v.elements.len(), 2);
    assert_eq!(v.classes[1].name, "Other");
}

#[test]
fn tracking_a_field_measures_it_from_the_captured_address() {
    let mut a = app();
    a.apply_tracked_field(None, 0x1010);
    assert_eq!(a.memory_panel.status, "Open Find written before tracking a field");
    let mut d = CodeAccessDialog::opened(0, 0x401000, "ok".to_owned(), ScanValueType::I32);
    d.addresses = vec![(0x1000, 2)];
    a.show_code_access_dialog(d);
    a.apply_tracked_field(None, 0x1010);
    assert_eq!(a.memory_panel.code_access_dialog.as_ref().unwrap().status, "Select a captured address before tracking a field");
    a.memory_panel.code_access_dialog.as_mut().unwrap().selected = Some(0);
    a.apply_tracked_field(None, 0x1010);
    {
        let d = a.memory_panel.code_access_dialog.as_ref().unwrap();
        assert_eq!(d.tracked_offset, "10");
        assert_eq!(d.status, "Tracked field 0x00001010 = captured 0x00001000 +0x10; enter a name, then Save tracked");
        assert!(!d.save_tracked);
    }
    a.memory_panel.code_access_dialog.as_mut().unwrap().tracked_name = "pitch".to_owned();
    a.apply_tracked_field(Some(0x1020), 0x1008);
    let d = a.memory_panel.code_access_dialog.as_ref().unwrap();
    assert_eq!(d.tracked_offset, "-18");
    assert_eq!(d.status, format!("Tracked field 0x00001008 = captured 0x00001020 {:+#X}", 0x1008i128 - 0x1020i128));
    assert!(d.save_tracked);
}

#[test]
fn a_structure_field_is_added_once() {
    let mut a = app();
    a.add_structure_address(0x40, ScanValueType::I64, Some(ScanValue::I64(5)));
    assert_eq!(a.memory_panel.saved.len(), 1);
    assert_eq!(a.memory_panel.saved[0].current, Some(ScanValue::I64(5)));
    assert_eq!(a.memory_panel.status, "Address 0x00000040 added");
    a.memory_panel.status = String::new();
    a.add_structure_address(0x40, ScanValueType::I64, None);
    assert_eq!(a.memory_panel.saved.len(), 1);
    assert_eq!(a.memory_panel.status, "");
    a.add_structure_address(0x40, ScanValueType::I32, None);
    assert_eq!(a.memory_panel.saved.len(), 2);
}
