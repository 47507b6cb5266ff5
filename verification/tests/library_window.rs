use memory_panel::library::MemoryPointerEntry;
use memory_panel::library_view::library_entry_address_text;
use memory_panel::panel::{AppState, CrosshairApp, MemoryPanelState};
use memory_panel::scan::{ScanValue, ScanValueType};

fn app() -> CrosshairApp {
    CrosshairApp {
        memory_panel: MemoryPanelState::default(),
        state: AppState {
            memory_pointer_scan_offset: String::new(),
            memory_pointer_scan_depth: 5,
            memory_pointer_scan_result_limit: 1000,
            memory_pointer_scan_memory_mb: 1024,
            memory_scan_hotkeys: Vec::new(),
            memory_pointer_list: Vec::new(),
            memory_code_list: Vec::new(),
            memory_camera_x: String::new(),
            memory_camera_y: String::new(),
            memory_camera_z: String::new(),
            memory_camera_viewport_width: "1920".to_owned(),
            memory_camera_viewport_height: "1080".to_owned(),
        },
        capture_hotkey_combo_keys: None,
        capture_hotkey_combo_vks: Vec::new(),
    }
}

fn entry(app_name: &str, module: &str, name: &str) -> MemoryPointerEntry {
    MemoryPointerEntry {
        name: name.to_owned(),
        group: "team".to_owned(),
        hexadecimal: true,
        app_name: app_name.to_owned(),
        module: module.to_owned(),
        module_offset: 0x40,
        offsets: vec![0x8, 0x10],
        value_type: "i32".to_owned(),
        absolute_address: None,
        code_module: String::new(),
        code_offset: 0,
        code_address_offset: 0,
        runtime_address: None,
        runtime_process_id: None,
        tracked_value: String::new(),
        tracked_signature: String::new(),
    }
}

#[test]
fn library_groups_entries_by_application_without_case() {
    let mut a = app();
    a.state.memory_pointer_list = vec![
        entry("Zeta", "z.exe", "a"),
        entry("", "game.exe", "b"),
        entry("alpha", "a.exe", "c"),
        entry("GAME.EXE", "other.dll", "d"),
        entry("Alpha", "a.exe", "e"),
    ];
    assert_eq!(a.library_apps(), vec!["alpha".to_owned(), "game.exe".to_owned(), "Zeta".to_owned()]);
    a.state.memory_pointer_list.clear();
    assert!(a.library_apps().is_empty());
}

#[test]
fn library_entries_read_by_pointer_code_or_address() {
    let e = entry("", "game.exe", "hp");
    assert_eq!(library_entry_address_text(&e), "game.exe+40 [8 \u{2192} 10]");
    let mut e = entry("", "", "hp");
    e.code_module = "engine.dll".to_owned();
    e.code_offset = 0x1A;
    e.code_address_offset = 0x10;
    assert_eq!(library_entry_address_text(&e), "engine.dll+1A @ +10");
    e.code_address_offset = -16;
    assert_eq!(library_entry_address_text(&e), format!("engine.dll+1A @ {:+X}", -16isize));
    let mut e = entry("", "", "hp");
    assert_eq!(library_entry_address_text(&e), "Invalid address");
    e.absolute_address = Some(0x1234);
    assert_eq!(library_entry_address_text(&e), "0x00001234");
}

#[test]
fn loading_a_library_entry_adds_a_row() {
    let mut a = app();
    a.memory_panel.process_pid = Some(9);
    let mut code = entry("", "", "speed");
    code.code_module = "engine.dll".to_owned();
    code.code_offset = 0x2B;
    let mut plain = entry("", "", "ammo");
    plain.absolute_address = Some(0x500);
    plain.runtime_address = Some(0x900);
    plain.runtime_process_id = Some(3);
    let mut odd = entry("", "", "odd");
    odd.value_type = "u128".to_owned();
    a.state.memory_pointer_list = vec![entry("", "game.exe", "hp"), code, plain, odd];
    assert!(a.library_load_plan(7).is_none());
    assert!(a.library_load_plan(3).is_none());
    assert!(a.library_load_plan(1).is_none());
    assert_eq!(a.memory_panel.status, "speed is unresolved \u{e2}\u{20ac}\u{201d} run Find written for engine.dll+2B");
    let plan = a.library_load_plan(2).unwrap();
    assert_eq!(plan.address, 0x500);
    assert!(plan.pointer.is_none());
    a.finish_library_load(plan, None, None, Some(ScanValue::I32(4)));
    assert_eq!(a.memory_panel.saved[0].address, 0x500);
    assert_eq!(a.memory_panel.saved[0].current, Some(ScanValue::I32(4)));
    assert_eq!(a.memory_panel.status, "Saved address loaded");
    let plan = a.library_load_plan(0).unwrap();
    assert_eq!(plan.value_type, ScanValueType::I32);
    assert_eq!(plan.pointer.as_ref().unwrap().base, 0);
    a.finish_library_load(plan, Some(0x4000), Some(0x7777), None);
    let row = &a.memory_panel.saved[1];
    assert_eq!(row.address, 0x7777);
    assert_eq!(row.description, "hp");
    assert_eq!(row.group, "team");
    assert!(row.hexadecimal);
    assert_eq!(row.pointer.as_ref().unwrap().base, 0x4000);
    a.delete_library_entry(1);
    assert_eq!(a.state.memory_pointer_list.len(), 3);
    assert_eq!(a.state.memory_pointer_list[1].name, "ammo");
}
