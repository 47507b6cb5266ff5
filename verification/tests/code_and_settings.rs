use memory_panel::code_list::{code_row_action_label, code_row_instruction_text};
use memory_panel::panel::{AppState, CrosshairApp, MemoryPanelState};
use memory_panel::library::MemoryCodeEntry;

fn app() -> CrosshairApp {
    CrosshairApp {
        memory_panel: MemoryPanelState::default(),
        state: AppState {
            memory_pointer_scan_offset: String::new(),
            memory_pointer_scan_depth: 5,
            memory_pointer_scan_result_limit: 1000,
            memory_pointer_scan_memory_mb: 1024,
            memory_scan_hotkeys: Vec::new(),
            memory_pointer_list: Vec::new(),
            memory_code_list: Vec::new(),
            memory_camera_x: String::new(),
            memory_camera_y: String::new(),
            memory_camera_z: String::new(),
            memory_camera_viewport_width: "1920".to_owned(),
            memory_camera_viewport_height: "1080".to_owned(),
        },
        capture_hotkey_combo_keys: None,
        capture_hotkey_combo_vks: Vec::new(),
    }
}

#[test]
fn instruction_bytes_come_from_the_first_listing_line() {
    let details = "Instruction details\r\n0x7FF6AB10 << 48 8B 05 10 mov rax\r\n0x7FF6AB14 90 90\n";
    assert_eq!(CrosshairApp::extract_aob_bytes_from_details(details), "48 8B 05 10");
    assert_eq!(CrosshairApp::extract_aob_bytes_from_details("0x10 zz 4A 4B"), "4A 4B");
    assert_eq!(CrosshairApp::extract_aob_bytes_from_details("0x10 4A 123 4B"), "4A");
    assert_eq!(CrosshairApp::extract_aob_bytes_from_details("0x10 mov eax"), "");
    assert_eq!(CrosshairApp::extract_aob_bytes_from_details("addr 4A 4B << x"), "");
    assert_eq!(CrosshairApp::extract_aob_bytes_from_details(""), "");
    assert_eq!(CrosshairApp::extract_aob_bytes_from_details("0x1 no\n0x2 +F ab"), "+F ab");
}

#[test]
fn instructions_are_added_to_the_code_list_once() {
    let mut a = app();
    a.add_instruction_to_code_list(0x1000, "mov [rcx], eax", false, Ok(("game.exe".to_owned(), 0x1000)), None);
    assert!(a.state.memory_code_list.is_empty());
    a.memory_panel.process_pid = Some(4);
    a.add_instruction_to_code_list(0x1000, "mov [rcx], eax", false, Err("no module".to_owned()), None);
    assert_eq!(a.memory_panel.status, "Instruction is not inside a loaded module");
    a.add_instruction_to_code_list(0x1000, "mov [rcx], eax", false, Ok(("game.exe".to_owned(), 0x1000)), Some(true));
    assert_eq!(a.state.memory_code_list.len(), 1);
    let e: &MemoryCodeEntry = &a.state.memory_code_list[0];
    assert_eq!(e.name, "mov [rcx], eax");
    assert_eq!(e.module, "game.exe");
    assert_eq!(e.offset, 0x1000);
    assert!(e.writes);
    assert!(!e.replaced && e.original_bytes.is_none());
    assert!(a.memory_panel.code_list_open);
    assert_eq!(a.memory_panel.status, "Instruction added to code list");
    a.add_instruction_to_code_list(0x1000, "other", false, Ok(("GAME.EXE".to_owned(), 0x1000)), None);
    assert_eq!(a.state.memory_code_list.len(), 1);
    assert_eq!(a.memory_panel.status, "Instruction is already in the code list");
    a.add_instruction_to_code_list(0x1004, "nop", false, Ok(("game.exe".to_owned(), 0x1004)), None);
    assert!(!a.state.memory_code_list[1].writes);
}

#[test]
fn pointer_scan_limits_are_clamped() {
    let mut a = app();
    a.state.memory_pointer_scan_offset = " 0x0x800 ".to_owned();
    a.state.memory_pointer_scan_depth = 12;
    a.state.memory_pointer_scan_result_limit = 10;
    a.state.memory_pointer_scan_memory_mb = 100;
    let l = a.pointer_scan_limits(0x1000, 50_000);
    assert_eq!(l.max_offset, 0x800);
    assert_eq!(l.max_depth, 8);
    assert_eq!(l.result_limit, 64);
    assert_eq!(l.max_bytes, 256 * 1024 * 1024);

    a.state.memory_pointer_scan_offset = "not hex".to_owned();
    a.state.memory_pointer_scan_depth = 1;
    a.state.memory_pointer_scan_result_limit = 90_000;
    a.state.memory_pointer_scan_memory_mb = 9000;
    let l = a.pointer_scan_limits(0x1000, 50_000);
    assert_eq!(l.max_offset, 0x1000);
    assert_eq!(l.max_depth, 3);
    assert_eq!(l.result_limit, 50_000);
    assert_eq!(l.max_bytes, (4096usize).saturating_mul(1024 * 1024));

    a.state.memory_pointer_scan_offset = "FFFFFF".to_owned();
    assert_eq!(a.pointer_scan_limits(0x1000, 64).max_offset, 0x10000);
    a.state.memory_pointer_scan_offset = "0X10".to_owned();
    assert_eq!(a.pointer_scan_limits(0x1000, 64).max_offset, 0x100);
}

fn listed(name: &str, instruction: &str, writes: bool, replaced: bool) -> MemoryCodeEntry {
    MemoryCodeEntry {
        name: name.to_owned(),
        module: "game.exe".to_owned(),
        offset: 0x40,
        instruction: instruction.to_owned(),
        writes,
        original_bytes: None,
        replaced,
    }
}

#[test]
fn code_rows_show_name_instruction_and_action() {
    let e = listed("speed", "mov [rax], ecx", true, false);
    assert_eq!(code_row_instruction_text(&e), "speed: mov [rax], ecx");
    assert_eq!(code_row_action_label(&e), "Find written");
    let e = listed("mov [rax], ecx", "mov [rax], ecx", false, false);
    assert_eq!(code_row_instruction_text(&e), "mov [rax], ecx");
    assert_eq!(code_row_action_label(&e), "Find accessed");
    let e = listed("", "inc eax", false, false);
    assert_eq!(code_row_instruction_text(&e), "inc eax");
    let e = listed("speed", "mov [rax], ecx", true, true);
    assert_eq!(code_row_instruction_text(&e), "speed (Replaced: NOP)");
    assert_eq!(code_row_action_label(&e), "NOP Active");
}

#[test]
fn code_write_flags_follow_what_was_read() {
    let mut a = app();
    a.state.memory_code_list = vec![listed("a", "x", true, false), listed("b", "y", false, false), listed("c", "z", false, false)];
    assert!(!a.correct_code_writes(&vec![Some(true), None, Some(false)]));
    assert!(a.correct_code_writes(&vec![None, Some(true), None]));
    let flags: Vec<bool> = a.state.memory_code_list.iter().map(|e| e.writes).collect();
    assert_eq!(flags, vec![true, true, false]);
}

#[test]
fn code_entries_are_renamed_removed_and_replaced_in_order() {
    let mut a = app();
    a.state.memory_code_list = vec![listed("a", "x", true, true), listed("b", "y", false, false), listed("c", "z", false, false)];
    a.begin_code_rename(7);
    assert_eq!(a.memory_panel.edit_code_name_index, None);
    a.begin_code_rename(1);
    assert_eq!(a.memory_panel.edit_code_name_index, Some(1));
    assert_eq!(a.memory_panel.edit_code_name_input, "b");
    a.memory_panel.edit_code_name_input = "  camera_write ".to_owned();
    assert!(a.save_code_rename());
    assert_eq!(a.state.memory_code_list[1].name, "camera_write");
    assert_eq!(a.memory_panel.edit_code_name_index, None);
    assert!(!a.save_code_rename());
    assert_eq!(a.code_entries_to_replace(), vec![1, 2]);
    a.remove_code_entry(0);
    let names: Vec<&str> = a.state.memory_code_list.iter().map(|e| e.name.as_str()).collect();
    assert_eq!(names, vec!["camera_write", "c"]);
}
