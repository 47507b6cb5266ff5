use memory_panel::code_access::{
    instruction_watch_dialog, record_code_watch_start, tracked_code_target, value_text, CodeAccessDialog, CodeAnchor,
    TrackedTarget, ValueRead,
};
use memory_panel::code_patch::nop_bytes;
use memory_panel::library::{MemoryCodeEntry, MemoryPointerEntry};
use memory_panel::panel::{AppState, CrosshairApp, MemoryPanelState};
use memory_panel::pointer::PointerSpec;
use memory_panel::refresh::{SavedRowRead, WriteCheckRead};
use memory_panel::saved::{PendingWriteCheck, SavedMemoryAddress, ScanCandidate, TextEncoding};
use memory_panel::scan::{ScanValue, ScanValueType};

fn app() -> CrosshairApp {
    CrosshairApp {
        memory_panel: MemoryPanelState::default(),
        state: AppState {
            memory_pointer_scan_offset: String::new(),
            memory_pointer_scan_depth: 5,
            memory_pointer_scan_result_limit: 1000,
            memory_pointer_scan_memory_mb: 1024,
            memory_scan_hotkeys: Vec::new(),
            memory_pointer_list: Vec::new(),
            memory_code_list: Vec::new(),
            memory_camera_x: String::new(),
            memory_camera_y: String::new(),
            memory_camera_z: String::new(),
            memory_camera_viewport_width: "1920".to_owned(),
            memory_camera_viewport_height: "1080".to_owned(),
        },
        capture_hotkey_combo_keys: None,
        capture_hotkey_combo_vks: Vec::new(),
    }
}

fn code_entry(name: &str) -> MemoryCodeEntry {
    MemoryCodeEntry {
        name: name.to_owned(),
        module: "game.exe".to_owned(),
        offset: 0x1234,
        instruction: "mov [rcx+10], eax".to_owned(),
        writes: true,
        original_bytes: None,
        replaced: false,
    }
}

fn row(address: usize) -> SavedMemoryAddress {
    SavedMemoryAddress {
        address,
        value_type: ScanValueType::I32,
        current: None,
        text_encoding: None,
        text_byte_len: 0,
        current_text: None,
        description: String::new(),
        group: String::new(),
        hexadecimal: false,
        pointer: None,
        frozen: None,
        saved_to_library: false,
    }
}

fn check(address: usize, expected: i32) -> PendingWriteCheck {
    PendingWriteCheck { address, value_type: ScanValueType::I32, expected: ScanValue::I32(expected) }
}

#[test]
fn write_checks_report_overwritten_values() {
    let mut a = app();
    a.memory_panel.process_pid = Some(7);
    a.memory_panel.pending_write_checks = vec![check(0x10, 5), check(0x20, 6), check(0x30, 7)];
    a.memory_panel.settle_write_checks(&[
        WriteCheckRead::Observed(ScanValue::I32(5)),
        WriteCheckRead::Observed(ScanValue::I32(1)),
        WriteCheckRead::NotDue,
    ]);
    assert_eq!(a.memory_panel.pending_write_checks.len(), 1);
    assert_eq!(a.memory_panel.pending_write_checks[0].address, 0x30);
    assert_eq!(
        a.memory_panel.status,
        "Game overwrote 1 value(s) shortly after the write; freeze or find the authoritative address"
    );
}

#[test]
fn write_checks_confirm_once_all_are_settled() {
    let mut a = app();
    a.memory_panel.process_pid = Some(7);
    a.memory_panel.pending_write_checks = vec![check(0x10, 5), check(0x20, 6)];
    a.memory_panel.settle_write_checks(&[WriteCheckRead::Observed(ScanValue::I32(5)), WriteCheckRead::Observed(ScanValue::I32(6))]);
    assert!(a.memory_panel.pending_write_checks.is_empty());
    assert_eq!(
        a.memory_panel.status,
        "Write persisted at 2 address(es); if the game did not react, these are mirrored/render values"
    );

    a.memory_panel.pending_write_checks = vec![check(0x10, 5), check(0x20, 6)];
    a.memory_panel.settle_write_checks(&[WriteCheckRead::Observed(ScanValue::I32(5)), WriteCheckRead::Unreadable]);
    assert_eq!(a.memory_panel.status, "Write verified at 1 address(es), 1 unreadable");
}

#[test]
fn write_checks_wait_while_some_are_pending_or_without_process() {
    let mut a = app();
    a.memory_panel.process_pid = Some(7);
    a.memory_panel.status = "Ready".to_owned();
    a.memory_panel.pending_write_checks = vec![check(0x10, 5), check(0x20, 6)];
    a.memory_panel.settle_write_checks(&[WriteCheckRead::Observed(ScanValue::I32(5)), WriteCheckRead::NotDue]);
    assert_eq!(a.memory_panel.status, "Ready");
    assert_eq!(a.memory_panel.pending_write_checks.len(), 1);

    a.memory_panel.process_pid = None;
    a.memory_panel.settle_write_checks(&[WriteCheckRead::Observed(ScanValue::I32(1))]);
    assert_eq!(a.memory_panel.pending_write_checks.len(), 1);
}

#[test]
fn live_values_cover_the_drawn_rows() {
    let mut a = app();
    a.memory_panel.candidates = (0..5).map(|i| ScanCandidate { address: 0x100 + i, value: ScanValue::I32(0) }).collect();
    a.memory_panel.visible_scan_ranges = [Some((2, 9)), Some((5, 6))];
    assert_eq!(a.memory_panel.live_refresh_range(0), Some((2, 5)));
    assert_eq!(a.memory_panel.live_refresh_range(1), None);
    a.memory_panel.store_live_values(2, &[ScanValue::I32(8), ScanValue::I32(9)]);
    assert_eq!(a.memory_panel.live_candidate_values.get(&3), Some(&ScanValue::I32(9)));
    assert_eq!(a.memory_panel.live_candidate_values.len(), 2);
}

#[test]
fn saved_rows_follow_their_pointers_and_take_reads() {
    let mut a = app();
    a.memory_panel.process_pid = Some(1);
    let mut pointed = row(0x10);
    pointed.pointer = Some(PointerSpec { base: 0x10, module: None, offsets: vec![8] });
    let mut text = row(0x30);
    text.text_encoding = Some(TextEncoding::Utf8);
    text.current = Some(ScanValue::I32(3));
    a.memory_panel.saved = vec![pointed, row(0x20), text];
    a.memory_panel.apply_resolved_saved_addresses(&[Some(0x99), Some(0x77), None]);
    assert_eq!(a.memory_panel.saved[0].address, 0x99);
    assert_eq!(a.memory_panel.saved[1].address, 0x20);
    a.memory_panel.refresh_memory_values(vec![
        SavedRowRead { value: Some(ScanValue::I32(4)), text: None },
        SavedRowRead { value: None, text: None },
        SavedRowRead { value: Some(ScanValue::I32(9)), text: Some("hi".to_owned()) },
    ]);
    assert_eq!(a.memory_panel.saved[0].current, Some(ScanValue::I32(4)));
    assert_eq!(a.memory_panel.saved[2].current, None);
    assert_eq!(a.memory_panel.saved[2].current_text.as_deref(), Some("hi"));
}

fn dialog_with_selection() -> CodeAccessDialog {
    let mut d = CodeAccessDialog::opened(0, 0x400000, "ready".to_owned(), ScanValueType::I32);
    d.addresses = vec![(0x1000, 3), (0x2000, 1)];
    d.selected = Some(1);
    d
}

#[test]
fn tracked_target_applies_signed_offset() {
    let mut d = dialog_with_selection();
    d.tracked_offset = "-10".to_owned();
    match tracked_code_target(&d) {
        TrackedTarget::At { captured, offset, address } => {
            assert_eq!(captured, 0x2000);
            assert_eq!(offset, -0x10);
            assert_eq!(address, 0x1FF0);
        }
        _ => panic!("expected a target"),
    }
    d.tracked_offset = "zz".to_owned();
    assert!(matches!(tracked_code_target(&d), TrackedTarget::InvalidOffset));
    d.selected = None;
    assert!(matches!(tracked_code_target(&d), TrackedTarget::NotSelected));
}

#[test]
fn tracked_address_is_saved_by_name() {
    let mut a = app();
    a.memory_panel.process_pid = Some(4);
    a.state.memory_code_list = vec![code_entry("hp write")];
    a.state.memory_pointer_list = vec![MemoryPointerEntry {
        name: "HEALTH".to_owned(),
        group: String::new(),
        hexadecimal: false,
        app_name: String::new(),
        module: String::new(),
        module_offset: 0,
        offsets: Vec::new(),
        value_type: String::new(),
        absolute_address: None,
        code_module: String::new(),
        code_offset: 0,
        code_address_offset: 0,
        runtime_address: None,
        runtime_process_id: None,
        tracked_value: String::new(),
        tracked_signature: String::new(),
    }];
    let mut d = dialog_with_selection();
    d.tracked_name = "  health ".to_owned();
    d.tracked_offset = "4".to_owned();
    a.save_tracked_code_address(
        &mut d,
        Some("game.exe".to_owned()),
        Some(ValueRead { value: ScanValue::I32(-5), float_text: None }),
        Some("0=game.exe+10".to_owned()),
    );
    assert_eq!(a.state.memory_pointer_list.len(), 1);
    let e = &a.state.memory_pointer_list[0];
    assert_eq!(e.name, "health");
    assert_eq!(e.runtime_address, Some(0x2004));
    assert_eq!(e.code_address_offset, 4);
    assert_eq!(e.tracked_value, "-5");
    assert_eq!(e.tracked_signature, "0=game.exe+10");
    assert_eq!(e.value_type, "i32");
    assert_eq!(a.memory_panel.saved.len(), 1);
    assert_eq!(a.memory_panel.saved[0].address, 0x2004);
    assert_eq!(d.status, "Tracked address @health saved - game.exe+1234 @ +4 (object signature captured)");
}

#[test]
fn tracked_negative_offset_is_written_as_twos_complement() {
    let mut a = app();
    a.memory_panel.process_pid = None;
    a.state.memory_code_list = vec![code_entry("x")];
    let mut d = dialog_with_selection();
    d.tracked_name = "pos".to_owned();
    d.tracked_offset = "-4".to_owned();
    a.save_tracked_code_address(&mut d, None, None, Some("ignored".to_owned()));
    assert_eq!(a.state.memory_pointer_list[0].app_name, "game.exe");
    assert_eq!(a.state.memory_pointer_list[0].tracked_signature, "");
    assert_eq!(
        d.status,
        format!("Tracked address @pos saved - game.exe+1234 @ {:+X} (object signature unavailable)", -4isize)
    );
}

#[test]
fn code_access_values_are_written_per_address() {
    let mut a = app();
    a.memory_panel.process_pid = Some(3);
    let mut d = dialog_with_selection();
    a.refresh_code_access_values(
        &mut d,
        &[Some(ValueRead { value: ScanValue::I32(12), float_text: None }), None],
    );
    assert_eq!(d.values.get(&0x1000).map(String::as_str), Some("12"));
    assert!(!d.values.contains_key(&0x2000));
    a.memory_panel.process_pid = None;
    a.refresh_code_access_values(&mut d, &[None, None]);
    assert_eq!(d.status, "Select the restarted process before refreshing values");
    assert_eq!(value_text(&ValueRead { value: ScanValue::F32(0), float_text: Some("0".to_owned()) }, false), "0");
}

#[test]
fn code_watch_checks_its_anchor() {
    let mut a = app();
    assert!(!a.open_code_access_watch(0, false));
    assert_eq!(a.memory_panel.status, "Select a process");
    a.memory_panel.process_pid = Some(9);
    assert!(!a.open_code_access_watch(0, true));
    assert_eq!(a.memory_panel.status, "VEH debugger requires the injected helper and is not available yet");
    assert!(!a.open_code_access_watch(0, false));
    a.state.memory_code_list = vec![code_entry("w")];
    assert!(a.open_code_access_watch(0, false));

    assert!(matches!(a.check_code_anchor(0, Ok(0x401234), Some("add eax, 1".to_owned()), false), CodeAnchor::Stale));
    {
        let d = a.memory_panel.code_access_dialog.as_ref().unwrap();
        assert_eq!(d.status, "Stale code anchor - expected 'mov [rcx+10], eax', found 'add eax, 1'");
        assert_eq!(d.instruction_address, 0x401234);
        assert_eq!(d.tracked_offset, "0");
    }
    assert!(matches!(a.check_code_anchor(0, Ok(0x401234), None, true), CodeAnchor::Stale));
    assert!(a.memory_panel.code_access_dialog.as_ref().unwrap().status.ends_with("found 'unreadable code'"));
    assert!(matches!(a.check_code_anchor(0, Ok(0x401234), Some("mov".to_owned()), true), CodeAnchor::Ready(0x401234)));
    assert!(matches!(a.check_code_anchor(0, Err("gone".to_owned()), None, true), CodeAnchor::Unresolved));
    assert_eq!(a.memory_panel.status, "Unable to resolve saved code: gone");

    let d = a.code_access_watch_dialog(0, 0x401234, Err("denied".to_owned()));
    assert_eq!(d.status, "Unable to start debugger: denied");
    let mut d = a.code_access_watch_dialog(0, 0x401234, Ok(()));
    assert_eq!(d.status, "Attaching debugger…");
    d.auto_stop_on_hit = true;
    assert_eq!(a.restart_code_access_watch(&mut d), Some(true));
    record_code_watch_start(&mut d, Err("busy".to_owned()));
    assert_eq!(d.status, "Unable to start debugger: busy");
}

#[test]
fn instruction_watch_opens_writes_only_unless_asked() {
    let mut a = app();
    assert!(!a.open_instruction_watch(false));
    a.memory_panel.process_pid = Some(2);
    assert!(a.open_instruction_watch(false));
    let mut d = instruction_watch_dialog(0x500, false, Ok(()));
    assert!(d.writes_only);
    assert!(d.pinned);
    assert_eq!(a.restart_instruction_watch(&mut d), Some(false));
    a.memory_panel.process_pid = None;
    assert_eq!(a.restart_instruction_watch(&mut d), None);
    assert_eq!(d.status, "Select a process");
}

#[test]
fn nop_patch_keeps_original_bytes() {
    let mut a = app();
    a.state.memory_code_list = vec![code_entry("w")];
    assert!(a.plan_nop_patch(0, Some(0x401000), None).is_none());
    assert_eq!(a.memory_panel.status, "Select a process first");
    a.memory_panel.process_pid = Some(5);
    assert!(a.plan_nop_patch(0, Some(0x401000), Some(Vec::new())).is_none());
    assert_eq!(a.memory_panel.status, "Could not read instruction bytes at 0x401000");
    assert!(a.plan_nop_patch(0, None, None).is_none());
    assert_eq!(a.memory_panel.status, "Unable to resolve address for w");
    let patch = a.plan_nop_patch(0, Some(0x401000), Some(vec![0x89, 0x41, 0x10])).unwrap();
    assert_eq!(patch.address, 0x401000);
    assert_eq!(nop_bytes(patch.original.len()), vec![0x90, 0x90, 0x90]);
    a.replace_code_entry_with_nop(0, patch.original, Ok(()));
    assert!(a.state.memory_code_list[0].replaced);
    assert_eq!(a.state.memory_code_list[0].original_bytes, Some(vec![0x89, 0x41, 0x10]));
    assert_eq!(a.memory_panel.status, "Replaced 'w' with code that does nothing (NOP)");

    let again = a.plan_nop_patch(0, Some(0x401000), None).unwrap();
    assert_eq!(again.original, vec![0x89, 0x41, 0x10]);

    let restore = a.plan_restore_patch(0, Some(0x401000)).unwrap();
    assert_eq!(restore.original, vec![0x89, 0x41, 0x10]);
    a.restore_code_entry_with_original_bytes(0, Ok(()));
    assert!(!a.state.memory_code_list[0].replaced);
    assert_eq!(a.memory_panel.status, "Restored original code for 'w'");
    assert!(a.plan_restore_patch(0, Some(0x401000)).is_none());
    a.replace_code_entry_with_nop(0, vec![1], Err("denied".to_owned()));
    assert_eq!(a.memory_panel.status, "Failed to replace instruction with NOP: denied");
}

#[test]
fn starting_a_watch_or_a_scan_closes_the_debugger_dialogs() {
    let mut a = app();
    a.memory_panel.process_pid = Some(9);
    a.state.memory_code_list = vec![code_entry("w")];
    a.start_instruction_watch_dialog(0x5000, true, Ok(()));
    a.start_code_access_dialog(0, 0x401234, Ok(()));
    assert!(a.memory_panel.instruction_watch_dialog.is_some());
    assert_eq!(a.memory_panel.code_access_dialog.as_ref().unwrap().instruction_address, 0x401234);
    assert!(matches!(a.check_code_anchor(0, Ok(0x401234), Some("mov".to_owned()), true), CodeAnchor::Ready(0x401234)));
    assert!(a.memory_panel.instruction_watch_dialog.is_none());
    assert!(a.memory_panel.code_access_dialog.is_none());
    a.start_instruction_watch_dialog(0x5000, false, Ok(()));
    assert!(a.memory_panel.instruction_watch_dialog.as_ref().unwrap().writes_only);
    assert!(!a.open_instruction_watch(true));
    assert!(a.memory_panel.instruction_watch_dialog.is_some());
    assert!(a.open_instruction_watch(false));
    assert!(a.memory_panel.instruction_watch_dialog.is_none());
    a.start_code_access_dialog(0, 0x401234, Ok(()));
    assert_eq!(a.close_memory_debuggers(), (false, true));
    a.start_instruction_watch_dialog(0x5000, true, Ok(()));
    a.memory_panel.process_pid = None;
    assert!(a.start_memory_action(memory_panel::scan::MemoryScanAction::FirstScan, None, None, None).is_none());
    assert!(a.memory_panel.instruction_watch_dialog.is_none());
}
