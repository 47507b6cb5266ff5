use std::collections::HashSet;

use memory_panel::edit::{EditWrite, EditWrites, TargetWrite};
use memory_panel::panel::{AppState, CrosshairApp, MemoryPanelState};
use memory_panel::pointer::PointerSpec;
use memory_panel::results::{ManualAddressPlan, ScanJobCandidates, ScanJobOutcome};
use memory_panel::saved::{PendingWriteCheck, SavedMemoryAddress, ScanCandidate, TextEncoding, TextScanCandidate};
use memory_panel::scan::{MemoryScanAction, ScanValue, ScanValueType};

fn app() -> CrosshairApp {
    CrosshairApp {
        memory_panel: MemoryPanelState::default(),
        state: AppState {
            memory_pointer_scan_offset: String::new(),
            memory_pointer_scan_depth: 5,
            memory_pointer_scan_result_limit: 1000,
            memory_pointer_scan_memory_mb: 1024,
            memory_scan_hotkeys: Vec::new(),
            memory_pointer_list: Vec::new(),
            memory_code_list: Vec::new(),
            memory_camera_x: String::new(),
            memory_camera_y: String::new(),
            memory_camera_z: String::new(),
            memory_camera_viewport_width: "1920".to_owned(),
            memory_camera_viewport_height: "1080".to_owned(),
        },
        capture_hotkey_combo_keys: None,
        capture_hotkey_combo_vks: Vec::new(),
    }
}

fn row(address: usize, value_type: ScanValueType) -> SavedMemoryAddress {
    SavedMemoryAddress {
        address,
        value_type,
        current: None,
        text_encoding: None,
        text_byte_len: 0,
        current_text: None,
        description: String::new(),
        group: String::new(),
        hexadecimal: false,
        pointer: None,
        frozen: None,
        saved_to_library: false,
    }
}

#[test]
fn resetting_a_scan_clears_results_and_shows_status() {
    let mut a = app();
    a.memory_panel.candidates = vec![ScanCandidate { address: 1, value: ScanValue::I32(5) }];
    a.memory_panel.selected_results = HashSet::from([0]);
    a.memory_panel.selection_anchor = Some(0);
    a.memory_panel.job_pending = true;
    a.memory_panel.scanning = true;
    a.memory_panel.has_scan_session = true;
    a.memory_panel.visible_scan_ranges = [Some((0, 1)), None];
    a.reset_memory_scan("Process changed");
    assert!(a.memory_panel.candidates.is_empty());
    assert!(a.memory_panel.selected_results.is_empty());
    assert_eq!(a.memory_panel.selection_anchor, None);
    assert!(!a.memory_panel.job_pending && !a.memory_panel.scanning && !a.memory_panel.has_scan_session);
    assert_eq!(a.memory_panel.visible_scan_ranges, [None, None]);
    assert_eq!(a.memory_panel.status, "Process changed");
    assert_eq!(a.memory_panel.last_action, "Process changed");
}

fn outcome(pid: u32, result: Result<ScanJobCandidates, String>) -> Option<ScanJobOutcome> {
    Some(ScanJobOutcome { pid, action: MemoryScanAction::FirstScan, result })
}

#[test]
fn a_finished_numeric_job_replaces_the_results() {
    let mut a = app();
    a.memory_panel.process_pid = Some(9);
    a.memory_panel.job_pending = true;
    a.memory_panel.scanning = true;
    a.memory_panel.text_candidates = vec![TextScanCandidate { address: 1, current: "x".to_owned() }];
    let found = vec![
        ScanCandidate { address: 0x10, value: ScanValue::I32(1) },
        ScanCandidate { address: 0x20, value: ScanValue::I32(2) },
    ];
    a.poll_memory_job(outcome(9, Ok(ScanJobCandidates::Numeric(found))));
    assert!(!a.memory_panel.job_pending && !a.memory_panel.scanning);
    assert_eq!(a.memory_panel.candidates.len(), 2);
    assert!(a.memory_panel.text_candidates.is_empty());
    assert_eq!(a.memory_panel.status, "First scan — 2 result(s)");
}

#[test]
fn a_finished_text_job_and_a_failed_job_report_their_outcome() {
    let mut a = app();
    a.memory_panel.process_pid = Some(9);
    a.memory_panel.job_pending = true;
    a.poll_memory_job(outcome(9, Ok(ScanJobCandidates::Text(vec![TextScanCandidate { address: 3, current: "hi".to_owned() }]))));
    assert_eq!(a.memory_panel.status, "First scan — 1 text result(s)");
    assert_eq!(a.memory_panel.text_candidates.len(), 1);
    a.memory_panel.job_pending = true;
    a.poll_memory_job(Some(ScanJobOutcome { pid: 9, action: MemoryScanAction::Exact, result: Err("access denied".to_owned()) }));
    assert_eq!(a.memory_panel.status, "New value failed: access denied");
}

#[test]
fn a_job_for_another_process_is_dropped() {
    let mut a = app();
    a.memory_panel.process_pid = Some(9);
    a.memory_panel.job_pending = true;
    a.memory_panel.scanning = true;
    a.poll_memory_job(outcome(10, Ok(ScanJobCandidates::Numeric(vec![ScanCandidate { address: 1, value: ScanValue::I32(1) }]))));
    assert!(!a.memory_panel.job_pending && !a.memory_panel.scanning);
    assert!(a.memory_panel.candidates.is_empty());
    assert_eq!(a.memory_panel.status, "Ready");

    let mut idle = app();
    idle.memory_panel.process_pid = Some(9);
    idle.poll_memory_job(outcome(9, Ok(ScanJobCandidates::Numeric(vec![ScanCandidate { address: 1, value: ScanValue::I32(1) }]))));
    assert!(idle.memory_panel.candidates.is_empty());
}

#[test]
fn saving_selected_results_skips_rows_already_saved() {
    let mut a = app();
    a.memory_panel.value_type = ScanValueType::I16;
    a.memory_panel.candidates = vec![
        ScanCandidate { address: 0x10, value: ScanValue::I16(1) },
        ScanCandidate { address: 0x20, value: ScanValue::I16(2) },
        ScanCandidate { address: 0x30, value: ScanValue::I16(3) },
    ];
    a.memory_panel.saved = vec![row(0x20, ScanValueType::I16)];
    a.memory_panel.selected_results = HashSet::from([2, 1, 0, 7]);
    a.add_selected_memory_results();
    let addresses: Vec<usize> = a.memory_panel.saved.iter().map(|r| r.address).collect();
    assert_eq!(addresses, vec![0x20, 0x10, 0x30]);
    assert_eq!(a.memory_panel.saved[1].current, Some(ScanValue::I16(1)));
    assert_eq!(a.memory_panel.saved[1].value_type, ScanValueType::I16);
    assert_eq!(a.memory_panel.status, "3 address(es) saved");
}

#[test]
fn saving_text_results_measures_their_encoding() {
    let mut a = app();
    a.memory_panel.text_encoding = Some(TextEncoding::Utf16);
    a.memory_panel.text_candidates = vec![TextScanCandidate { address: 0x40, current: "hé😀".to_owned() }];
    a.memory_panel.selected_results = HashSet::from([0]);
    a.add_selected_memory_results();
    let r = &a.memory_panel.saved[0];
    assert_eq!(r.text_byte_len, 8);
    assert_eq!(r.description, "Text (UTF-16)");
    assert_eq!(r.current_text.as_deref(), Some("hé😀"));
    assert_eq!(r.value_type, ScanValueType::I8);

    let mut b = app();
    b.memory_panel.text_candidates = vec![TextScanCandidate { address: 0x40, current: "hé😀".to_owned() }];
    b.memory_panel.selected_results = HashSet::from([0]);
    b.add_selected_memory_results();
    assert_eq!(b.memory_panel.saved[0].text_byte_len, 7);
    assert_eq!(b.memory_panel.saved[0].description, "Text (UTF-8)");
    b.add_selected_memory_results();
    assert_eq!(b.memory_panel.saved.len(), 1);
}

#[test]
fn code_access_addresses_are_saved_once() {
    let mut a = app();
    a.memory_panel.process_pid = Some(1);
    a.add_code_access_address(0x1234, ScanValueType::I32, Some(ScanValue::I32(7)));
    assert_eq!(a.memory_panel.saved.len(), 1);
    assert_eq!(a.memory_panel.saved[0].current, Some(ScanValue::I32(7)));
    assert_eq!(a.memory_panel.status, "Address 0x00001234 added");
    a.memory_panel.status = "kept".to_owned();
    a.add_code_access_address(0x1234, ScanValueType::I32, None);
    assert_eq!(a.memory_panel.saved.len(), 1);
    assert_eq!(a.memory_panel.status, "kept");

    let mut b = app();
    b.add_code_access_address(0x10, ScanValueType::I64, Some(ScanValue::I64(1)));
    assert_eq!(b.memory_panel.saved[0].current, None);
}

#[test]
fn manual_addresses_are_read_as_pointers_first() {
    let mut a = app();
    assert!(matches!(a.manual_address_plan(), ManualAddressPlan::SelectProcess));
    a.memory_panel.process_pid = Some(3);
    a.memory_panel.manual_address = "game.exe+10 [8, 1C]".to_owned();
    match a.manual_address_plan() {
        ManualAddressPlan::Pointer(p) => {
            assert_eq!(p.base, 0);
            assert_eq!(p.module, Some(("game.exe".to_owned(), 0x10)));
            assert_eq!(p.offsets, vec![8, 0x1C]);
        }
        _ => panic!("expected a pointer"),
    }
    a.memory_panel.manual_address = "0x1000+10".to_owned();
    assert!(matches!(a.manual_address_plan(), ManualAddressPlan::Address(0x1010)));
    a.memory_panel.manual_address = "zz".to_owned();
    assert!(matches!(a.manual_address_plan(), ManualAddressPlan::Invalid));
}

#[test]
fn manual_addresses_become_rows() {
    let mut a = app();
    a.memory_panel.process_pid = Some(3);
    a.memory_panel.manual_address = "game.exe+10 [8]".to_owned();
    let plan = a.manual_address_plan();
    a.add_manual_memory_address(plan, Ok(0x5555), Some(ScanValue::I32(4)));
    let r = &a.memory_panel.saved[0];
    assert_eq!(r.address, 0x5555);
    assert_eq!(r.current, Some(ScanValue::I32(4)));
    assert_eq!(r.description, "game.exe+10 [8]");
    assert!(r.pointer.is_some());
    assert!(a.memory_panel.manual_address.is_empty());

    let pointer = PointerSpec { base: 0, module: Some(("m.dll".to_owned(), 1)), offsets: vec![] };
    a.add_manual_memory_address(ManualAddressPlan::Pointer(pointer), Err("not loaded".to_owned()), None);
    assert_eq!(a.memory_panel.status, "Unable to resolve pointer: not loaded");
    assert_eq!(a.memory_panel.saved.len(), 1);
    a.add_manual_memory_address(ManualAddressPlan::Invalid, Ok(0), None);
    assert_eq!(a.memory_panel.status, "Invalid address or pointer expression");
    a.add_manual_memory_address(ManualAddressPlan::SelectProcess, Ok(0), None);
    assert_eq!(a.memory_panel.status, "Select a process");
    a.add_manual_memory_address(ManualAddressPlan::Address(0x77), Ok(0), None);
    assert_eq!(a.memory_panel.saved[1].address, 0x77);
    assert!(a.memory_panel.saved[1].description.is_empty());
}

#[test]
fn editing_a_selected_row_targets_the_whole_selection() {
    let mut a = app();
    a.memory_panel.selected_saved = HashSet::from([0, 2]);
    let mut t = a.commit_targets(2);
    t.sort();
    assert_eq!(t, vec![0, 2]);
    assert_eq!(a.commit_targets(1), vec![1]);
}

#[test]
fn committing_a_value_updates_rows_of_the_same_kind() {
    let mut a = app();
    a.memory_panel.process_pid = Some(5);
    let mut frozen = row(0x10, ScanValueType::I32);
    frozen.frozen = Some(ScanValue::I32(1));
    a.memory_panel.saved = vec![frozen, row(0x20, ScanValueType::I16), row(0x30, ScanValueType::I32)];
    a.memory_panel.edit_value_index = Some(0);
    a.memory_panel.edit_value_open = true;
    let writes = vec![
        TargetWrite { target: 0, written: true, observed: None },
        TargetWrite { target: 1, written: true, observed: None },
        TargetWrite { target: 2, written: true, observed: Some(ScanValue::I32(6)) },
        TargetWrite { target: 9, written: true, observed: None },
    ];
    a.commit_saved_memory_value(0, Some(ScanValue::I32(5)), &writes);
    assert_eq!(a.memory_panel.saved[0].current, Some(ScanValue::I32(5)));
    assert_eq!(a.memory_panel.saved[0].frozen, Some(ScanValue::I32(5)));
    assert_eq!(a.memory_panel.saved[1].current, None);
    assert_eq!(a.memory_panel.saved[2].current, Some(ScanValue::I32(6)));
    assert_eq!(a.memory_panel.saved[2].frozen, None);
    let checks: Vec<(usize, ScanValue)> = a.memory_panel.pending_write_checks.iter().map(|c: &PendingWriteCheck| (c.address, c.expected)).collect();
    assert_eq!(checks, vec![(0x10, ScanValue::I32(5)), (0x30, ScanValue::I32(5))]);
    assert_eq!(a.memory_panel.status, "Value written to 2 address(es)");
    assert_eq!(a.memory_panel.edit_value_index, None);
    assert!(!a.memory_panel.edit_value_open);
}

#[test]
fn committing_text_or_an_invalid_value() {
    let mut a = app();
    a.memory_panel.process_pid = Some(5);
    let mut text = row(0x10, ScanValueType::I8);
    text.text_encoding = Some(TextEncoding::Utf8);
    a.memory_panel.saved = vec![text, row(0x20, ScanValueType::I32)];
    a.memory_panel.edit_value_input = "new".to_owned();
    a.commit_saved_memory_value(0, None, &[TargetWrite { target: 0, written: true, observed: None }, TargetWrite { target: 1, written: true, observed: None }]);
    assert_eq!(a.memory_panel.saved[0].current_text.as_deref(), Some("new"));
    assert_eq!(a.memory_panel.status, "Value written to 1 address(es)");

    a.memory_panel.edit_value_index = Some(1);
    a.commit_saved_memory_value(1, None, &[]);
    assert_eq!(a.memory_panel.status, "Invalid value");
    assert_eq!(a.memory_panel.edit_value_index, Some(1));

    let mut idle = app();
    idle.memory_panel.saved = vec![row(1, ScanValueType::I32)];
    idle.commit_saved_memory_value(0, Some(ScanValue::I32(1)), &[TargetWrite { target: 0, written: true, observed: None }]);
    assert_eq!(idle.memory_panel.saved[0].current, None);
    assert_eq!(idle.memory_panel.status, "Ready");
}

fn planned_targets(writes: &[EditWrite]) -> Vec<(usize, usize)> {
    let mut v: Vec<(usize, usize)> = writes.iter().map(|w| (w.target, w.address)).collect();
    v.sort();
    v
}

#[test]
fn an_invalid_edit_plans_no_write() {
    let mut a = app();
    a.memory_panel.process_pid = Some(5);
    a.memory_panel.saved = vec![row(0x10, ScanValueType::I32), row(0x20, ScanValueType::I32)];
    a.memory_panel.selected_saved = HashSet::from([0, 1]);
    a.memory_panel.edit_value_index = Some(0);
    a.memory_panel.edit_value_input = "abc".to_owned();
    assert!(a.plan_saved_memory_writes(0, Some(ScanValue::I32(7))).is_none());
    assert_eq!(a.memory_panel.status, "Invalid value");
    assert_eq!(a.memory_panel.edit_value_index, Some(0));
    assert_eq!(a.memory_panel.saved[0].current, None);

    a.memory_panel.edit_value_input = "1+2".to_owned();
    a.memory_panel.status = "Ready".to_owned();
    assert!(a.plan_saved_memory_writes(0, None).is_none());
    assert_eq!(a.memory_panel.status, "Invalid value");
}

#[test]
fn a_valid_edit_plans_writes_at_rows_of_its_kind() {
    let mut a = app();
    a.memory_panel.process_pid = Some(5);
    let mut text = row(0x40, ScanValueType::I8);
    text.text_encoding = Some(TextEncoding::Utf8);
    text.text_byte_len = 3;
    a.memory_panel.saved = vec![row(0x10, ScanValueType::I32), row(0x20, ScanValueType::I16), row(0x30, ScanValueType::I32), text];
    a.memory_panel.selected_saved = HashSet::from([0, 1, 2]);
    a.memory_panel.edit_value_input = " 42 ".to_owned();
    match a.plan_saved_memory_writes(0, None) {
        Some(EditWrites::Value { value_type, value, writes }) => {
            assert_eq!(value_type, ScanValueType::I32);
            assert_eq!(value, ScanValue::I32(42));
            assert_eq!(planned_targets(&writes), vec![(0, 0x10), (2, 0x30)]);
        }
        _ => panic!("expected a value plan"),
    }
    assert_eq!(a.memory_panel.status, "Ready");

    a.memory_panel.edit_value_input = "2*3".to_owned();
    match a.plan_saved_memory_writes(1, Some(ScanValue::I16(6))) {
        Some(EditWrites::Value { value, writes, .. }) => {
            assert_eq!(value, ScanValue::I16(6));
            assert_eq!(planned_targets(&writes), vec![(1, 0x20)]);
        }
        _ => panic!("expected a value plan"),
    }

    a.memory_panel.edit_value_input = "hey".to_owned();
    match a.plan_saved_memory_writes(3, None) {
        Some(EditWrites::Text { encoding, text, writes }) => {
            assert_eq!(encoding, TextEncoding::Utf8);
            assert_eq!(text, "hey");
            assert_eq!(writes.len(), 1);
            assert_eq!((writes[0].target, writes[0].address, writes[0].text_byte_len), (3, 0x40, 3));
        }
        _ => panic!("expected a text plan"),
    }

    let mut idle = app();
    idle.memory_panel.saved = vec![row(1, ScanValueType::I32)];
    idle.memory_panel.edit_value_input = "1".to_owned();
    assert!(idle.plan_saved_memory_writes(0, None).is_none());
    assert_eq!(idle.memory_panel.status, "Ready");
}
