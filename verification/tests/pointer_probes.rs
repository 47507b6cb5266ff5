use std::collections::HashSet;

use memory_panel::camera::CameraMatrixDialog;
use memory_panel::pointer::PointerPath;
use memory_panel::hotkeys::compact_hotkey_label;
use memory_panel::module_list::modules_by_base;
use memory_panel::panel::{AppState, CrosshairApp, MemoryPanelState};
use memory_panel::probe::{detect_msvc_rtti_name, detect_structure_identity, tracked_object_signature};
use memory_panel::saved::SavedMemoryAddress;
use memory_panel::scan::{ScanValue, ScanValueType};
use memory_panel::settings::PointerScanLimits;
use memory_panel::stable_pointer::{module_base_named, PathRead, StablePointerCandidate};

fn app() -> CrosshairApp {
    CrosshairApp {
        memory_panel: MemoryPanelState::default(),
        state: AppState {
            memory_pointer_scan_offset: String::new(),
            memory_pointer_scan_depth: 5,
            memory_pointer_scan_result_limit: 1000,
            memory_pointer_scan_memory_mb: 1024,
            memory_scan_hotkeys: Vec::new(),
            memory_pointer_list: Vec::new(),
            memory_code_list: Vec::new(),
            memory_camera_x: "cx".to_owned(),
            memory_camera_y: "cy".to_owned(),
            memory_camera_z: "cz".to_owned(),
            memory_camera_viewport_width: "1920".to_owned(),
            memory_camera_viewport_height: "1080".to_owned(),
        },
        capture_hotkey_combo_keys: None,
        capture_hotkey_combo_vks: Vec::new(),
    }
}

fn row(address: usize, current: Option<ScanValue>) -> SavedMemoryAddress {
    SavedMemoryAddress {
        address,
        value_type: ScanValueType::I32,
        current,
        text_encoding: None,
        text_byte_len: 0,
        current_text: None,
        description: String::new(),
        group: String::new(),
        hexadecimal: false,
        pointer: None,
        frozen: None,
        saved_to_library: false,
    }
}

fn limits() -> PointerScanLimits {
    PointerScanLimits { max_offset: 0x1000, max_depth: 5, result_limit: 1000, max_bytes: 1 << 30 }
}

fn cand(module: &str, offset: usize) -> StablePointerCandidate {
    StablePointerCandidate {
        path: PointerPath { module: module.to_owned(), module_offset: offset, offsets: vec![0x8] },
        valid: None,
        resolved_base: None,
        resolved_address: None,
        observed_value: None,
        live_value: None,
        filter_value: None,
    }
}

fn modules() -> Vec<(String, usize, usize)> {
    vec![("game.exe".to_owned(), 0x40_0000, 0x10_0000), ("engine.dll".to_owned(), 0x1000_0000, 0x1000)]
}

#[test]
fn stable_scan_opens_only_with_a_value() {
    let mut a = app();
    assert!(a.start_stable_pointer_scan(&row(0x10, Some(ScanValue::I32(1))), Ok(()), limits()).is_none());
    assert_eq!(a.memory_panel.status, "Select a process");
    a.memory_panel.process_pid = Some(8);
    assert!(a.start_stable_pointer_scan(&row(0x10, None), Ok(()), limits()).is_none());
    assert_eq!(a.memory_panel.status, "Unable to read this address");
    let d = a.start_stable_pointer_scan(&row(0x10, Some(ScanValue::I32(1))), Ok(()), limits()).unwrap();
    assert!(d.scanning);
    assert_eq!(d.status, "Scanning pointer paths…");
    assert_eq!(d.source_pid, 8);
    let d = a.start_stable_pointer_scan(&row(0x10, Some(ScanValue::I32(1))), Err("denied".to_owned()), limits()).unwrap();
    assert!(!d.scanning);
    assert_eq!(d.status, "Unable to list process modules: denied");
    assert_eq!(a.memory_panel.status, "Unable to list process modules: denied");
}

#[test]
fn stable_validation_checks_in_batches_and_ranks() {
    let mut a = app();
    a.memory_panel.process_pid = Some(8);
    let mut d = a.start_stable_pointer_scan(&row(0x10, Some(ScanValue::I32(100))), Ok(()), limits()).unwrap();
    d.candidates = (0..18).map(|i| cand(if i == 5 { "missing.dll" } else { "GAME.exe" }, i * 8)).collect();
    d.candidates[3].valid = Some(true);
    a.validate_stable_pointer_candidates(&mut d);
    assert_eq!(d.candidates[3].valid, None);
    assert_eq!(d.validation_pid, Some(8));
    assert_eq!(d.status, "Validating 0/18 pointer path(s)...");

    assert_eq!(d.validation_batch(), (0, 16));
    let reads: Vec<PathRead> = (0..16)
        .map(|i| match i {
            0 => PathRead { address: Some(0x1000), observed: Some(ScanValue::I32(100)) },
            1 => PathRead { address: Some(0x2000), observed: Some(ScanValue::I32(7)) },
            2 => PathRead { address: None, observed: None },
            _ => PathRead { address: Some(0x3000), observed: None },
        })
        .collect();
    a.advance_stable_pointer_validation(&mut d, &modules(), &reads, None);
    assert_eq!(d.validation_cursor, 16);
    assert_eq!(d.status, "Validating 16/18 pointer path(s)...");
    assert_eq!(d.candidates[0].resolved_base, Some(0x40_0000));
    assert_eq!(d.candidates[1].resolved_base, Some(0x40_0008));
    assert_eq!(d.candidates[5].valid, Some(false));
    assert_eq!(d.candidates[5].resolved_base, None);

    assert_eq!(d.validation_batch(), (16, 18));
    let reads = vec![
        PathRead { address: Some(0x4000), observed: Some(ScanValue::I32(100)) },
        PathRead { address: Some(0x4000), observed: Some(ScanValue::I32(1)) },
    ];
    a.advance_stable_pointer_validation(&mut d, &modules(), &reads, None);
    assert_eq!(d.validation_pid, None);
    assert_eq!(d.selected, Some(0));
    assert_eq!(d.status, "PID 8: 2 verified, 2 resolved with a different value, 14 broken. Expected 100.");
    let offsets: Vec<usize> = d.candidates.iter().map(|c| c.path.module_offset).collect();
    assert_eq!(&offsets[..4], &[0, 16 * 8, 8, 17 * 8]);
    assert_eq!(d.candidates.len(), 18);
}

#[test]
fn stable_validation_stops_when_process_changes() {
    let mut a = app();
    a.memory_panel.process_pid = Some(8);
    let mut d = a.start_stable_pointer_scan(&row(0x10, Some(ScanValue::I32(1))), Ok(()), limits()).unwrap();
    d.candidates = vec![cand("game.exe", 0)];
    a.validate_stable_pointer_candidates(&mut d);
    a.memory_panel.process_pid = Some(9);
    a.advance_stable_pointer_validation(&mut d, &modules(), &[PathRead { address: None, observed: None }], None);
    assert_eq!(d.validation_pid, None);
    assert_eq!(d.status, "The selected process changed during validation");
}

#[test]
fn stable_candidate_saves_as_pointer_row() {
    let mut a = app();
    a.memory_panel.process_pid = Some(8);
    let mut d = a.start_stable_pointer_scan(&row(0x10, Some(ScanValue::I32(1))), Ok(()), limits()).unwrap();
    a.add_stable_pointer_candidate(&mut d, false, Some(1), Some(2), None, None);
    assert_eq!(d.status, "Please select a pointer candidate first!");
    d.candidates = vec![cand("game.exe", 0x1F0)];
    d.selected = Some(0);
    a.add_stable_pointer_candidate(&mut d, false, None, Some(2), None, None);
    assert_eq!(d.status, "Pointer module is not loaded");
    a.add_stable_pointer_candidate(&mut d, false, Some(0x40_01F0), None, None, None);
    assert_eq!(a.memory_panel.status, "Unable to resolve pointer");
    a.add_stable_pointer_candidate(&mut d, true, Some(0x40_01F0), Some(0x9000), Some(ScanValue::I32(1)), None);
    assert_eq!(d.status, "✔ Pointer game.exe+1F0 added to Address list!");
    let r = &a.memory_panel.saved[0];
    assert_eq!(r.address, 0x9000);
    assert_eq!(r.description, "game.exe+1F0");
    assert_eq!(r.pointer.as_ref().unwrap().base, 0x40_01F0);
    assert_eq!(a.state.memory_pointer_list.len(), 1);
    assert_eq!(module_base_named(&modules(), "ENGINE.DLL"), Some(0x1000_0000));
}

#[test]
fn rtti_lookup_follows_locator_to_name() {
    let vtable = 0x40_1000usize;
    let mut l = detect_msvc_rtti_name(vtable, 4, 0x40_0000, 0x10_0000);
    assert_eq!(l.next_read(), Some((vtable - 4, 4)));
    l.feed(Some(0x40_2000u32.to_le_bytes().to_vec()));
    assert_eq!(l.next_read(), Some((0x40_2000, 20)));
    let mut locator = vec![0u8; 20];
    locator[12..16].copy_from_slice(&0x40_3000u32.to_le_bytes());
    l.feed(Some(locator));
    assert_eq!(l.next_read(), Some((0x40_3008, 256)));
    let mut raw = b".?AVPlayer@@".to_vec();
    raw.push(0);
    l.feed(Some(raw));
    assert_eq!(l.next_read(), None);
    assert_eq!(l.result().as_deref(), Some("Player"));

    let mut outside = detect_msvc_rtti_name(vtable, 4, 0x40_0000, 0x10_0000);
    outside.feed(Some(0x90_0000u32.to_le_bytes().to_vec()));
    assert_eq!(outside.next_read(), None);
    assert_eq!(outside.result(), None);
}

#[test]
fn structure_probe_finds_named_class_below_field() {
    let mods = modules();
    let mut p = detect_structure_identity(0x5004, 8, mods);
    assert_eq!(p.next_read(), Some((0x5004, 8)));
    p.feed(None);
    assert_eq!(p.next_read(), Some((0x5000, 8)));
    p.feed(Some(0x40_1000u64.to_le_bytes().to_vec()));
    assert_eq!(p.next_read(), Some((0x40_1000, 8)));
    p.feed(Some(0x40_2000u64.to_le_bytes().to_vec()));
    assert_eq!(p.next_read(), Some((0x40_0FF8, 8)));
    p.feed(None);
    assert_eq!(p.next_read(), Some((0x4FFC, 8)));
    let mut steps = 0;
    while let Some((_, _)) = p.next_read() {
        p.feed(None);
        steps += 1;
    }
    assert!(steps < 70);
    let id = p.result().unwrap();
    assert_eq!(id.name, "Unknown (game.exe vtable)");
    assert_eq!(id.address, 0x5000);
    assert_eq!(id.evidence, "Vtable: game.exe+1000; RTTI name is absent or stripped; object base is -0x4 from selected field");
}

#[test]
fn object_signature_records_module_pointers() {
    let mods = modules();
    let mut p = tracked_object_signature(0x8010, "mov [rcx+10h], eax", 8, mods).unwrap();
    assert_eq!(p.object_base, 0x8000);
    assert_eq!(p.next_read(), Some((0x8000, 8)));
    p.feed(Some(0x40_0100u64.to_le_bytes().to_vec()));
    assert_eq!(p.next_read(), Some((0x8008, 8)));
    p.feed(Some(0x1000_0010u64.to_le_bytes().to_vec()));
    p.feed(None);
    p.feed(Some(0x40_0200u64.to_le_bytes().to_vec()));
    assert_eq!(p.next_read(), None);
    assert_eq!(p.result().as_deref(), Some("0=game.exe+100;8=engine.dll+10;18=game.exe+200"));
}

#[test]
fn object_signature_looks_one_object_deeper() {
    let mods = modules();
    let mut p = tracked_object_signature(0x8000, "mov eax, [rcx]", 4, mods).unwrap();
    for _ in 0..(0x400 / 4) {
        assert!(p.next_read().is_some());
        p.feed(None);
    }
    assert_eq!(p.next_read(), Some((0x8000, 4)));
    p.feed(Some(0x9000u32.to_le_bytes().to_vec()));
    assert_eq!(p.next_read(), Some((0x9000, 4)));
    p.feed(None);
    p.feed(Some(0x40_0004u32.to_le_bytes().to_vec()));
    while p.next_read().is_some() {
        p.feed(None);
    }
    assert_eq!(p.result().as_deref(), Some("0>4=game.exe+4"));
}

#[test]
fn module_list_sorts_by_base_keeping_ties() {
    let sorted = modules_by_base(vec![
        ("b".to_owned(), 0x2000, 1),
        ("a".to_owned(), 0x1000, 1),
        ("c".to_owned(), 0x2000, 1),
    ]);
    let names: Vec<&str> = sorted.iter().map(|m| m.0.as_str()).collect();
    assert_eq!(names, vec!["a", "b", "c"]);
    let mut a = app();
    assert!(a.open_memory_module_list(Ok(Vec::new())).is_none());
    a.memory_panel.process_pid = Some(1);
    let d = a.open_memory_module_list(Err("denied".to_owned())).unwrap();
    assert_eq!(d.status, "Unable to enumerate modules: denied");
    assert_eq!(a.memory_panel.status, "Unable to enumerate modules: denied");
}

#[test]
fn camera_dialog_uses_selection_or_last_inputs() {
    let mut a = app();
    let d: CameraMatrixDialog = a.open_camera_matrix_dialog();
    assert_eq!((d.x.as_str(), d.y.as_str(), d.z.as_str()), ("cx", "cy", "cz"));
    assert_eq!(d.status, "Enter X, Y and Z pointer expressions, then start the scan.");
    a.memory_panel.saved = vec![row(0x1234, None)];
    a.memory_panel.selected_saved = HashSet::from([0]);
    let d = a.open_camera_matrix_dialog();
    assert_eq!((d.x.as_str(), d.y.as_str(), d.z.as_str()), ("0x00001234", "", ""));
    assert_eq!(d.viewport_width, "1920");
}

#[test]
fn manual_structure_view_and_disassembler_need_a_process() {
    let mut a = app();
    a.memory_panel.manual_address = "0x4000".to_owned();
    assert!(a.open_manual_structure_view(Some(4)).is_none());
    assert_eq!(a.memory_panel.status, "Select a process");
    a.memory_panel.process_pid = Some(1);
    let v = a.open_manual_structure_view(None).unwrap();
    assert_eq!(v.address, 0x4000);
    assert_eq!(v.pointer_width, 8);
    assert_eq!(v.elements.len(), 128);
    assert_eq!(v.classes[0].name, "Class_0");
    a.memory_panel.manual_address = "zz!".to_owned();
    assert!(a.open_manual_structure_view(None).is_none());
    assert_eq!(a.memory_panel.status, "Invalid address");

    let d = a.open_disassembler_at_address(0x10, Err("bad".to_owned())).unwrap();
    assert_eq!(d.status, "Disassembly failed: bad");
    assert_eq!(d.navigation_step, "10");
    let d = a.open_disassembler_at_address(0x10, Ok(vec![(0x10, "90".to_owned(), "nop".to_owned())])).unwrap();
    assert_eq!(d.status, "Disassembler active");
    assert_eq!(d.lines.len(), 1);
}

#[test]
fn hotkey_labels_are_compact() {
    let keys = |ks: &[(&str, bool)]| ks.iter().map(|(k, m)| (k.to_string(), *m)).collect::<Vec<_>>();
    assert_eq!(compact_hotkey_label(&keys(&[("Ctrl", true), ("Shift", true), ("F12", false)])), "F12");
    assert_eq!(compact_hotkey_label(&keys(&[("Ctrl", true), ("Insert", false)])), "Ins");
    assert_eq!(compact_hotkey_label(&keys(&[("Ctrl", true), ("Shift", true), ("Alt", true), ("Win", true)])), "CSA");
    assert_eq!(compact_hotkey_label(&[]), "");
}

#[test]
fn structure_probe_stays_within_its_search_limit() {
    let mods = modules();
    let field = 0x6002;
    let mut p = detect_structure_identity(field, 8, mods);
    let mut bases = Vec::new();
    while let Some((address, _)) = p.next_read() {
        if address <= field {
            bases.push(field - address);
        }
        p.feed(Some(0x1000_0000u64.to_le_bytes().to_vec()));
        if bases.len() > 200 {
            break;
        }
    }
    assert!(!bases.is_empty());
    assert!(bases.iter().all(|off| *off <= 0x100 && off % 4 == 0));
    assert_eq!(*bases.iter().max().unwrap(), 0x100);
    let id = p.result().unwrap();
    assert_eq!(id.address, field);
    assert_eq!(id.name, "Unknown (engine.dll vtable)");

    let mut low = detect_structure_identity(6, 8, modules());
    let mut offs = Vec::new();
    while let Some((address, _)) = low.next_read() {
        offs.push(6 - address);
        low.feed(None);
    }
    assert_eq!(offs, vec![0, 4]);
    assert!(low.result().is_none());
}

#[test]
fn object_signature_keeps_three_entries_of_one_form() {
    let mut p = tracked_object_signature(0x8000, "mov eax, [rcx]", 8, modules()).unwrap();
    for k in 0..5u64 {
        if p.next_read().is_none() {
            break;
        }
        p.feed(Some((0x40_0010 + k).to_le_bytes().to_vec()));
    }
    assert_eq!(p.next_read(), None);
    let s = p.result().unwrap();
    assert_eq!(s, "0=game.exe+10;8=game.exe+11;10=game.exe+12");
    assert_eq!(s.split(';').count(), 3);
    assert!(s.split(';').all(|e| !e.contains('>') && e.contains("=game.exe+")));
}
