use memory_panel::code_access::CodeAccessDialog;
use memory_panel::disassembler::{format_hex_dump, navigation_attempt, DisassemblerDialog};
use memory_panel::code_access::instruction_watch_dialog;
use memory_panel::hit_table::{instruction_hit_order, InstructionHit};
use memory_panel::scan::ScanValueType;

fn disassembler(lines: Vec<(usize, &str, &str)>) -> DisassemblerDialog {
    DisassemblerDialog {
        address: 0x1000,
        lines: lines.into_iter().map(|(a, b, o)| (a, b.to_owned(), o.to_owned())).collect(),
        status: String::new(),
        navigation_step: "10".to_owned(),
        search: String::new(),
    }
}

#[test]
fn disassembly_search_looks_at_address_bytes_and_instruction() {
    let mut d = disassembler(vec![
        (0x1000, "48 8B 05", "mov rax, [rip+0x10]"),
        (0x1003, "FF C0", "inc eax"),
        (0x10AB, "C3", "ret"),
    ]);
    assert_eq!(d.visible_lines(), vec![0, 1, 2]);
    d.search = "  MOV ".to_owned();
    assert_eq!(d.visible_lines(), vec![0]);
    d.search = "ff c0".to_owned();
    assert_eq!(d.visible_lines(), vec![1]);
    d.search = "0x000010ab".to_owned();
    assert_eq!(d.visible_lines(), vec![2]);
    d.search = "nothing".to_owned();
    assert!(d.visible_lines().is_empty());
}

#[test]
fn disassembly_navigation_moves_by_the_hex_step() {
    let mut d = disassembler(Vec::new());
    assert_eq!(d.navigation_target(false), Some(0x0FF0));
    assert_eq!(d.navigation_target(true), Some(0x1010));
    d.navigation_step = "zz".to_owned();
    assert_eq!(d.navigation_target(true), None);
    d.navigation_step = "2000".to_owned();
    assert_eq!(d.navigation_target(false), Some(0));
    d.address = usize::MAX - 1;
    assert_eq!(d.navigation_target(true), Some(usize::MAX));
}

#[test]
fn navigation_tries_each_size_then_steps_back() {
    assert_eq!(navigation_attempt(0x1000, 0), Some((0x1000, 128)));
    assert_eq!(navigation_attempt(0x1000, 4), Some((0x1000, 1)));
    assert_eq!(navigation_attempt(0x1000, 5), Some((0x0FFF, 128)));
    assert_eq!(navigation_attempt(0x1000, 79), Some((0x0FF1, 1)));
    assert_eq!(navigation_attempt(3, 79), Some((0, 1)));
    assert_eq!(navigation_attempt(0x1000, 80), None);
}

#[test]
fn navigation_outcome_replaces_lines_or_reports_the_error() {
    let mut d = disassembler(vec![(0x1000, "C3", "ret")]);
    d.finish_navigation(None, Some("unreadable".to_owned()));
    assert_eq!(d.status, "Unable to navigate: unreadable");
    assert_eq!(d.lines.len(), 1);
    d.finish_navigation(Some((0x2000, vec![(0x2000, "90".to_owned(), "nop".to_owned())])), None);
    assert_eq!(d.address, 0x2000);
    assert_eq!(d.lines[0].2, "nop");
    assert_eq!(d.status, "Ready");
}

#[test]
fn aob_copy_prefers_the_line_at_the_address() {
    let d = disassembler(vec![(0x0FFF, "90", "nop"), (0x1000, "C3", "ret")]);
    assert_eq!(d.aob_to_copy(), Some("C3".to_owned()));
    let d = disassembler(vec![(0x0FFF, "90", "nop")]);
    assert_eq!(d.aob_to_copy(), Some("90".to_owned()));
    assert_eq!(disassembler(Vec::new()).aob_to_copy(), None);
}

#[test]
fn hex_dump_writes_rows_of_sixteen_bytes() {
    let mut bytes: Vec<u8> = (0x41..0x51).collect();
    bytes.extend_from_slice(&[0x00, 0x20, 0x7E]);
    let dump = format_hex_dump(0x1000, &bytes);
    let expected = format!(
        "0x00001000  {:<48}  ABCDEFGHIJKLMNOP\n0x00001010  {:<48}  ..~\n",
        "41 42 43 44 45 46 47 48 49 4A 4B 4C 4D 4E 4F 50", "00 20 7E"
    );
    assert_eq!(dump, expected);
    assert_eq!(format_hex_dump(0x10, &Vec::new()), "");
}

fn access_dialog() -> CodeAccessDialog {
    let mut d = CodeAccessDialog::opened(0, 0x401000, "Watching".to_owned(), ScanValueType::I32);
    d.addresses = vec![(0x100, 5), (0x200, 2), (0x300, 5), (0x400, 9)];
    d.values.insert(0x100, "42".to_owned());
    d.values.insert(0x200, "7".to_owned());
    d.values.insert(0x300, "142".to_owned());
    d
}

#[test]
fn access_rows_follow_search_and_range() {
    let mut d = access_dialog();
    assert_eq!(d.listed_rows(false, &Vec::new()), vec![0, 1, 2, 3]);
    d.value_search = " 42 ".to_owned();
    assert_eq!(d.listed_rows(false, &Vec::new()), vec![0, 2]);
    d.value_search = "-".to_owned();
    assert_eq!(d.listed_rows(false, &Vec::new()), vec![3]);
    d.value_search = String::new();
    assert_eq!(d.listed_rows(true, &vec![true, false, true, false]), vec![0, 2]);
}

#[test]
fn access_rows_sort_by_hits_keeping_capture_order_for_ties() {
    let mut d = access_dialog();
    d.hits_sort = 1;
    assert_eq!(d.listed_rows(false, &Vec::new()), vec![1, 0, 2, 3]);
    d.hits_sort = 2;
    assert_eq!(d.listed_rows(false, &Vec::new()), vec![3, 0, 2, 1]);
}

fn hit(address: usize, instruction: &str, count: usize) -> InstructionHit {
    InstructionHit { address, instruction: instruction.to_owned(), count, details: String::new() }
}

#[test]
fn caught_instructions_sort_by_text_or_hits() {
    let hits = vec![
        hit(0x30, "mov eax, 1", 4),
        hit(0x10, "ADD eax, 2", 1),
        hit(0x20, "mov eax, 1", 4),
        hit(0x40, "add eax, 2", 7),
    ];
    assert_eq!(instruction_hit_order(&hits, 0, 0), vec![0, 1, 2, 3]);
    assert_eq!(instruction_hit_order(&hits, 1, 0), vec![1, 3, 2, 0]);
    assert_eq!(instruction_hit_order(&hits, 2, 0), vec![0, 2, 3, 1]);
    assert_eq!(instruction_hit_order(&hits, 0, 1), vec![1, 0, 2, 3]);
    assert_eq!(instruction_hit_order(&hits, 0, 2), vec![3, 0, 2, 1]);
}

#[test]
fn clearing_caught_instructions_says_whether_the_debugger_runs() {
    let mut d = instruction_watch_dialog(0x10, false, Ok(()));
    d.hits = vec![hit(0x10, "nop", 1)];
    d.selected = Some(0);
    d.clear_captured(true);
    assert!(d.hits.is_empty());
    assert_eq!(d.selected, None);
    assert_eq!(d.status, "Capture cleared; perform only the target action now");
    d.clear_captured(false);
    assert_eq!(d.status, "Captured instructions cleared");
}

use memory_panel::watch_events::{WatchEvent, WatchReaction};

#[test]
fn access_hits_are_counted_in_address_order() {
    let mut d = CodeAccessDialog::opened(0, 0x401000, "Watching".to_owned(), ScanValueType::I32);
    let r = d.apply_access_event(WatchEvent::Started { armed_threads: 3, total_threads: 4 }, true, None);
    assert_eq!(r, WatchReaction::Continue);
    assert_eq!(d.status, "Debugger running \u{2014} 3/4 thread(s) armed");
    d.apply_access_event(WatchEvent::AccessHit { data_address: 0x200 }, true, Some("7".to_owned()));
    d.selected = Some(0);
    d.apply_access_event(WatchEvent::AccessHit { data_address: 0x100 }, true, None);
    d.apply_access_event(WatchEvent::AccessHit { data_address: 0x200 }, true, Some("8".to_owned()));
    assert_eq!(d.addresses, vec![(0x100, 1), (0x200, 2)]);
    assert_eq!(d.selected, Some(1));
    assert_eq!(d.values.get(&0x200), Some(&"8".to_owned()));
    assert_eq!(d.values.get(&0x100), None);
    assert_eq!(d.status, "3 hit(s), 2 address(es)");
}

#[test]
fn access_watch_stops_after_the_first_hit_when_asked() {
    let mut d = CodeAccessDialog::opened(0, 0x401000, "Watching".to_owned(), ScanValueType::I32);
    d.auto_stop_on_hit = true;
    let r = d.apply_access_event(WatchEvent::AccessHit { data_address: 0x10 }, true, None);
    assert_eq!(r, WatchReaction::StopDebugger);
    assert_eq!(d.status, "First address captured \u{2014} debugger detached safely");
    let r = d.apply_access_event(WatchEvent::CaptureLimitReached(5), false, None);
    assert_eq!(r, WatchReaction::Continue);
    assert_eq!(d.status, "Debugger safely stopped after 5 accesses");
    let r = d.apply_access_event(WatchEvent::Error("lost".to_owned()), false, None);
    assert_eq!(r, WatchReaction::DebuggerEnded);
    assert_eq!(d.status, "Debugger stopped: lost");
    assert_eq!(d.apply_access_event(WatchEvent::Stopped, false, None), WatchReaction::DebuggerEnded);
    assert_eq!(d.status, "Debugger stopped");
}

#[test]
fn instruction_hits_are_counted_and_kept_to_sixty_four() {
    let mut d = instruction_watch_dialog(0x5000, true, Ok(()));
    let ev = |a: usize, t: &str| WatchEvent::AddressHit { instruction_address: a, instruction: t.to_owned(), details: format!("at {a}") };
    d.apply_instruction_event(ev(0x30, "mov [rax], ecx"), true);
    d.apply_instruction_event(ev(0x10, "add [rax], 1"), true);
    d.selected = Some(1);
    d.apply_instruction_event(ev(0x30, "mov [rax], edx"), true);
    assert_eq!(d.hits.len(), 2);
    assert_eq!(d.hits[0].address, 0x10);
    assert_eq!(d.hits[1].count, 2);
    assert_eq!(d.hits[1].instruction, "mov [rax], edx");
    assert_eq!(d.selected, Some(1));
    assert_eq!(d.status, "3 hit(s), 2 instruction(s)");
    for a in 0..70usize {
        d.apply_instruction_event(ev(0x100 + a, "nop"), true);
    }
    assert_eq!(d.hits.len(), 64);
    d.apply_instruction_event(WatchEvent::Error("gone".to_owned()), true);
    d.apply_instruction_event(WatchEvent::Stopped, false);
    assert_eq!(d.status, "Debugger stopped: gone");
    d.status = "Running".to_owned();
    d.apply_instruction_event(WatchEvent::Stopped, false);
    assert_eq!(d.status, "Debugger stopped");
}
