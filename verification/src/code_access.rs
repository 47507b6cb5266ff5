//! The code-access dialog: the addresses an instruction of the code list touched while a
//! debugger watched it, their current values, and saving one of them as a tracked entry of
//! the saved-address library.
use vstd::prelude::*;
use vstd::std_specs::hash::obeys_key_model;
use std::collections::HashMap;
use crate::scan::{format_scan_value, memory_type_config, scan_text_spec, type_config, ScanValue, ScanValueType};
use crate::address::{parse_signed_hex_offset, signed_hex_offset_spec};
use crate::library::{entries_view, eq_ignore_ascii_case, str_eq_ignore_ascii_case, string_opt, MemoryPointerEntry, PointerEntryView};
use crate::panel::{AppState, CrosshairApp, MemoryPanelState};
use crate::results::code_address_added;
use crate::hit_table::InstructionHit;
use crate::number::{hex_digits, push_hex_digits};
use crate::text::{chars_of, owned, push_str, string_of, trim, trim_bounds};

verus! {

broadcast use vstd::std_specs::hash::group_hash_axioms;

/// The dialog that lists what one instruction of the code list accessed.
pub struct CodeAccessDialog {
    /// The entry of the code list being watched.
    pub code_index: usize,
    pub instruction_address: usize,
    pub status: String,
    /// Each address the instruction accessed, with how often.
    pub addresses: Vec<(usize, usize)>,
    pub pinned: bool,
    /// The row of `addresses` that is selected.
    pub selected: Option<usize>,
    pub value_type: ScanValueType,
    /// The value text shown for each address.
    pub values: HashMap<usize, String>,
    pub tracked_name: String,
    /// The hexadecimal offset from the selected address to the tracked one.
    pub tracked_offset: String,
    pub save_tracked: bool,
    pub auto_stop_on_hit: bool,
    pub hits_sort: u8,
    pub value_sort: u8,
    pub value_search: String,
    pub value_filter_enabled: bool,
    pub value_filter_min: String,
    pub value_filter_max: String,
}

/// Whether `d` is the dialog as first opened for code entry `code_index` at
/// `instruction_address`, showing `status`: pinned, nothing listed or selected, tracked
/// offset `0`, no sorting or filtering.
pub open spec fn opened_dialog(d: CodeAccessDialog, code_index: usize, instruction_address: usize, status: Seq<char>, value_type: ScanValueType) -> bool {
    &&& d.code_index == code_index
    &&& d.instruction_address == instruction_address
    &&& d.status@ == status
    &&& d.addresses@.len() == 0
    &&& d.pinned
    &&& d.selected is None
    &&& d.value_type == value_type
    &&& d.values@ == Map::<usize, String>::empty()
    &&& d.tracked_name@ == Seq::<char>::empty()
    &&& d.tracked_offset@ == "0"@
    &&& !d.save_tracked
    &&& !d.auto_stop_on_hit
    &&& d.hits_sort == 0
    &&& d.value_sort == 0
    &&& d.value_search@ == Seq::<char>::empty()
    &&& !d.value_filter_enabled
    &&& d.value_filter_min@ == Seq::<char>::empty()
    &&& d.value_filter_max@ == Seq::<char>::empty()
}

impl CodeAccessDialog {
    /// The dialog as first opened, showing `status`.
    pub fn opened(code_index: usize, instruction_address: usize, status: String, value_type: ScanValueType) -> (d: Self)
        ensures
            opened_dialog(d, code_index, instruction_address, status@, value_type),
    {
        CodeAccessDialog {
            code_index,
            instruction_address,
            status,
            addresses: Vec::new(),
            pinned: true,
            selected: None,
            value_type,
            values: HashMap::new(),
            tracked_name: String::new(),
            tracked_offset: owned("0"),
            save_tracked: false,
            auto_stop_on_hit: false,
            hits_sort: 0,
            value_sort: 0,
            value_search: String::new(),
            value_filter_enabled: false,
            value_filter_min: String::new(),
            value_filter_max: String::new(),
        }
    }
}

/// A value read from the process, with its decimal text when it is a float: that text is
/// written in floating point by the caller.
pub struct ValueRead {
    pub value: ScanValue,
    pub float_text: Option<String>,
}

/// How the panel writes a value read: as `format_scan_value` does, a float in decimal by
/// its given text, or empty without one.
pub open spec fn value_text_spec(v: ScanValue, hex: bool, float_text: Option<Seq<char>>) -> Seq<char> {
    match scan_text_spec(v, hex) {
        Some(t) => t,
        None => match float_text {
            Some(t) => t,
            None => Seq::empty(),
        },
    }
}

/// The text of a value read.
pub fn value_text(read: &ValueRead, hex: bool) -> (s: String)
    ensures
        s@ == value_text_spec(read.value, hex, string_opt(read.float_text)),
{
    match format_scan_value(read.value, hex) {
        Some(t) => t,
        None => match &read.float_text {
            Some(t) => t.clone(),
            None => String::new(),
        },
    }
}

/// The value text of each address after a refresh: for `i` below `n` in order, the text of
/// `reads[i]` at the address of row `i` when it was read.
pub open spec fn refreshed_values(addresses: Seq<(usize, usize)>, reads: Seq<Option<ValueRead>>, hex: bool, n: nat) -> Map<usize, Seq<char>>
    decreases n,
{
    if n == 0 {
        Map::empty()
    } else {
        let m = refreshed_values(addresses, reads, hex, (n - 1) as nat);
        match reads[n - 1] {
            Some(r) => m.insert(addresses[n - 1].0, value_text_spec(r.value, hex, string_opt(r.float_text))),
            None => m,
        }
    }
}

/// The characters of each text of a value map.
pub open spec fn texts_view(m: Map<usize, String>) -> Map<usize, Seq<char>> {
    m.map_values(|t: String| t@)
}

impl CrosshairApp {
    /// Reads again the value of every listed address: `reads[i]` is what was read at the
    /// address of row `i`. Without a process the dialog asks for the restarted process.
    pub fn refresh_code_access_values(&self, dialog: &mut CodeAccessDialog, reads: &[Option<ValueRead>])
        requires
            reads@.len() == old(dialog).addresses@.len(),
        ensures
            self.memory_panel.process_pid is None ==> {
                &&& final(dialog).status@ == "Select the restarted process before refreshing values"@
                &&& *final(dialog) == (CodeAccessDialog { status: final(dialog).status, ..*old(dialog) })
            },
            self.memory_panel.process_pid is Some ==> {
                &&& texts_view(final(dialog).values@) == refreshed_values(old(dialog).addresses@, reads@, self.memory_panel.hex, reads@.len())
                &&& *final(dialog) == (CodeAccessDialog { values: final(dialog).values, ..*old(dialog) })
            },
    {
        if self.memory_panel.process_pid.is_none() {
            dialog.status = owned("Select the restarted process before refreshing values");
            return;
        }
        let hex = self.memory_panel.hex;
        let mut values: HashMap<usize, String> = HashMap::new();
        let mut i: usize = 0;
        while i < reads.len()
            invariant
                i <= reads@.len(),
                reads@.len() == dialog.addresses@.len(),
                *dialog == *old(dialog),
                texts_view(values@) == refreshed_values(dialog.addresses@, reads@, hex, i as nat),
            decreases reads@.len() - i,
        {
            if let Some(read) = &reads[i] {
                let text = value_text(read, hex);
                let ghost before = values@;
                assert(obeys_key_model::<usize>());
                values.insert(dialog.addresses[i].0, text);
                assert(texts_view(values@) =~= texts_view(before).insert(dialog.addresses@[i as int].0, text@));
            }
            i = i + 1;
        }
        dialog.values = values;
    }
}

/// What the selected row and the tracked offset give: no selected row, an offset that does
/// not read, an address outside `usize`, or the address tracked from the captured one.
pub enum TrackedTarget {
    NotSelected,
    InvalidOffset,
    Overflow,
    At { captured: usize, offset: isize, address: usize },
}

/// Whether the tracked offset text, when it reads, fits in `isize`.
pub open spec fn tracked_offset_fits(d: CodeAccessDialog) -> bool {
    match signed_hex_offset_spec(d.tracked_offset@) {
        Some(v) => isize::MIN <= v <= isize::MAX,
        None => true,
    }
}

/// The address tracked from the selected row of `d`.
pub open spec fn tracked_target_spec(d: CodeAccessDialog) -> TrackedTarget {
    if d.selected is None || d.selected.unwrap() >= d.addresses@.len() {
        TrackedTarget::NotSelected
    } else {
        let captured = d.addresses@[d.selected.unwrap() as int].0;
        match signed_hex_offset_spec(d.tracked_offset@) {
            None => TrackedTarget::InvalidOffset,
            Some(off) => if 0 <= captured + off <= usize::MAX {
                TrackedTarget::At { captured, offset: off as isize, address: (captured + off) as usize }
            } else {
                TrackedTarget::Overflow
            },
        }
    }
}

/// The address tracked from the selected row of the dialog, by its signed offset.
pub fn tracked_code_target(dialog: &CodeAccessDialog) -> (t: TrackedTarget)
    requires
        tracked_offset_fits(*dialog),
    ensures
        t == tracked_target_spec(*dialog),
{
    let index = match dialog.selected {
        Some(i) => i,
        None => return TrackedTarget::NotSelected,
    };
    if index >= dialog.addresses.len() {
        return TrackedTarget::NotSelected;
    }
    let captured = dialog.addresses[index].0;
    let offset = match parse_signed_hex_offset(dialog.tracked_offset.as_str()) {
        Some(o) => o,
        None => return TrackedTarget::InvalidOffset,
    };
    let sum: i128 = captured as i128 + offset as i128;
    if 0 <= sum && sum <= usize::MAX as i128 {
        TrackedTarget::At { captured, offset, address: sum as usize }
    } else {
        TrackedTarget::Overflow
    }
}

/// The library entry saved for an address tracked from an instruction of the code list.
pub open spec fn tracked_entry(
    name: Seq<char>,
    app_name: Seq<char>,
    value_type: ScanValueType,
    code_module: Seq<char>,
    code_offset: usize,
    offset: isize,
    address: usize,
    pid: Option<u32>,
    tracked_value: Seq<char>,
    signature: Seq<char>,
) -> PointerEntryView {
    PointerEntryView {
        name,
        group: Seq::empty(),
        hexadecimal: false,
        app_name,
        module: Seq::empty(),
        module_offset: 0,
        offsets: Seq::empty(),
        value_type: type_config(value_type),
        absolute_address: None,
        code_module,
        code_offset,
        code_address_offset: offset,
        runtime_address: Some(address),
        runtime_process_id: pid,
        tracked_value,
        tracked_signature: signature,
    }
}

/// Whether entry `i` is the first of `list` named `name`, ignoring ASCII case.
pub open spec fn first_named(list: Seq<PointerEntryView>, name: Seq<char>, i: int) -> bool {
    &&& 0 <= i < list.len()
    &&& eq_ignore_ascii_case(list[i].name, name)
    &&& forall|k: int| 0 <= k < i ==> !eq_ignore_ascii_case(#[trigger] list[k].name, name)
}

/// Whether `after` is `before` with `e` in place of the first entry of the same name,
/// ignoring ASCII case, or with `e` appended when no entry has that name.
pub open spec fn upserted_by_name(before: Seq<PointerEntryView>, after: Seq<PointerEntryView>, e: PointerEntryView) -> bool {
    ||| exists|i: int| first_named(before, e.name, i) && after == before.update(i, e)
    ||| (forall|k: int| 0 <= k < before.len() ==> !eq_ignore_ascii_case(#[trigger] before[k].name, e.name))
        && after == before.push(e)
}

/// Writes `e` over the first entry of the same name, or appends it.
fn upsert_by_name(list: &mut Vec<MemoryPointerEntry>, e: MemoryPointerEntry)
    ensures
        upserted_by_name(entries_view(old(list)@), entries_view(final(list)@), e@),
{
    let ghost lv = entries_view(list@);
    let mut i: usize = 0;
    while i < list.len()
        invariant
            i <= list@.len(),
            lv == entries_view(list@),
            *list == *old(list),
            forall|k: int| 0 <= k < i ==> !eq_ignore_ascii_case(#[trigger] lv[k].name, e@.name),
        decreases list@.len() - i,
    {
        if str_eq_ignore_ascii_case(list[i].name.as_str(), e.name.as_str()) {
            let ghost ev = e@;
            assert(first_named(lv, ev.name, i as int));
            list.set(i, e);
            assert(entries_view(list@) =~= lv.update(i as int, ev));
            return;
        }
        i = i + 1;
    }
    let ghost ev = e@;
    list.push(e);
    assert(entries_view(list@) =~= lv.push(ev));
}

/// The status after an address was tracked: its name, the instruction's module and offset,
/// the signed offset as `{:+X}` writes it, and whether an object signature was captured.
pub open spec fn tracked_status(name: Seq<char>, code_module: Seq<char>, code_offset: usize, offset: isize, signature_saved: bool) -> Seq<char> {
    "Tracked address @"@ + name + " saved - "@ + code_module + "+"@ + hex_digits(code_offset as nat) + " @ +"@
        + hex_digits((offset as usize) as nat) + if signature_saved {
        " (object signature captured)"@
    } else {
        " (object signature unavailable)"@
    }
}

/// The text of `t` trimmed.
fn trimmed(t: &str) -> (s: String)
    ensures
        s@ == trim(t@),
{
    let v = chars_of(t);
    assert(v@.subrange(0, v@.len() as int) == v@);
    let (a, b) = trim_bounds(&v, 0, v.len());
    string_of(&v, a, b)
}

/// What the library entry records as its application: the first module of the selected
/// process when it could be listed, else the instruction's module.
pub open spec fn tracked_app_name(pid: Option<u32>, first_module: Option<Seq<char>>, code_module: Seq<char>) -> Seq<char> {
    match (pid, first_module) {
        (Some(_), Some(m)) => m,
        _ => code_module,
    }
}

impl CrosshairApp {
    /// Saves the address tracked from the selected row as a library entry named by the
    /// dialog (replacing an entry of that name), saves a row for it, and reports it.
    /// `first_module` is the first module of the selected process, `read` the value read at
    /// the tracked address, and `signature` the object signature found around the captured
    /// address, each when it could be had.
    pub fn save_tracked_code_address(
        &mut self,
        dialog: &mut CodeAccessDialog,
        first_module: Option<String>,
        read: Option<ValueRead>,
        signature: Option<String>,
    )
        requires
            tracked_offset_fits(*old(dialog)),
        ensures
            match tracked_target_spec(*old(dialog)) {
                TrackedTarget::NotSelected => *final(self) == *old(self) && *final(dialog) == *old(dialog),
                TrackedTarget::InvalidOffset => {
                    &&& *final(self) == *old(self)
                    &&& final(dialog).status@ == "Invalid tracked offset; use hex such as 4, C, or -4"@
                    &&& *final(dialog) == (CodeAccessDialog { status: final(dialog).status, ..*old(dialog) })
                },
                TrackedTarget::Overflow => {
                    &&& *final(self) == *old(self)
                    &&& final(dialog).status@ == "Tracked address overflow"@
                    &&& *final(dialog) == (CodeAccessDialog { status: final(dialog).status, ..*old(dialog) })
                },
                TrackedTarget::At { captured, offset, address } => if old(dialog).code_index >= old(self).state.memory_code_list@.len() {
                    *final(self) == *old(self) && *final(dialog) == *old(dialog)
                } else {
                    let code = old(self).state.memory_code_list@[old(dialog).code_index as int];
                    let pid = old(self).memory_panel.process_pid;
                    let name = trim(old(dialog).tracked_name@);
                    let value_text = match (pid, read) {
                        (Some(_), Some(r)) => value_text_spec(r.value, false, string_opt(r.float_text)),
                        _ => Seq::empty(),
                    };
                    let sig = match (pid, signature) {
                        (Some(_), Some(s)) => s@,
                        _ => Seq::empty(),
                    };
                    let e = tracked_entry(
                        name,
                        tracked_app_name(pid, string_opt(first_module), code.module@),
                        old(dialog).value_type,
                        code.module@,
                        code.offset,
                        offset,
                        address,
                        pid,
                        value_text,
                        sig,
                    );
                    let mid = CrosshairApp {
                        state: AppState { memory_pointer_list: final(self).state.memory_pointer_list, ..old(self).state },
                        ..*old(self)
                    };
                    &&& upserted_by_name(entries_view(old(self).state.memory_pointer_list@), entries_view(final(self).state.memory_pointer_list@), e)
                    &&& code_address_added(mid, *final(self), address, old(dialog).value_type, match read {
                        Some(r) => Some(r.value),
                        None => None,
                    })
                    &&& final(dialog).status@ == tracked_status(name, code.module@, code.offset, offset, pid is Some && signature is Some)
                    &&& *final(dialog) == (CodeAccessDialog { status: final(dialog).status, ..*old(dialog) })
                },
            },
    {
        let (offset, address) = match tracked_code_target(dialog) {
            TrackedTarget::NotSelected => return,
            TrackedTarget::InvalidOffset => {
                dialog.status = owned("Invalid tracked offset; use hex such as 4, C, or -4");
                return;
            },
            TrackedTarget::Overflow => {
                dialog.status = owned("Tracked address overflow");
                return;
            },
            TrackedTarget::At { captured: _, offset, address } => (offset, address),
        };
        if dialog.code_index >= self.state.memory_code_list.len() {
            return;
        }
        let code_module = self.state.memory_code_list[dialog.code_index].module.clone();
        let code_offset = self.state.memory_code_list[dialog.code_index].offset;
        let name = trimmed(dialog.tracked_name.as_str());
        let pid = self.memory_panel.process_pid;
        let app_name = match (pid, first_module) {
            (Some(_), Some(m)) => m,
            _ => code_module.clone(),
        };
        let tracked_value = match (pid, &read) {
            (Some(_), Some(r)) => value_text(r, false),
            _ => String::new(),
        };
        let signature_saved = pid.is_some() && signature.is_some();
        let tracked_signature = match (pid, signature) {
            (Some(_), Some(s)) => s,
            _ => String::new(),
        };
        let entry = MemoryPointerEntry {
            name: name.clone(),
            group: String::new(),
            hexadecimal: false,
            app_name,
            module: String::new(),
            module_offset: 0,
            offsets: Vec::new(),
            value_type: owned(memory_type_config(dialog.value_type)),
            absolute_address: None,
            code_module: code_module.clone(),
            code_offset,
            code_address_offset: offset,
            runtime_address: Some(address),
            runtime_process_id: pid,
            tracked_value,
            tracked_signature,
        };
        upsert_by_name(&mut self.state.memory_pointer_list, entry);
        let saved_read = match read {
            Some(r) => Some(r.value),
            None => None,
        };
        self.add_code_access_address(address, dialog.value_type, saved_read);
        let mut status = owned("Tracked address @");
        push_str(&mut status, name.as_str());
        push_str(&mut status, " saved - ");
        push_str(&mut status, code_module.as_str());
        push_str(&mut status, "+");
        push_hex_digits(&mut status, code_offset as u64);
        push_str(&mut status, " @ +");
        push_hex_digits(&mut status, (offset as usize) as u64);
        if signature_saved {
            push_str(&mut status, " (object signature captured)");
        } else {
            push_str(&mut status, " (object signature unavailable)");
        }
        dialog.status = status;
    }
}

/// Whether a started debugger is reported as attaching, or the error it gave.
pub open spec fn watch_start_status(started: Result<(), String>) -> Seq<char> {
    match started {
        Ok(_) => "Attaching debugger…"@,
        Err(e) => "Unable to start debugger: "@ + e@,
    }
}

fn watch_start_text(started: Result<(), String>) -> (s: String)
    ensures
        s@ == watch_start_status(started),
{
    match started {
        Ok(_) => owned("Attaching debugger…"),
        Err(e) => {
            let mut s = owned("Unable to start debugger: ");
            push_str(&mut s, e.as_str());
            s
        },
    }
}

/// What checking the saved anchor of a code entry gave: its module did not resolve, the
/// instruction there is no longer the saved one (the dialog says so), or the watch can
/// start at the resolved address.
pub enum CodeAnchor {
    Unresolved,
    Stale,
    Ready(usize),
}

/// The status of a dialog whose anchor is stale: the saved instruction and the one found.
pub open spec fn stale_anchor_status(expected: Seq<char>, current: Option<Seq<char>>) -> Seq<char> {
    "Stale code anchor - expected '"@ + expected + "', found '"@ + match current {
        Some(c) => c,
        None => "unreadable code"@,
    } + "'"@
}

impl CrosshairApp {
    /// Whether watching the accesses of code entry `code_index` can begin: a process is
    /// selected, the debugger method is not the vectored-exception one (`veh`), which needs
    /// a helper that is not available, and the entry exists. The status says which of the
    /// first two is missing.
    pub fn open_code_access_watch(&mut self, code_index: usize, veh: bool) -> (go: bool)
        ensures
            go == (old(self).memory_panel.process_pid is Some && !veh && code_index < old(self).state.memory_code_list@.len()),
            old(self).memory_panel.process_pid is None ==> final(self).memory_panel.status@ == "Select a process"@,
            old(self).memory_panel.process_pid is Some && veh ==> final(self).memory_panel.status@
                == "VEH debugger requires the injected helper and is not available yet"@,
            *final(self) == (CrosshairApp {
                memory_panel: crate::panel::MemoryPanelState { status: final(self).memory_panel.status, ..old(self).memory_panel },
                ..*old(self)
            }),
            old(self).memory_panel.process_pid is Some && !veh ==> *final(self) == *old(self),
    {
        if self.memory_panel.process_pid.is_none() {
            self.memory_panel.status = owned("Select a process");
            return false;
        }
        if veh {
            self.memory_panel.status = owned("VEH debugger requires the injected helper and is not available yet");
            return false;
        }
        code_index < self.state.memory_code_list.len()
    }

    /// Checks the anchor of code entry `code_index` before watching it: `resolved` is the
    /// address its module and offset resolved to, `current` the instruction disassembled
    /// there, and `compatible` whether that instruction matches the saved one.
    pub fn check_code_anchor(&mut self, code_index: usize, resolved: Result<usize, String>, current: Option<String>, compatible: bool) -> (r: CodeAnchor)
        requires
            code_index < old(self).state.memory_code_list@.len(),
        ensures
            match resolved {
                Err(e) => {
                    &&& r is Unresolved
                    &&& final(self).memory_panel.status@ == "Unable to resolve saved code: "@ + e@
                    &&& *final(self) == (CrosshairApp {
                        memory_panel: crate::panel::MemoryPanelState { status: final(self).memory_panel.status, ..old(self).memory_panel },
                        ..*old(self)
                    })
                },
                Ok(a) => if current is None || !compatible {
                    let d = final(self).memory_panel.code_access_dialog.unwrap();
                    &&& r is Stale
                    &&& final(self).memory_panel.code_access_dialog is Some
                    &&& opened_dialog(d, code_index, a, stale_anchor_status(
                        old(self).state.memory_code_list@[code_index as int].instruction@,
                        string_opt(current),
                    ), old(self).memory_panel.value_type)
                    &&& *final(self) == (CrosshairApp {
                        memory_panel: MemoryPanelState { code_access_dialog: Some(d), ..old(self).memory_panel },
                        ..*old(self)
                    })
                } else {
                    &&& r == CodeAnchor::Ready(a)
                    &&& *final(self) == (CrosshairApp { memory_panel: debuggers_closed(old(self).memory_panel), ..*old(self) })
                },
            },
    {
        let address = match resolved {
            Ok(a) => a,
            Err(e) => {
                let mut s = owned("Unable to resolve saved code: ");
                push_str(&mut s, e.as_str());
                self.memory_panel.status = s;
                return CodeAnchor::Unresolved;
            },
        };
        if current.is_some() && compatible {
            self.close_memory_debuggers();
            return CodeAnchor::Ready(address);
        }
        let mut s = owned("Stale code anchor - expected '");
        push_str(&mut s, self.state.memory_code_list[code_index].instruction.as_str());
        push_str(&mut s, "', found '");
        match &current {
            Some(c) => push_str(&mut s, c.as_str()),
            None => push_str(&mut s, "unreadable code"),
        }
        push_str(&mut s, "'");
        let d = CodeAccessDialog::opened(code_index, address, s, self.memory_panel.value_type);
        self.memory_panel.code_access_dialog = Some(d);
        CodeAnchor::Stale
    }

    /// The dialog of a watch started on code entry `code_index` at `instruction_address`;
    /// `started` is what starting the debugger gave.
    pub fn code_access_watch_dialog(&self, code_index: usize, instruction_address: usize, started: Result<(), String>) -> (d: CodeAccessDialog)
        ensures
            opened_dialog(d, code_index, instruction_address, watch_start_status(started), self.memory_panel.value_type),
    {
        CodeAccessDialog::opened(code_index, instruction_address, watch_start_text(started), self.memory_panel.value_type)
    }

    /// How a watch is restarted: `Some(true)` to stop at its first hit, `Some(false)` to keep
    /// watching; `None` without a process, which the dialog then asks for.
    pub fn restart_code_access_watch(&self, dialog: &mut CodeAccessDialog) -> (r: Option<bool>)
        ensures
            self.memory_panel.process_pid is None ==> {
                &&& r is None
                &&& final(dialog).status@ == "Select a process"@
                &&& *final(dialog) == (CodeAccessDialog { status: final(dialog).status, ..*old(dialog) })
            },
            self.memory_panel.process_pid is Some ==> r == Some(old(dialog).auto_stop_on_hit) && *final(dialog) == *old(dialog),
    {
        if self.memory_panel.process_pid.is_none() {
            dialog.status = owned("Select a process");
            return None;
        }
        Some(dialog.auto_stop_on_hit)
    }
}

/// Reports in the dialog what restarting its debugger gave.
pub fn record_code_watch_start(dialog: &mut CodeAccessDialog, started: Result<(), String>)
    ensures
        final(dialog).status@ == watch_start_status(started),
        *final(dialog) == (CodeAccessDialog { status: final(dialog).status, ..*old(dialog) }),
{
    dialog.status = watch_start_text(started);
}

/// The dialog that lists the instructions that accessed, or wrote, one address.
pub struct InstructionWatchDialog {
    pub address: usize,
    pub writes_only: bool,
    pub status: String,
    pub selected: Option<usize>,
    pub pinned: bool,
    pub auto_stop_on_hit: bool,
    pub hits_sort: u8,
    pub instruction_sort: u8,
    /// The instructions caught, in order of address.
    pub hits: Vec<InstructionHit>,
}

/// Whether `d` is the dialog as opened on `address`, watching writes only unless
/// `reads_and_writes`, and showing `status`.
pub open spec fn opened_watch(d: InstructionWatchDialog, address: usize, reads_and_writes: bool, status: Seq<char>) -> bool {
    &&& d.address == address
    &&& d.writes_only == !reads_and_writes
    &&& d.status@ == status
    &&& d.selected is None
    &&& d.pinned
    &&& !d.auto_stop_on_hit
    &&& d.hits_sort == 0
    &&& d.instruction_sort == 0
    &&& d.hits@.len() == 0
}

impl CrosshairApp {
    /// Whether a debugger can start watching an address: a process is selected and the
    /// debugger method is not the vectored-exception one (`veh`). The status says which is
    /// missing. When it can, both debugger dialogs are closed first, their watches to be
    /// stopped.
    pub fn open_instruction_watch(&mut self, veh: bool) -> (go: bool)
        ensures
            go == (old(self).memory_panel.process_pid is Some && !veh),
            old(self).memory_panel.process_pid is None ==> final(self).memory_panel.status@ == "Select a process"@,
            old(self).memory_panel.process_pid is Some && veh ==> final(self).memory_panel.status@
                == "VEH debugger requires the injected helper and is not available yet"@,
            !go ==> *final(self) == (CrosshairApp {
                memory_panel: crate::panel::MemoryPanelState { status: final(self).memory_panel.status, ..old(self).memory_panel },
                ..*old(self)
            }),
            go ==> *final(self) == (CrosshairApp { memory_panel: debuggers_closed(old(self).memory_panel), ..*old(self) }),
    {
        if self.memory_panel.process_pid.is_none() {
            self.memory_panel.status = owned("Select a process");
            return false;
        }
        if veh {
            self.memory_panel.status = owned("VEH debugger requires the injected helper and is not available yet");
            return false;
        }
        self.close_memory_debuggers();
        true
    }

    /// Shows the dialog of the watch started on `address`, of reads and writes or of
    /// writes only; `started` is what starting the debugger gave.
    pub fn start_instruction_watch_dialog(&mut self, address: usize, reads_and_writes: bool, started: Result<(), String>)
        ensures
            final(self).memory_panel.instruction_watch_dialog is Some,
            opened_watch(final(self).memory_panel.instruction_watch_dialog.unwrap(), address, reads_and_writes, watch_start_status(started)),
            *final(self) == (CrosshairApp {
                memory_panel: MemoryPanelState {
                    instruction_watch_dialog: final(self).memory_panel.instruction_watch_dialog,
                    ..old(self).memory_panel
                },
                ..*old(self)
            }),
    {
        let d = instruction_watch_dialog(address, reads_and_writes, started);
        self.memory_panel.instruction_watch_dialog = Some(d);
    }

    /// Shows the dialog of the watch started on code entry `code_index` at
    /// `instruction_address`; `started` is what starting the debugger gave.
    pub fn start_code_access_dialog(&mut self, code_index: usize, instruction_address: usize, started: Result<(), String>)
        ensures
            final(self).memory_panel.code_access_dialog is Some,
            opened_dialog(final(self).memory_panel.code_access_dialog.unwrap(), code_index, instruction_address,
                watch_start_status(started), old(self).memory_panel.value_type),
            *final(self) == (CrosshairApp {
                memory_panel: MemoryPanelState {
                    code_access_dialog: final(self).memory_panel.code_access_dialog,
                    ..old(self).memory_panel
                },
                ..*old(self)
            }),
    {
        let d = self.code_access_watch_dialog(code_index, instruction_address, started);
        self.memory_panel.code_access_dialog = Some(d);
    }
}

/// The dialog of a watch started on `address`; `started` is what starting the debugger gave.
pub fn instruction_watch_dialog(address: usize, reads_and_writes: bool, started: Result<(), String>) -> (d: InstructionWatchDialog)
    ensures
        opened_watch(d, address, reads_and_writes, watch_start_status(started)),
{
    InstructionWatchDialog {
        address,
        writes_only: !reads_and_writes,
        status: watch_start_text(started),
        selected: None,
        pinned: true,
        auto_stop_on_hit: false,
        hits_sort: 0,
        instruction_sort: 0,
        hits: Vec::new(),
    }
}

impl CrosshairApp {
    /// How an instruction watch is restarted: `Some(true)` to watch reads and writes,
    /// `Some(false)` writes only; `None` without a process, which the dialog then asks for.
    pub fn restart_instruction_watch(&self, dialog: &mut InstructionWatchDialog) -> (r: Option<bool>)
        ensures
            self.memory_panel.process_pid is None ==> {
                &&& r is None
                &&& final(dialog).status@ == "Select a process"@
                &&& *final(dialog) == (InstructionWatchDialog { status: final(dialog).status, ..*old(dialog) })
            },
            self.memory_panel.process_pid is Some ==> r == Some(!old(dialog).writes_only) && *final(dialog) == *old(dialog),
    {
        if self.memory_panel.process_pid.is_none() {
            dialog.status = owned("Select a process");
            return None;
        }
        Some(!dialog.writes_only)
    }
}

/// Reports in the dialog what restarting its debugger gave.
pub fn record_instruction_watch_start(dialog: &mut InstructionWatchDialog, started: Result<(), String>)
    ensures
        final(dialog).status@ == watch_start_status(started),
        *final(dialog) == (InstructionWatchDialog { status: final(dialog).status, ..*old(dialog) }),
{
    dialog.status = watch_start_text(started);
}

/// The panel with both debugger dialogs closed.
pub open spec fn debuggers_closed(p: MemoryPanelState) -> MemoryPanelState {
    MemoryPanelState { code_access_dialog: None, instruction_watch_dialog: None, ..p }
}

impl CrosshairApp {
    /// Closes both debugger dialogs; says which were open, the instruction watch first,
    /// so that their watches can be stopped.
    pub fn close_memory_debuggers(&mut self) -> (closed: (bool, bool))
        ensures
            closed == (old(self).memory_panel.instruction_watch_dialog is Some, old(self).memory_panel.code_access_dialog is Some),
            *final(self) == (CrosshairApp { memory_panel: debuggers_closed(old(self).memory_panel), ..*old(self) }),
    {
        let closed = (self.memory_panel.instruction_watch_dialog.is_some(), self.memory_panel.code_access_dialog.is_some());
        self.memory_panel.instruction_watch_dialog = None;
        self.memory_panel.code_access_dialog = None;
        closed
    }

    /// Shows `dialog` as the code-access dialog, in place of any other.
    pub fn show_code_access_dialog(&mut self, dialog: CodeAccessDialog)
        ensures
            *final(self) == (CrosshairApp {
                memory_panel: MemoryPanelState { code_access_dialog: Some(dialog), ..old(self).memory_panel },
                ..*old(self)
            }),
    {
        self.memory_panel.code_access_dialog = Some(dialog);
    }

    /// Shows `dialog` as the instruction-watch dialog, in place of any other.
    pub fn show_instruction_watch_dialog(&mut self, dialog: InstructionWatchDialog)
        ensures
            *final(self) == (CrosshairApp {
                memory_panel: MemoryPanelState { instruction_watch_dialog: Some(dialog), ..old(self).memory_panel },
                ..*old(self)
            }),
    {
        self.memory_panel.instruction_watch_dialog = Some(dialog);
    }
}

} // verus!
