//! What the panel does when another process is selected, when the structure view
//! identifies its class, and when a field of it is tracked or added to the saved list.
use vstd::prelude::*;
use crate::address::{format_memory_address, format_prefixed_memory_address};
use crate::code_access::CodeAccessDialog;
use crate::memory_view::{MemoryViewDialog, StructureClass};
use crate::number::{dec_digits, hex_digits, hex_padded, push_dec_digits, push_hex_digits, push_hex_digits_wide};
use crate::panel::{CrosshairApp, MemoryPanelState};
use crate::probe::StructureIdentity;
use crate::results::scan_cleared;
use crate::saved::SavedMemoryAddress;
use crate::scan::{ScanValue, ScanValueType};
use crate::structure::{default_elements, default_structure_elements};
use crate::text::{chars_of, has_prefix, owned, push_str, trim, trim_bounds};

verus! {

/// The status after selecting process `pid`, or failing to open it.
pub open spec fn selected_status(pid: Option<u32>) -> Seq<char> {
    match pid {
        Some(p) => "Process selected \u{2014} PID "@ + dec_digits(p as nat),
        None => "Unable to open selected process"@,
    }
}

impl CrosshairApp {
    /// Selects process `pid` (`None` when it could not be opened). Another process than
    /// the one selected drops the scan, the values read and frozen in the saved rows, the
    /// saved selection and the value being edited. The status names the process.
    pub fn select_memory_process(&mut self, pid: Option<u32>)
        ensures
            final(self).state == old(self).state,
            final(self).capture_hotkey_combo_keys == old(self).capture_hotkey_combo_keys,
            final(self).capture_hotkey_combo_vks == old(self).capture_hotkey_combo_vks,
            final(self).memory_panel.process_pid == pid,
            final(self).memory_panel.status@ == selected_status(pid),
            ({
                let p = old(self).memory_panel;
                let q = final(self).memory_panel;
                if p.process_pid == pid {
                    q == (MemoryPanelState { status: q.status, ..p })
                } else {
                    &&& scan_cleared(p, MemoryPanelState {
                        status: q.last_action,
                        process_pid: p.process_pid,
                        saved: p.saved,
                        selected_saved: p.selected_saved,
                        saved_selection_anchor: p.saved_selection_anchor,
                        edit_value_index: p.edit_value_index,
                        ..q
                    }, "Process changed"@)
                    &&& q.selected_saved@ == Set::<usize>::empty()
                    &&& q.saved_selection_anchor is None
                    &&& q.edit_value_index is None
                    &&& q.saved@.len() == p.saved@.len()
                    &&& forall|i: int| 0 <= i < p.saved@.len() ==> #[trigger] q.saved@[i]
                        == (SavedMemoryAddress { current: None, frozen: None, ..p.saved@[i] })
                }
            }),
    {
        if self.memory_panel.process_pid != pid {
            self.reset_memory_scan("Process changed");
            let ghost mid = self.memory_panel;
            let ghost rows = self.memory_panel.saved@;
            let mut i: usize = 0;
            while i < self.memory_panel.saved.len()
                invariant
                    i <= self.memory_panel.saved@.len(),
                    self.memory_panel.saved@.len() == rows.len(),
                    forall|k: int| 0 <= k < i ==> #[trigger] self.memory_panel.saved@[k]
                        == (SavedMemoryAddress { current: None, frozen: None, ..rows[k] }),
                    forall|k: int| i <= k < rows.len() ==> #[trigger] self.memory_panel.saved@[k] == rows[k],
                    self.memory_panel == (MemoryPanelState { saved: self.memory_panel.saved, ..mid }),
                    self.state == old(self).state,
                    self.capture_hotkey_combo_keys == old(self).capture_hotkey_combo_keys,
                    self.capture_hotkey_combo_vks == old(self).capture_hotkey_combo_vks,
                decreases rows.len() - i,
            {
                self.memory_panel.saved[i].current = None;
                self.memory_panel.saved[i].frozen = None;
                i = i + 1;
            }
            self.memory_panel.selected_saved = std::collections::HashSet::new();
            self.memory_panel.saved_selection_anchor = None;
            self.memory_panel.edit_value_index = None;
            assert(scan_cleared(old(self).memory_panel, mid, "Process changed"@));
        }
        self.memory_panel.process_pid = pid;
        self.memory_panel.status = match pid {
            Some(p) => {
                let mut s = owned("Process selected \u{2014} PID ");
                push_dec_digits(&mut s, p as u64);
                s
            },
            None => owned("Unable to open selected process"),
        };
    }
}

/// Whether a class name is one the view gave itself: `Class_0`, or `Unknown @` and an
/// address.
pub open spec fn generated_class_name(n: Seq<char>) -> bool {
    n == "Class_0"@ || has_prefix(n, "Unknown @"@)
}

/// Whether `v` begins with `p`.
fn begins_with(v: &Vec<char>, p: &Vec<char>) -> (r: bool)
    ensures
        r == has_prefix(v@, p@),
{
    if p.len() > v.len() {
        return false;
    }
    let mut i: usize = 0;
    while i < p.len()
        invariant
            p@.len() <= v@.len(),
            i <= p@.len(),
            forall|k: int| 0 <= k < i ==> v@[k] == p@[k],
        decreases p@.len() - i,
    {
        if v[i] != p[i] {
            assert(v@.subrange(0, p@.len() as int)[i as int] != p@[i as int]);
            return false;
        }
        i = i + 1;
    }
    assert(v@.subrange(0, p@.len() as int) =~= p@);
    true
}

/// Whether the classes `after` are `before` with class `k` (when there is one) replaced
/// by one satisfying `changed`, and the others kept.
pub open spec fn only_class_changed(before: Seq<StructureClass>, after: Seq<StructureClass>, k: usize) -> bool {
    &&& after.len() == before.len()
    &&& forall|j: int| 0 <= j < before.len() && j != k ==> #[trigger] after[j] == before[j]
}

impl MemoryViewDialog {
    /// Names the view's class from what identifying the structure at its address gave:
    /// `process_selected` says whether a process is selected, and `identity` is the class
    /// found, at the base of its object. Found, the active class takes its name and base,
    /// the view moves there, and when that is another address both start from the default
    /// fields; the status gives the evidence. Not found, an active class still named as the
    /// view named it becomes `Unknown @` and the address, and the status says that fields
    /// must be mapped by hand.
    pub fn identify_structure_class(&mut self, process_selected: bool, identity: Option<StructureIdentity>)
        ensures
            !process_selected ==> {
                &&& final(self).class_detection_status@ == "Select a process to identify this class"@
                &&& *final(self) == (MemoryViewDialog { class_detection_status: final(self).class_detection_status, ..*old(self) })
            },
            process_selected ==> only_class_changed(old(self).classes@, final(self).classes@, old(self).selected_class),
            process_selected && identity is None ==> {
                let k = old(self).selected_class as int;
                &&& final(self).class_detection_status@
                    == "No usable RTTI or vtable was found; field names must be mapped manually"@
                &&& *final(self) == (MemoryViewDialog {
                    classes: final(self).classes,
                    class_detection_status: final(self).class_detection_status,
                    ..*old(self)
                })
                &&& k < old(self).classes@.len() ==> if generated_class_name(old(self).classes@[k].name@) {
                    &&& final(self).classes@[k].name@ == "Unknown @ "@ + hex_padded(old(self).address as nat, 8)
                    &&& final(self).classes@[k] == (StructureClass { name: final(self).classes@[k].name, ..old(self).classes@[k] })
                } else {
                    final(self).classes@[k] == old(self).classes@[k]
                }
            },
            process_selected && identity is Some ==> {
                let id = identity.unwrap();
                let k = old(self).selected_class as int;
                let moved = id.address != old(self).address;
                &&& final(self).address == id.address
                &&& final(self).class_detection_status@ == id.evidence@
                &&& (moved ==> default_elements(final(self).elements@))
                &&& (!moved ==> final(self).elements == old(self).elements)
                &&& *final(self) == (MemoryViewDialog {
                    address: id.address,
                    elements: final(self).elements,
                    classes: final(self).classes,
                    class_detection_status: final(self).class_detection_status,
                    ..*old(self)
                })
                &&& k < old(self).classes@.len() ==> {
                    &&& final(self).classes@[k].name@ == id.name@
                    &&& final(self).classes@[k].address == id.address
                    &&& (moved ==> default_elements(final(self).classes@[k].elements@))
                    &&& (!moved ==> final(self).classes@[k].elements == old(self).classes@[k].elements)
                }
            },
    {
        if !process_selected {
            self.class_detection_status = owned("Select a process to identify this class");
            return;
        }
        let k = self.selected_class;
        match identity {
            None => {
                if k < self.classes.len() {
                    let name = chars_of(self.classes[k].name.as_str());
                    proof {
                        reveal_strlit("Class_0");
                        reveal_strlit("Unknown @");
                    }
                    let generated = crate::scan::str_eq(self.classes[k].name.as_str(), "Class_0")
                        || begins_with(&name, &chars_of("Unknown @"));
                    if generated {
                        let mut s = owned("Unknown @ ");
                        let a = format_memory_address(self.address);
                        push_str(&mut s, a.as_str());
                        self.classes[k].name = s;
                    }
                }
                self.class_detection_status = owned("No usable RTTI or vtable was found; field names must be mapped manually");
            },
            Some(id) => {
                let moved = id.address != self.address;
                if k < self.classes.len() {
                    self.classes[k].name = id.name;
                    self.classes[k].address = id.address;
                    if moved {
                        self.classes[k].elements = default_structure_elements();
                    }
                }
                self.address = id.address;
                if moved {
                    self.elements = default_structure_elements();
                }
                self.class_detection_status = id.evidence;
            },
        }
    }
}

/// The signed distance from `captured` to `field` as `{:+#X}` writes a 128-bit integer:
/// a plus sign, `0x`, and the 128-bit two's-complement digits.
pub open spec fn signed_distance_text(field: usize, captured: usize) -> Seq<char> {
    let v: nat = if field >= captured {
        (field - captured) as nat
    } else {
        (0x1_0000_0000_0000_0000_0000_0000_0000_0000 - (captured - field)) as nat
    };
    "+0x"@ + hex_digits(v)
}

/// The tracked offset of a field at `field` from the captured address `captured`, in
/// hexadecimal, negative with a minus sign.
pub open spec fn tracked_offset_text(field: usize, captured: usize) -> Seq<char> {
    if field >= captured {
        hex_digits((field - captured) as nat)
    } else {
        seq!['-'] + hex_digits((captured - field) as nat)
    }
}

/// The status after tracking the field at `field` from `captured`; `named` says whether
/// the tracked address has a name yet.
pub open spec fn tracked_field_status(field: usize, captured: usize, named: bool) -> Seq<char> {
    "Tracked field "@ + seq!['0', 'x'] + hex_padded(field as nat, 8) + " = captured "@ + seq!['0', 'x'] + hex_padded(
        captured as nat,
        8,
    ) + seq![' '] + signed_distance_text(field, captured) + if named {
        Seq::empty()
    } else {
        "; enter a name, then Save tracked"@
    }
}

/// The address a tracked field is measured from: the view's tracked base, else the
/// captured address selected in the code-access dialog.
pub open spec fn tracking_origin(tracked_base: Option<usize>, d: CodeAccessDialog) -> Option<usize> {
    match tracked_base {
        Some(b) => Some(b),
        None => match d.selected {
            Some(i) if i < d.addresses@.len() => Some(d.addresses@[i as int].0),
            _ => None,
        },
    }
}

/// The tracked offset and the status after tracking the field at `field` from `captured`.
fn tracked_texts(field: usize, captured: usize, named: bool) -> (r: (String, String))
    ensures
        r.0@ == tracked_offset_text(field, captured),
        r.1@ == tracked_field_status(field, captured, named),
{
    let mut offset = String::new();
    let wide: u128 = if field >= captured {
        push_hex_digits(&mut offset, (field - captured) as u64);
        (field - captured) as u128
    } else {
        crate::text::push_char(&mut offset, '-');
        push_hex_digits(&mut offset, (captured - field) as u64);
        assert(offset@ =~= seq!['-'] + hex_digits((captured - field) as nat));
        (u128::MAX - (captured - field) as u128) + 1
    };
    let mut s = owned("Tracked field ");
    push_str(&mut s, format_prefixed_memory_address(field).as_str());
    push_str(&mut s, " = captured ");
    push_str(&mut s, format_prefixed_memory_address(captured).as_str());
    push_str(&mut s, " +0x");
    push_hex_digits_wide(&mut s, wide);
    if !named {
        push_str(&mut s, "; enter a name, then Save tracked");
    }
    proof {
        reveal_strlit(" +0x");
        reveal_strlit("+0x");
    }
    assert(s@ =~= tracked_field_status(field, captured, named));
    (offset, s)
}

/// Tracks the field at `field` in the code-access dialog `d`, as `apply_tracked_field`
/// describes.
fn track_field(d: &mut CodeAccessDialog, tracked_base: Option<usize>, field: usize)
    ensures
        ({
            let o = *old(d);
            let e = *final(d);
            match tracking_origin(tracked_base, o) {
                None => e.status@ == "Select a captured address before tracking a field"@
                    && e == (CodeAccessDialog { status: e.status, ..o }),
                Some(captured) => {
                    let named = trim(o.tracked_name@).len() > 0;
                    &&& e.tracked_offset@ == tracked_offset_text(field, captured)
                    &&& e.status@ == tracked_field_status(field, captured, named)
                    &&& e == (CodeAccessDialog {
                        tracked_offset: e.tracked_offset,
                        status: e.status,
                        save_tracked: if named { true } else { o.save_tracked },
                        ..o
                    })
                },
            }
        }),
{
    let captured = match tracked_base {
        Some(b) => b,
        None => match d.selected {
            Some(i) => if i < d.addresses.len() {
                d.addresses[i].0
            } else {
                d.status = owned("Select a captured address before tracking a field");
                return;
            },
            None => {
                d.status = owned("Select a captured address before tracking a field");
                return;
            },
        },
    };
    let v = chars_of(d.tracked_name.as_str());
    assert(v@.subrange(0, v@.len() as int) == v@);
    let (lo, hi) = trim_bounds(&v, 0, v.len());
    let named = lo != hi;
    let (offset, s) = tracked_texts(field, captured, named);
    if named {
        d.save_tracked = true;
    }
    d.tracked_offset = offset;
    d.status = s;
}

impl CrosshairApp {
    /// Tracks the field at `field_address` of a view whose tracked base is `tracked_base`:
    /// the code-access dialog takes the field's offset from the address it is measured
    /// from, and says so; with a name for the tracked address it is marked to be saved,
    /// else the status asks for one. Without the dialog, or without an address to measure
    /// from, the status says what is missing.
    pub fn apply_tracked_field(&mut self, tracked_base: Option<usize>, field_address: usize)
        ensures
            final(self).state == old(self).state,
            final(self).capture_hotkey_combo_keys == old(self).capture_hotkey_combo_keys,
            final(self).capture_hotkey_combo_vks == old(self).capture_hotkey_combo_vks,
            match old(self).memory_panel.code_access_dialog {
                None => {
                    &&& final(self).memory_panel.status@ == "Open Find written before tracking a field"@
                    &&& final(self).memory_panel == (MemoryPanelState { status: final(self).memory_panel.status, ..old(self).memory_panel })
                },
                Some(d) => {
                    let e = final(self).memory_panel.code_access_dialog.unwrap();
                    &&& final(self).memory_panel == (MemoryPanelState { code_access_dialog: Some(e), ..old(self).memory_panel })
                    &&& match tracking_origin(tracked_base, d) {
                        None => e.status@ == "Select a captured address before tracking a field"@
                            && e == (CodeAccessDialog { status: e.status, ..d }),
                        Some(captured) => {
                            let named = trim(d.tracked_name@).len() > 0;
                            &&& e.tracked_offset@ == tracked_offset_text(field_address, captured)
                            &&& e.status@ == tracked_field_status(field_address, captured, named)
                            &&& e == (CodeAccessDialog {
                                tracked_offset: e.tracked_offset,
                                status: e.status,
                                save_tracked: if named { true } else { d.save_tracked },
                                ..d
                            })
                        },
                    }
                },
            },
    {
        let mut d = match self.memory_panel.code_access_dialog.take() {
            Some(d) => d,
            None => {
                self.memory_panel.status = owned("Open Find written before tracking a field");
                return;
            },
        };
        track_field(&mut d, tracked_base, field_address);
        self.memory_panel.code_access_dialog = Some(d);
    }
}

impl CrosshairApp {
    /// Adds the field at `address` of type `value_type`, picked in the structure view, to
    /// the saved list with the value `current` read there; the status names it. Nothing
    /// changes when a row of that address and type is saved already.
    pub fn add_structure_address(&mut self, address: usize, value_type: ScanValueType, current: Option<ScanValue>)
        ensures
            final(self).state == old(self).state,
            final(self).capture_hotkey_combo_keys == old(self).capture_hotkey_combo_keys,
            final(self).capture_hotkey_combo_vks == old(self).capture_hotkey_combo_vks,
            (exists|i: int| 0 <= i < old(self).memory_panel.saved@.len() && #[trigger] old(self).memory_panel.saved@[i].address == address
                && old(self).memory_panel.saved@[i].value_type == value_type) ==> final(self).memory_panel == old(self).memory_panel,
            !(exists|i: int| 0 <= i < old(self).memory_panel.saved@.len() && #[trigger] old(self).memory_panel.saved@[i].address == address
                && old(self).memory_panel.saved@[i].value_type == value_type) ==> {
                let row = final(self).memory_panel.saved@.last();
                &&& final(self).memory_panel.saved@.drop_last() == old(self).memory_panel.saved@
                &&& final(self).memory_panel.saved@.len() == old(self).memory_panel.saved@.len() + 1
                &&& row.address == address && row.value_type == value_type && row.current == current
                &&& row.text_encoding is None && row.text_byte_len == 0 && row.current_text is None
                &&& row.description@ == Seq::<char>::empty() && row.group@ == Seq::<char>::empty()
                &&& !row.hexadecimal && row.pointer is None && row.frozen is None && !row.saved_to_library
                &&& final(self).memory_panel.status@ == "Address "@ + seq!['0', 'x'] + hex_padded(address as nat, 8) + " added"@
                &&& final(self).memory_panel == (MemoryPanelState {
                    saved: final(self).memory_panel.saved,
                    status: final(self).memory_panel.status,
                    ..old(self).memory_panel
                })
            },
    {
        let mut i: usize = 0;
        while i < self.memory_panel.saved.len()
            invariant
                i <= self.memory_panel.saved@.len(),
                forall|k: int| 0 <= k < i ==> !(#[trigger] self.memory_panel.saved@[k].address == address
                    && self.memory_panel.saved@[k].value_type == value_type),
            decreases self.memory_panel.saved@.len() - i,
        {
            if self.memory_panel.saved[i].address == address && self.memory_panel.saved[i].value_type == value_type {
                return;
            }
            i = i + 1;
        }
        self.memory_panel.saved.push(SavedMemoryAddress {
            address,
            value_type,
            current,
            text_encoding: None,
            text_byte_len: 0,
            current_text: None,
            description: String::new(),
            group: String::new(),
            hexadecimal: false,
            pointer: None,
            frozen: None,
            saved_to_library: false,
        });
        let mut s = owned("Address ");
        push_str(&mut s, format_prefixed_memory_address(address).as_str());
        push_str(&mut s, " added");
        self.memory_panel.status = s;
    }
}

} // verus!
