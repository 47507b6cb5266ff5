//! The memory-view dialog in its structure form: a class laid out as typed fields from an
//! address, opened on an address typed by hand.
use vstd::prelude::*;
use crate::panel::{CrosshairApp, MemoryPanelState};
use crate::structure::{auto_structure_elements, copy_elements, default_elements, default_structure_elements, field_name, guessed_type, same_rows, StructureElement};
use crate::view::MemoryDisplayType;
use crate::address::{address_spec, hex_offset_spec, parse_hex_offset, parse_memory_address};
use crate::text::owned;

verus! {

/// How a memory view shows memory: as rows of bytes, or as the fields of a structure.
#[derive(Clone, Copy, Debug, PartialEq, Eq, Structural)]
pub enum MemoryViewKind {
    Bytes,
    Structure,
}

/// A class of a structure view: its name, its address, and its fields.
pub struct StructureClass {
    pub name: String,
    pub address: usize,
    pub elements: Vec<StructureElement>,
}

/// The memory-view dialog.
pub struct MemoryViewDialog {
    pub address: usize,
    pub tracked_base: Option<usize>,
    pub kind: MemoryViewKind,
    pub display_type: MemoryDisplayType,
    pub relative_addresses: bool,
    pub pinned: bool,
    pub elements: Vec<StructureElement>,
    pub pointer_width: usize,
    pub classes: Vec<StructureClass>,
    pub selected_class: usize,
    pub class_detection_status: String,
    pub class_detection_attempted: bool,
    pub auto_dissected: bool,
    /// The addresses visited before, most recent last.
    pub history: Vec<usize>,
    pub structure_back_step: String,
    pub structure_forward_step: String,
    pub selected_structure_address: Option<usize>,
}

/// Whether `d` is a structure view as opened on `address` with `pointer_width`-byte
/// pointers: one class `Class_0` there, the starting fields, relative addresses, and steps
/// of 10 back and forward.
pub open spec fn opened_structure(d: MemoryViewDialog, address: usize, pointer_width: usize) -> bool {
    &&& d.address == address
    &&& d.tracked_base is None
    &&& d.kind == MemoryViewKind::Structure
    &&& d.display_type == MemoryDisplayType::ByteHex
    &&& d.relative_addresses
    &&& d.pinned
    &&& default_elements(d.elements@)
    &&& d.pointer_width == pointer_width
    &&& d.classes@.len() == 1
    &&& d.classes@[0].name@ == "Class_0"@
    &&& d.classes@[0].address == address
    &&& default_elements(d.classes@[0].elements@)
    &&& d.selected_class == 0
    &&& d.class_detection_status@ == Seq::<char>::empty()
    &&& !d.class_detection_attempted
    &&& !d.auto_dissected
    &&& d.history@.len() == 0
    &&& d.structure_back_step@ == "10"@
    &&& d.structure_forward_step@ == "10"@
    &&& d.selected_structure_address is None
}

impl CrosshairApp {
    /// Opens a structure view on the address typed in the panel; `pointer_width` is the
    /// pointer width of the process when it could be read, 8 bytes otherwise. Without a
    /// process, or with text that is no address, the status says so.
    pub fn open_manual_structure_view(&mut self, pointer_width: Option<usize>) -> (r: Option<MemoryViewDialog>)
        ensures
            old(self).memory_panel.process_pid is None ==> r is None && final(self).memory_panel.status@ == "Select a process"@
                && *final(self) == (CrosshairApp { memory_panel: MemoryPanelState { status: final(self).memory_panel.status, ..old(self).memory_panel }, ..*old(self) }),
            old(self).memory_panel.process_pid is Some ==> match address_spec(old(self).memory_panel.manual_address@) {
                None => r is None && final(self).memory_panel.status@ == "Invalid address"@
                    && *final(self) == (CrosshairApp { memory_panel: MemoryPanelState { status: final(self).memory_panel.status, ..old(self).memory_panel }, ..*old(self) }),
                Some(a) => *final(self) == *old(self) && r is Some && opened_structure(r.unwrap(), a as usize, match pointer_width {
                    Some(w) => w,
                    None => 8,
                }),
            },
    {
        if self.memory_panel.process_pid.is_none() {
            self.memory_panel.status = owned("Select a process");
            return None;
        }
        let address = match parse_memory_address(self.memory_panel.manual_address.as_str()) {
            Some(a) => a,
            None => {
                self.memory_panel.status = owned("Invalid address");
                return None;
            },
        };
        let width = match pointer_width {
            Some(w) => w,
            None => 8,
        };
        let class = StructureClass { name: owned("Class_0"), address, elements: default_structure_elements() };
        let mut classes: Vec<StructureClass> = Vec::new();
        classes.push(class);
        Some(MemoryViewDialog {
            address,
            tracked_base: None,
            kind: MemoryViewKind::Structure,
            display_type: MemoryDisplayType::ByteHex,
            relative_addresses: true,
            pinned: true,
            elements: default_structure_elements(),
            pointer_width: width,
            classes,
            selected_class: 0,
            class_detection_status: String::new(),
            class_detection_attempted: false,
            auto_dissected: false,
            history: Vec::new(),
            structure_back_step: owned("10"),
            structure_forward_step: owned("10"),
            selected_structure_address: None,
        })
    }
}

/// The first class at `address`.
pub open spec fn class_at(classes: Seq<StructureClass>, address: usize) -> Option<int> {
    if exists|k: int| 0 <= k < classes.len() && classes[k].address == address {
        Some(choose|k: int| 0 <= k < classes.len() && classes[k].address == address
            && forall|j: int| 0 <= j < k ==> (#[trigger] classes[j]).address != address)
    } else {
        None
    }
}

/// Whether `after` is `before` with its active class holding the view's address and a
/// copy of its fields.
pub open spec fn active_kept(before: MemoryViewDialog, after: Seq<StructureClass>) -> bool {
    &&& after.len() == before.classes@.len()
    &&& forall|k: int| 0 <= k < after.len() && k != before.selected_class ==> #[trigger] after[k] == before.classes@[k]
    &&& before.selected_class < after.len() ==> {
        let c = after[before.selected_class as int];
        &&& c.name == before.classes@[before.selected_class as int].name
        &&& c.address == before.address
        &&& same_rows(before.elements@, c.elements@)
    }
}

/// The first class at `address`.
fn find_class(classes: &Vec<StructureClass>, address: usize) -> (r: Option<usize>)
    ensures
        match r {
            Some(k) => k < classes@.len() && classes@[k as int].address == address
                && forall|j: int| 0 <= j < k ==> (#[trigger] classes@[j]).address != address,
            None => forall|j: int| 0 <= j < classes@.len() ==> (#[trigger] classes@[j]).address != address,
        },
{
    let mut k: usize = 0;
    while k < classes.len()
        invariant
            k <= classes@.len(),
            forall|j: int| 0 <= j < k ==> (#[trigger] classes@[j]).address != address,
        decreases classes@.len() - k,
    {
        if classes[k].address == address {
            return Some(k);
        }
        k = k + 1;
    }
    None
}

/// The first class at `address`, as `class_at` names it.
proof fn lemma_class_at(classes: Seq<StructureClass>, address: usize, k: int)
    requires
        0 <= k < classes.len(),
        classes[k].address == address,
        forall|j: int| 0 <= j < k ==> (#[trigger] classes[j]).address != address,
    ensures
        class_at(classes, address) == Some(k),
{
    let c = choose|c: int| 0 <= c < classes.len() && classes[c].address == address
        && forall|j: int| 0 <= j < c ==> (#[trigger] classes[j]).address != address;
    assert(0 <= c < classes.len() && classes[c].address == address && forall|j: int| 0 <= j < c ==> (#[trigger] classes[j]).address != address);
    if c < k {
        assert(classes[c].address != address);
    } else if c > k {
        assert(classes[k].address != address);
    }
}

impl MemoryViewDialog {
    /// Goes back to the address visited before, the last of the history, which leaves it;
    /// when a class sits there, it becomes the selected class and its fields are shown,
    /// to be dissected again. Says whether there was an address to go back to.
    pub fn go_back(&mut self) -> (moved: bool)
        ensures
            moved == (old(self).history@.len() > 0),
            !moved ==> *final(self) == *old(self),
            moved ==> {
                &&& final(self).history@ == old(self).history@.drop_last()
                &&& final(self).address == old(self).history@.last()
                &&& !final(self).auto_dissected
                &&& match class_at(old(self).classes@, old(self).history@.last()) {
                    Some(k) => final(self).selected_class == k
                        && same_rows(old(self).classes@[k].elements@, final(self).elements@),
                    None => final(self).selected_class == old(self).selected_class && final(self).elements == old(self).elements,
                }
                &&& *final(self) == (MemoryViewDialog {
                    history: final(self).history,
                    address: final(self).address,
                    auto_dissected: false,
                    selected_class: final(self).selected_class,
                    elements: final(self).elements,
                    ..*old(self)
                })
            },
    {
        if self.history.len() == 0 {
            return false;
        }
        let previous = match self.history.pop() {
            Some(a) => a,
            None => return false,
        };
        self.address = previous;
        match find_class(&self.classes, previous) {
            Some(k) => {
                proof {
                    lemma_class_at(self.classes@, previous, k as int);
                }
                self.selected_class = k;
                self.elements = copy_elements(&self.classes[k].elements);
            },
            None => {},
        }
        self.auto_dissected = false;
        true
    }

    /// Moves the view by its step: forward, or back. A byte view steps by its forward
    /// step both ways; a structure view steps back by its back step, is dissected again,
    /// and drops the selected row's address. Says whether the step was a number.
    pub fn step_view(&mut self, forward: bool) -> (moved: bool)
        ensures
            ({
                let text = if old(self).kind == MemoryViewKind::Structure && !forward {
                    old(self).structure_back_step@
                } else {
                    old(self).structure_forward_step@
                };
                match hex_offset_spec(text) {
                    None => !moved && *final(self) == *old(self),
                    Some(step) => moved && if old(self).kind == MemoryViewKind::Structure {
                        *final(self) == (MemoryViewDialog {
                            address: moved_address(old(self).address, step, forward),
                            auto_dissected: false,
                            selected_structure_address: None,
                            ..*old(self)
                        })
                    } else {
                        *final(self) == (MemoryViewDialog { address: moved_address(old(self).address, step, forward), ..*old(self) })
                    },
                }
            }),
    {
        let structure = match self.kind {
            MemoryViewKind::Structure => true,
            MemoryViewKind::Bytes => false,
        };
        let text = if structure && !forward { self.structure_back_step.as_str() } else { self.structure_forward_step.as_str() };
        let step = match parse_hex_offset(text) {
            Some(s) => s,
            None => return false,
        };
        self.address = if forward { self.address.saturating_add(step) } else { self.address.saturating_sub(step) };
        if structure {
            self.auto_dissected = false;
            self.selected_structure_address = None;
        }
        true
    }

    /// Makes the selected row's address the view's base: the current address joins the
    /// history and the view is dissected again. Says whether a row was selected.
    pub fn use_selected_as_base(&mut self) -> (moved: bool)
        ensures
            moved == (old(self).selected_structure_address is Some),
            !moved ==> *final(self) == *old(self),
            moved ==> *final(self) == (MemoryViewDialog {
                history: final(self).history,
                address: old(self).selected_structure_address.unwrap(),
                auto_dissected: false,
                selected_structure_address: None,
                ..*old(self)
            }) && final(self).history@ == old(self).history@.push(old(self).address),
    {
        let target = match self.selected_structure_address {
            Some(a) => a,
            None => return false,
        };
        self.history.push(self.address);
        self.address = target;
        self.auto_dissected = false;
        self.selected_structure_address = None;
        true
    }

    /// Records the view's address and fields in its active class.
    pub fn keep_active_class(&mut self)
        ensures
            active_kept(*old(self), final(self).classes@),
            *final(self) == (MemoryViewDialog { classes: final(self).classes, ..*old(self) }),
    {
        let k = self.selected_class;
        if k < self.classes.len() {
            let copy = copy_elements(&self.elements);
            self.classes[k].address = self.address;
            self.classes[k].elements = copy;
        }
    }

    /// Switches to class `index`: the active class keeps the view's address and fields,
    /// and the view shows class `index` at its address, to be dissected again.
    pub fn switch_class(&mut self, index: usize)
        ensures
            active_kept(*old(self), final(self).classes@),
            final(self).selected_class == index,
            index < old(self).classes@.len() ==> {
                &&& final(self).address == final(self).classes@[index as int].address
                &&& same_rows(final(self).classes@[index as int].elements@, final(self).elements@)
                &&& !final(self).auto_dissected
                &&& *final(self) == (MemoryViewDialog {
                    classes: final(self).classes,
                    selected_class: index,
                    address: final(self).address,
                    elements: final(self).elements,
                    auto_dissected: false,
                    ..*old(self)
                })
            },
            index >= old(self).classes@.len() ==> *final(self) == (MemoryViewDialog {
                classes: final(self).classes,
                selected_class: index,
                ..*old(self)
            }),
    {
        self.keep_active_class();
        self.selected_class = index;
        if index < self.classes.len() {
            self.address = self.classes[index].address;
            self.elements = copy_elements(&self.classes[index].elements);
            self.auto_dissected = false;
        }
    }

    /// Dissects the view's memory once, when first shown: its fields become those guessed
    /// from `bytes`, and the active class takes a copy. Nothing changes once dissected or
    /// without bytes.
    pub fn auto_dissect(&mut self, bytes: &[u8])
        ensures
            old(self).auto_dissected || bytes@.len() == 0 ==> *final(self) == *old(self),
            !old(self).auto_dissected && bytes@.len() > 0 ==> {
                &&& final(self).auto_dissected
                &&& final(self).elements@.len() == (bytes@.len() + 3) / 4
                &&& forall|i: int| 0 <= i < final(self).elements@.len() ==> (#[trigger] final(self).elements@[i]).offset == 4 * i
                    && final(self).elements@[i].value_type == guessed_type(bytes@, 4 * i, old(self).pointer_width)
                    && final(self).elements@[i].name@ == field_name(final(self).elements@[i].offset)
                    && final(self).elements@[i].detected_class is None && !final(self).elements@[i].expanded
                    && final(self).elements@[i].child_elements@.len() == 0
                &&& final(self).classes@.len() == old(self).classes@.len()
                &&& forall|k: int| 0 <= k < old(self).classes@.len() && k != old(self).selected_class
                    ==> #[trigger] final(self).classes@[k] == old(self).classes@[k]
                &&& old(self).selected_class < old(self).classes@.len() ==> same_rows(
                    final(self).elements@,
                    final(self).classes@[old(self).selected_class as int].elements@,
                ) && final(self).classes@[old(self).selected_class as int].address == old(self).classes@[old(self).selected_class as int].address
                    && final(self).classes@[old(self).selected_class as int].name == old(self).classes@[old(self).selected_class as int].name
                &&& *final(self) == (MemoryViewDialog {
                    auto_dissected: true,
                    elements: final(self).elements,
                    classes: final(self).classes,
                    ..*old(self)
                })
            },
    {
        if self.auto_dissected || bytes.len() == 0 {
            return;
        }
        self.auto_dissected = true;
        self.elements = auto_structure_elements(bytes, self.pointer_width);
        let k = self.selected_class;
        if k < self.classes.len() {
            let copy = copy_elements(&self.elements);
            self.classes[k].elements = copy;
        }
    }
}

/// `address` moved forward or back by `step` bytes, held within the address space.
pub open spec fn moved_address(address: usize, step: int, forward: bool) -> usize {
    crate::disassembler::moved(address, step, forward)
}

} // verus!
