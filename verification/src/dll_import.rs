//! Bringing the saved rows into a DLL project as memory entries: each row becomes an
//! enabled entry that toggles a float write at its address on F1.
use vstd::prelude::*;
use crate::saved::SavedMemoryAddress;
use crate::scan::{format_scan_value, scan_text_spec};
use crate::number::{dec_digits, hex_digits, push_dec_digits, push_hex_digits};
use crate::pointer::copy_offsets;
use crate::text::{owned, push_str};

verus! {

/// The type of value a DLL entry writes.
#[derive(Clone, Copy, PartialEq, Eq, Structural)]
pub enum DllValueType {
    Float,
    Double,
    Int32,
    Int64,
    Bytes,
}

/// How a DLL entry applies its value.
#[derive(Clone, Copy, PartialEq, Eq, Structural)]
pub enum DllPatchMode {
    HotkeyToggle,
    Freeze,
    WriteOnce,
    NopInstruction,
}

/// One memory entry of a DLL project.
pub struct DllMemoryEntry {
    pub enabled: bool,
    pub name: String,
    /// The address, as text.
    pub address: String,
    /// The pointer offsets to follow from the address.
    pub offsets: Vec<usize>,
    pub value_type: DllValueType,
    /// The value to write, as text.
    pub value_to_write: String,
    pub mode: DllPatchMode,
    /// The virtual-key code of the entry's hotkey.
    pub hotkey_vk: Option<u32>,
}

/// What a DLL entry holds.
pub struct DllEntryView {
    pub enabled: bool,
    pub name: Seq<char>,
    pub address: Seq<char>,
    pub offsets: Seq<usize>,
    pub value_type: DllValueType,
    pub value_to_write: Seq<char>,
    pub mode: DllPatchMode,
    pub hotkey_vk: Option<u32>,
}

impl View for DllMemoryEntry {
    type V = DllEntryView;

    open spec fn view(&self) -> DllEntryView {
        DllEntryView {
            enabled: self.enabled,
            name: self.name@,
            address: self.address@,
            offsets: self.offsets@,
            value_type: self.value_type,
            value_to_write: self.value_to_write@,
            mode: self.mode,
            hotkey_vk: self.hotkey_vk,
        }
    }
}

/// The virtual-key code of F1, the hotkey an imported entry starts with.
pub const IMPORT_HOTKEY_VK: u32 = 0x70;

/// The value an imported entry writes: the row's value as text (for a float,
/// `float_text`, its value in compact decimal), else its text, else `0`.
pub open spec fn import_value_text(r: SavedMemoryAddress, float_text: Seq<char>) -> Seq<char> {
    match r.current {
        Some(v) => match scan_text_spec(v, false) {
            Some(t) => t,
            None => float_text,
        },
        None => match r.current_text {
            Some(t) => t@,
            None => seq!['0'],
        },
    }
}

/// The entry a saved row becomes: enabled, named by its description (or `RAM_0x` and its
/// address when it has none), at its address as `0x{:X}`, with its pointer offsets, writing
/// its value as a float on a hotkey toggle bound to F1.
pub open spec fn imported_entry(r: SavedMemoryAddress, float_text: Seq<char>) -> DllEntryView {
    DllEntryView {
        enabled: true,
        name: if r.description@.len() == 0 {
            "RAM_0x"@ + hex_digits(r.address as nat)
        } else {
            r.description@
        },
        address: "0x"@ + hex_digits(r.address as nat),
        offsets: match r.pointer {
            Some(p) => p.offsets@,
            None => Seq::empty(),
        },
        value_type: DllValueType::Float,
        value_to_write: import_value_text(r, float_text),
        mode: DllPatchMode::HotkeyToggle,
        hotkey_vk: Some(IMPORT_HOTKEY_VK),
    }
}

/// The entries as their views.
pub open spec fn dll_entries_view(v: Seq<DllMemoryEntry>) -> Seq<DllEntryView> {
    v.map_values(|e: DllMemoryEntry| e@)
}

/// The entries the rows become, in order; `float_texts[i]` is row `i`'s value in compact
/// decimal when it is a float.
pub open spec fn imported_entries(rows: Seq<SavedMemoryAddress>, float_texts: Seq<String>) -> Seq<DllEntryView> {
    Seq::new(rows.len(), |i: int| imported_entry(rows[i], float_texts[i]@))
}

/// The entry saved row `r` becomes.
fn import_entry(r: &SavedMemoryAddress, float_text: &String) -> (e: DllMemoryEntry)
    ensures
        e@ == imported_entry(*r, float_text@),
{
    let mut address = owned("0x");
    push_hex_digits(&mut address, r.address as u64);
    let name = if r.description.unicode_len() == 0 {
        let mut n = owned("RAM_");
        push_str(&mut n, address.as_str());
        proof {
            reveal_strlit("RAM_");
            reveal_strlit("0x");
            reveal_strlit("RAM_0x");
            assert(n@ =~= "RAM_0x"@ + hex_digits(r.address as nat));
        }
        n
    } else {
        r.description.clone()
    };
    let offsets = match &r.pointer {
        Some(p) => copy_offsets(&p.offsets),
        None => Vec::new(),
    };
    let value_to_write = match r.current {
        Some(v) => match format_scan_value(v, false) {
            Some(t) => t,
            None => float_text.clone(),
        },
        None => match &r.current_text {
            Some(t) => t.clone(),
            None => owned("0"),
        },
    };
    proof {
        reveal_strlit("0");
        assert("0"@ =~= seq!['0']);
        assert(address@ == "0x"@ + hex_digits(r.address as nat));
        assert(value_to_write@ == import_value_text(*r, float_text@));
    }
    DllMemoryEntry {
        enabled: true,
        name,
        address,
        offsets,
        value_type: DllValueType::Float,
        value_to_write,
        mode: DllPatchMode::HotkeyToggle,
        hotkey_vk: Some(IMPORT_HOTKEY_VK),
    }
}

/// Appends to `entries` the entry each saved row becomes, in order, and gives the status
/// that reports how many rows were imported. `float_texts[i]` is row `i`'s value in compact
/// decimal when it is a float.
pub fn import_saved_addresses(
    saved: &Vec<SavedMemoryAddress>,
    float_texts: &Vec<String>,
    entries: &mut Vec<DllMemoryEntry>,
) -> (status: String)
    requires
        float_texts@.len() == saved@.len(),
    ensures
        dll_entries_view(final(entries)@) == dll_entries_view(old(entries)@) + imported_entries(saved@, float_texts@),
        status@ == "Imported "@ + dec_digits(saved@.len()) + " addresses from saved list!"@,
{
    let ghost start = dll_entries_view(entries@);
    let mut i: usize = 0;
    while i < saved.len()
        invariant
            i <= saved@.len(),
            float_texts@.len() == saved@.len(),
            start == dll_entries_view(old(entries)@),
            dll_entries_view(entries@) == start + imported_entries(saved@.subrange(0, i as int), float_texts@.subrange(0, i as int)),
        decreases saved@.len() - i,
    {
        let e = import_entry(&saved[i], &float_texts[i]);
        let ghost before = entries@;
        entries.push(e);
        proof {
            assert(dll_entries_view(entries@) =~= dll_entries_view(before).push(e@));
            assert(imported_entries(saved@.subrange(0, i + 1), float_texts@.subrange(0, i + 1))
                =~= imported_entries(saved@.subrange(0, i as int), float_texts@.subrange(0, i as int)).push(e@));
        }
        i = i + 1;
    }
    assert(saved@.subrange(0, saved@.len() as int) == saved@);
    assert(float_texts@.subrange(0, float_texts@.len() as int) == float_texts@);
    let mut status = owned("Imported ");
    push_dec_digits(&mut status, saved.len() as u64);
    push_str(&mut status, " addresses from saved list!");
    status
}

} // verus!
