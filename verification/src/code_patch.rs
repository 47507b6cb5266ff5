//! Patching an instruction of the code list: replacing it with no-operation bytes, and
//! writing its original bytes back.
use vstd::prelude::*;
use crate::library::MemoryCodeEntry;
use crate::panel::{AppState, CrosshairApp, MemoryPanelState};
use crate::number::{hex_digits, push_hex_digits};
use crate::text::{owned, push_str};

verus! {

/// Where a patch is written and the bytes the instruction had there.
pub struct CodePatch {
    pub address: usize,
    pub original: Vec<u8>,
}

/// The opcode of the one-byte no-operation instruction.
pub const NOP_OPCODE: u8 = 0x90;

/// As many no-operation bytes as an instruction of `len` bytes has.
pub fn nop_bytes(len: usize) -> (r: Vec<u8>)
    ensures
        r@ == Seq::new(len as nat, |i: int| NOP_OPCODE),
{
    let mut r: Vec<u8> = Vec::new();
    let mut i: usize = 0;
    while i < len
        invariant
            i <= len,
            r@ == Seq::new(i as nat, |k: int| NOP_OPCODE),
        decreases len - i,
    {
        r.push(NOP_OPCODE);
        i = i + 1;
        assert(r@ =~= Seq::new(i as nat, |k: int| NOP_OPCODE));
    }
    r
}

fn copy_bytes(v: &Vec<u8>) -> (r: Vec<u8>)
    ensures
        r@ == v@,
{
    let mut r: Vec<u8> = Vec::new();
    let mut i: usize = 0;
    while i < v.len()
        invariant
            i <= v@.len(),
            r@ == v@.subrange(0, i as int),
        decreases v@.len() - i,
    {
        r.push(v[i]);
        i = i + 1;
        assert(r@ =~= v@.subrange(0, i as int));
    }
    assert(v@.subrange(0, v@.len() as int) =~= v@);
    r
}

/// Whether `after` is `before` with only the status of the panel changed, to `status`.
pub open spec fn only_status(before: CrosshairApp, after: CrosshairApp, status: Seq<char>) -> bool {
    &&& after.memory_panel.status@ == status
    &&& after == (CrosshairApp { memory_panel: MemoryPanelState { status: after.memory_panel.status, ..before.memory_panel }, ..before })
}

/// The bytes an entry kept from before it was patched, when it kept any.
pub open spec fn kept_bytes(e: MemoryCodeEntry) -> Option<Seq<u8>> {
    match e.original_bytes {
        Some(b) => if b@.len() > 0 {
            Some(b@)
        } else {
            None
        },
        None => None,
    }
}

/// `prefix`, the entry's name, and `suffix`.
fn named_status(prefix: &str, name: &String, suffix: &str) -> (s: String)
    ensures
        s@ == prefix@ + name@ + suffix@,
{
    let mut s = owned(prefix);
    push_str(&mut s, name.as_str());
    push_str(&mut s, suffix);
    s
}

/// `prefix` followed by `text`.
fn error_status(prefix: &str, text: &String) -> (s: String)
    ensures
        s@ == prefix@ + text@,
{
    let mut s = owned(prefix);
    push_str(&mut s, text.as_str());
    s
}

impl CrosshairApp {
    /// Prepares replacing code entry `code_index` with no-operation bytes: `resolved` is the
    /// address its module and offset resolved to, and `read` the instruction bytes read
    /// there, which count only when the entry kept no bytes of its own. Without a process,
    /// an address, or bytes, the status says so and nothing is patched.
    pub fn plan_nop_patch(&mut self, code_index: usize, resolved: Option<usize>, read: Option<Vec<u8>>) -> (r: Option<CodePatch>)
        ensures
            old(self).memory_panel.process_pid is None ==> r is None && only_status(*old(self), *final(self), "Select a process first"@),
            old(self).memory_panel.process_pid is Some && code_index >= old(self).state.memory_code_list@.len() ==> r is None
                && *final(self) == *old(self),
            old(self).memory_panel.process_pid is Some && code_index < old(self).state.memory_code_list@.len() ==> {
                let e = old(self).state.memory_code_list@[code_index as int];
                match resolved {
                    None => r is None && only_status(*old(self), *final(self), "Unable to resolve address for "@ + e.name@),
                    Some(a) => match kept_bytes(e) {
                        Some(b) => *final(self) == *old(self) && r is Some && r->0.address == a && r->0.original@ == b,
                        None => match read {
                            Some(b) if b@.len() > 0 => *final(self) == *old(self) && r is Some && r->0.address == a
                                && r->0.original@ == b@,
                            _ => r is None && only_status(*old(self), *final(self),
                                "Could not read instruction bytes at 0x"@ + hex_digits(a as nat)),
                        },
                    },
                }
            },
    {
        if self.memory_panel.process_pid.is_none() {
            self.memory_panel.status = owned("Select a process first");
            return None;
        }
        if code_index >= self.state.memory_code_list.len() {
            return None;
        }
        let address = match resolved {
            Some(a) => a,
            None => {
                self.memory_panel.status = error_status("Unable to resolve address for ", &self.state.memory_code_list[code_index].name);
                return None;
            },
        };
        if let Some(b) = &self.state.memory_code_list[code_index].original_bytes {
            if b.len() > 0 {
                return Some(CodePatch { address, original: copy_bytes(b) });
            }
        }
        match read {
            Some(b) => if b.len() > 0 {
                return Some(CodePatch { address, original: b });
            },
            None => {},
        }
        let mut s = owned("Could not read instruction bytes at 0x");
        push_hex_digits(&mut s, address as u64);
        self.memory_panel.status = s;
        None
    }

    /// Records what writing no-operation bytes over code entry `code_index` gave: on
    /// success the entry keeps `original` and is marked replaced.
    pub fn replace_code_entry_with_nop(&mut self, code_index: usize, original: Vec<u8>, written: Result<(), String>)
        requires
            code_index < old(self).state.memory_code_list@.len(),
        ensures
            match written {
                Ok(_) => {
                    let (e, f) = (old(self).state.memory_code_list@[code_index as int], final(self).state.memory_code_list@[code_index as int]);
                    &&& final(self).state.memory_code_list@.len() == old(self).state.memory_code_list@.len()
                    &&& forall|i: int| 0 <= i < old(self).state.memory_code_list@.len() && i != code_index
                        ==> #[trigger] final(self).state.memory_code_list@[i] == old(self).state.memory_code_list@[i]
                    &&& f.original_bytes is Some && f.original_bytes.unwrap()@ == original@
                    &&& f == (MemoryCodeEntry { original_bytes: f.original_bytes, replaced: true, ..e })
                    &&& final(self).state == (AppState { memory_code_list: final(self).state.memory_code_list, ..old(self).state })
                    &&& final(self).memory_panel.status@ == "Replaced '"@ + e.name@ + "' with code that does nothing (NOP)"@
                    &&& *final(self) == (CrosshairApp {
                        memory_panel: MemoryPanelState { status: final(self).memory_panel.status, ..old(self).memory_panel },
                        state: final(self).state,
                        ..*old(self)
                    })
                },
                Err(err) => only_status(*old(self), *final(self), "Failed to replace instruction with NOP: "@ + err@),
            },
    {
        match written {
            Ok(_) => {
                self.state.memory_code_list[code_index].original_bytes = Some(original);
                self.state.memory_code_list[code_index].replaced = true;
                self.memory_panel.status = named_status(
                    "Replaced '",
                    &self.state.memory_code_list[code_index].name,
                    "' with code that does nothing (NOP)",
                );
            },
            Err(err) => {
                self.memory_panel.status = error_status("Failed to replace instruction with NOP: ", &err);
            },
        }
    }

    /// Prepares writing back the original bytes of code entry `code_index`, which has to
    /// be marked replaced and keep its bytes; `resolved` is the address its module and
    /// offset resolved to.
    pub fn plan_restore_patch(&mut self, code_index: usize, resolved: Option<usize>) -> (r: Option<CodePatch>)
        ensures
            old(self).memory_panel.process_pid is None ==> r is None && only_status(*old(self), *final(self), "Select a process first"@),
            old(self).memory_panel.process_pid is Some && code_index >= old(self).state.memory_code_list@.len() ==> r is None
                && *final(self) == *old(self),
            old(self).memory_panel.process_pid is Some && code_index < old(self).state.memory_code_list@.len() ==> {
                let e = old(self).state.memory_code_list@[code_index as int];
                if !e.replaced || kept_bytes(e) is None {
                    r is None && *final(self) == *old(self)
                } else {
                    match resolved {
                        None => r is None && only_status(*old(self), *final(self), "Unable to resolve address for "@ + e.name@),
                        Some(a) => *final(self) == *old(self) && r is Some && r->0.address == a
                            && r->0.original@ == kept_bytes(e).unwrap(),
                    }
                }
            },
    {
        if self.memory_panel.process_pid.is_none() {
            self.memory_panel.status = owned("Select a process first");
            return None;
        }
        if code_index >= self.state.memory_code_list.len() {
            return None;
        }
        let original = match &self.state.memory_code_list[code_index].original_bytes {
            Some(b) => b,
            None => return None,
        };
        if !self.state.memory_code_list[code_index].replaced || original.len() == 0 {
            return None;
        }
        let original = copy_bytes(original);
        match resolved {
            Some(address) => Some(CodePatch { address, original }),
            None => {
                self.memory_panel.status = error_status("Unable to resolve address for ", &self.state.memory_code_list[code_index].name);
                None
            },
        }
    }

    /// Records what writing back the original bytes of code entry `code_index` gave: on
    /// success the entry is no longer marked replaced.
    pub fn restore_code_entry_with_original_bytes(&mut self, code_index: usize, written: Result<(), String>)
        requires
            code_index < old(self).state.memory_code_list@.len(),
        ensures
            match written {
                Ok(_) => {
                    let e = old(self).state.memory_code_list@[code_index as int];
                    &&& final(self).state.memory_code_list@ == old(self).state.memory_code_list@.update(
                        code_index as int,
                        MemoryCodeEntry { replaced: false, ..e },
                    )
                    &&& final(self).state == (AppState { memory_code_list: final(self).state.memory_code_list, ..old(self).state })
                    &&& final(self).memory_panel.status@ == "Restored original code for '"@ + e.name@ + "'"@
                    &&& *final(self) == (CrosshairApp {
                        memory_panel: MemoryPanelState { status: final(self).memory_panel.status, ..old(self).memory_panel },
                        state: final(self).state,
                        ..*old(self)
                    })
                },
                Err(err) => only_status(*old(self), *final(self), "Failed to restore original instruction: "@ + err@),
            },
    {
        match written {
            Ok(_) => {
                self.state.memory_code_list[code_index].replaced = false;
                self.memory_panel.status = named_status(
                    "Restored original code for '",
                    &self.state.memory_code_list[code_index].name,
                    "'",
                );
            },
            Err(err) => {
                self.memory_panel.status = error_status("Failed to restore original instruction: ", &err);
            },
        }
    }
}

} // verus!
