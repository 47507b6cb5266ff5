//! Resolving a pointer chain one read at a time: the walk asks for the pointer stored at its
//! current address, and each pointer read moves it on by the next offset.
use vstd::prelude::*;
use crate::scan::{ScanValue, ScanValueType};
use crate::pointer::{copy_offsets, PointerSpec};
use crate::entity::{pointer_step_spec, follow_pointer, EntityExpression, EntityRoot, PointerStepError};
use crate::structure::{decode_pointer, le_value};

verus! {

/// A pointer chain being resolved: the address reached, how many offsets have been
/// followed, the offsets, and the width of a pointer in the process.
pub struct ChainWalk {
    pub address: usize,
    pub next: usize,
    pub offsets: Vec<usize>,
    pub pointer_width: usize,
}

impl ChainWalk {
    /// A walk standing at `root`, with no offset followed yet.
    pub fn new(root: usize, offsets: Vec<usize>, pointer_width: usize) -> (w: Self)
        ensures
            w.address == root,
            w.next == 0,
            w.offsets@ == offsets@,
            w.pointer_width == pointer_width,
    {
        ChainWalk { address: root, next: 0, offsets, pointer_width }
    }

    /// The address whose pointer is to be read next, or `None` once every offset has been
    /// followed and the walk's address is the result.
    pub fn pending(&self) -> (r: Option<usize>)
        ensures
            r == (if self.next < self.offsets@.len() { Some(self.address) } else { None::<usize> }),
    {
        if self.next < self.offsets.len() {
            Some(self.address)
        } else {
            None
        }
    }

    /// The type a pointer is read as: a 32-bit value in a 4-byte process, else a 64-bit one.
    pub fn read_type(&self) -> (t: ScanValueType)
        ensures
            t == (if self.pointer_width == 4 { ScanValueType::I32 } else { ScanValueType::I64 }),
    {
        if self.pointer_width == 4 {
            ScanValueType::I32
        } else {
            ScanValueType::I64
        }
    }

    /// Follows the next offset from the pointer `value` read at the walk's address. On an
    /// error the walk stays where it was.
    pub fn advance(&mut self, value: ScanValue) -> (r: Result<(), PointerStepError>)
        requires
            old(self).next < old(self).offsets@.len(),
        ensures
            match pointer_step_spec(old(self).pointer_width, value, old(self).offsets@[old(self).next as int]) {
                Ok(a) => r is Ok && *final(self) == (ChainWalk { address: a, next: (old(self).next + 1) as usize, ..*old(self) }),
                Err(e) => r == Err::<(), PointerStepError>(e) && *final(self) == *old(self),
            },
    {
        let len = self.offsets.len();
        assert(self.next + 1 <= len);
        match follow_pointer(self.pointer_width, value, self.offsets[self.next]) {
            Ok(a) => {
                self.address = a;
                self.next = self.next + 1;
                Ok(())
            },
            Err(e) => Err(e),
        }
    }
}

impl PointerStepError {
    /// Why a chain of the saved-address list, or of an entity expression, stopped: the
    /// message the panel shows.
    pub fn describe(self, entity_chain: bool) -> (s: &'static str)
        ensures
            s@ == match self {
                PointerStepError::UnsupportedWidth => "unsupported pointer width"@,
                PointerStepError::Overflow => if entity_chain { "pointer chain overflow"@ } else { "pointer overflow"@ },
            },
    {
        match self {
            PointerStepError::UnsupportedWidth => "unsupported pointer width",
            PointerStepError::Overflow => if entity_chain { "pointer chain overflow" } else { "pointer overflow" },
        }
    }
}

/// The walk that resolves a saved row: without a pointer, the row's own `base` with nothing
/// to follow; with one, its module's address (`module_address`, which the caller resolved)
/// or its base, followed through its offsets.
pub fn resolve_memory_address(base: usize, pointer: Option<&PointerSpec>, module_address: Option<usize>, pointer_width: usize) -> (w: ChainWalk)
    requires
        pointer is Some && pointer.unwrap().module is Some ==> module_address is Some,
    ensures
        w.next == 0,
        w.pointer_width == pointer_width,
        match pointer {
            None => w.address == base && w.offsets@.len() == 0,
            Some(p) => w.offsets@ == p.offsets@ && w.address == match p.module {
                Some(_) => module_address.unwrap(),
                None => p.base,
            },
        },
{
    match pointer {
        None => ChainWalk::new(base, Vec::new(), pointer_width),
        Some(p) => {
            let root = match &p.module {
                Some(_) => match module_address {
                    Some(a) => a,
                    None => p.base,
                },
                None => p.base,
            };
            ChainWalk::new(root, copy_offsets(&p.offsets), pointer_width)
        },
    }
}

/// The walk that resolves an entity expression: from its address, or from the address its
/// module and offset resolved to (`module_address`, which the caller resolved), through its
/// chain.
pub fn resolve_entity_expression(expression: &EntityExpression, module_address: Option<usize>, pointer_width: usize) -> (w: ChainWalk)
    requires
        expression.root is Module ==> module_address is Some,
    ensures
        w.address == match expression.root {
            EntityRoot::Address(a) => a,
            EntityRoot::Module(_, _) => module_address.unwrap(),
        },
        w.next == 0,
        w.offsets@ == expression.offsets@,
        w.pointer_width == pointer_width,
{
    let root = match &expression.root {
        EntityRoot::Address(a) => *a,
        EntityRoot::Module(_, _) => match module_address {
            Some(m) => m,
            None => 0,
        },
    };
    ChainWalk::new(root, copy_offsets(&expression.offsets), pointer_width)
}

/// The pointer held by the bytes read at an address: a little-endian pointer of
/// `pointer_width` bytes, when exactly that many were read and the width is 4 or 8.
pub fn read_remote_pointer(bytes: &[u8], pointer_width: usize) -> (r: Option<usize>)
    ensures
        r == (if bytes@.len() == pointer_width && (pointer_width == 4 || pointer_width == 8) {
            Some(le_value(bytes@) as usize)
        } else {
            None::<usize>
        }),
{
    if bytes.len() == pointer_width {
        decode_pointer(bytes)
    } else {
        None
    }
}

} // verus!
