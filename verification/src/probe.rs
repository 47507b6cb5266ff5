//! Probes that identify an object in the target process by reading around it, one read at a
//! time: each probe names the bytes it needs next (an address and a length) and moves on
//! with what reading them gave, until it holds its answer.
use vstd::prelude::*;
use crate::rtti::{in_range, raw_name_spec, rtti_name_from_raw, rtti_type_descriptor, type_descriptor_spec};
use crate::structure::le_value;
use crate::chain::read_remote_pointer;
use crate::number::{hex_digits, hex_padded, push_hex_digits};
use crate::address::format_memory_address;
use crate::text::{join_with, lemma_join_push, owned, push_str};
use crate::pointer::{displacement_spec, instruction_memory_displacement};

verus! {

/// Where a class-name lookup stands: reading the locator pointer before the vtable, reading
/// the locator, reading the decorated name, or done with the name found (if any).
pub enum RttiStage {
    Locator,
    LocatorBytes(usize),
    Name(usize),
    Done(Option<String>),
}

/// What a lookup stage holds.
pub enum RttiStageModel {
    Locator,
    LocatorBytes(usize),
    Name(usize),
    Done(Option<Seq<char>>),
}

/// The lookup of the MSVC class name of an object from its vtable, in the module spanning
/// `module_size` bytes from `module_base`.
pub struct RttiLookup {
    pub vtable: usize,
    pub pointer_width: usize,
    pub module_base: usize,
    pub module_size: usize,
    pub stage: RttiStage,
}

impl RttiStage {
    pub open spec fn model(&self) -> RttiStageModel {
        match self {
            RttiStage::Locator => RttiStageModel::Locator,
            RttiStage::LocatorBytes(l) => RttiStageModel::LocatorBytes(*l),
            RttiStage::Name(a) => RttiStageModel::Name(*a),
            RttiStage::Done(r) => RttiStageModel::Done(match r {
                Some(s) => Some(s@),
                None => None,
            }),
        }
    }
}

/// The size of a complete-object locator for pointers of `pointer_width` bytes.
pub open spec fn locator_len(pointer_width: usize) -> usize {
    if pointer_width == 8 { 24 } else { 20 }
}

/// How many bytes of a decorated type name are read.
pub const NAME_READ_LEN: usize = 256;

/// The read a lookup of the vtable at `vtable` needs in `stage`, as (address, length), or
/// `None` once done.
pub open spec fn rtti_read(vtable: usize, pointer_width: usize, stage: RttiStageModel) -> Option<(usize, usize)> {
    match stage {
        RttiStageModel::Locator => if vtable >= pointer_width {
            Some(((vtable - pointer_width) as usize, pointer_width))
        } else {
            None
        },
        RttiStageModel::LocatorBytes(loc) => Some((loc, locator_len(pointer_width))),
        RttiStageModel::Name(a) => Some((a, NAME_READ_LEN)),
        RttiStageModel::Done(_) => None,
    }
}

/// The stage a lookup of the vtable at `vtable`, in the module spanning `module_size`
/// bytes from `module_base`, moves to from `stage` with `bytes`, what its read gave
/// (`None` when it failed).
pub open spec fn rtti_step(
    vtable: usize,
    pointer_width: usize,
    module_base: usize,
    module_size: usize,
    stage: RttiStageModel,
    bytes: Option<Seq<u8>>,
) -> RttiStageModel {
    match stage {
        RttiStageModel::Locator => match bytes {
            Some(b) => if b.len() == pointer_width && (pointer_width == 4 || pointer_width == 8)
                && in_range(module_base, module_size, le_value(b) as usize) {
                RttiStageModel::LocatorBytes(le_value(b) as usize)
            } else {
                RttiStageModel::Done(None)
            },
            None => RttiStageModel::Done(None),
        },
        RttiStageModel::LocatorBytes(loc) => match bytes {
            Some(b) => match type_descriptor_spec(loc, b, pointer_width, module_base) {
                Some((td, off)) => if td + off <= usize::MAX {
                    RttiStageModel::Name((td + off) as usize)
                } else {
                    RttiStageModel::Done(None)
                },
                None => RttiStageModel::Done(None),
            },
            None => RttiStageModel::Done(None),
        },
        RttiStageModel::Name(_) => RttiStageModel::Done(match bytes {
            Some(raw) => raw_name_spec(raw),
            None => None,
        }),
        RttiStageModel::Done(r) => RttiStageModel::Done(r),
    }
}

/// The stage a lookup starts in: reading the locator pointer, unless the vtable is below
/// one pointer or the width is neither 4 nor 8.
pub open spec fn rtti_start(vtable: usize, pointer_width: usize) -> RttiStageModel {
    if vtable >= pointer_width && (pointer_width == 4 || pointer_width == 8) {
        RttiStageModel::Locator
    } else {
        RttiStageModel::Done(None)
    }
}

/// Starts looking up the MSVC class name of an object whose vtable is at `vtable`, in the
/// module spanning `module_size` bytes from `module_base`: the locator pointer sits just
/// before the vtable. A vtable below one pointer, or a width other than 4 or 8, has none.
pub fn detect_msvc_rtti_name(vtable: usize, pointer_width: usize, module_base: usize, module_size: usize) -> (l: RttiLookup)
    ensures
        l.vtable == vtable,
        l.pointer_width == pointer_width,
        l.module_base == module_base,
        l.module_size == module_size,
        l.stage.model() == rtti_start(vtable, pointer_width),
{
    let stage = if vtable >= pointer_width && (pointer_width == 4 || pointer_width == 8) {
        RttiStage::Locator
    } else {
        RttiStage::Done(None)
    };
    RttiLookup { vtable, pointer_width, module_base, module_size, stage }
}

impl RttiLookup {
    /// The bytes to read next, as (address, length), or `None` once the lookup is done.
    pub fn next_read(&self) -> (r: Option<(usize, usize)>)
        ensures
            r == rtti_read(self.vtable, self.pointer_width, self.stage.model()),
    {
        match &self.stage {
            RttiStage::Locator => match self.vtable.checked_sub(self.pointer_width) {
                Some(a) => Some((a, self.pointer_width)),
                None => None,
            },
            RttiStage::LocatorBytes(loc) => Some((*loc, if self.pointer_width == 8 { 24 } else { 20 })),
            RttiStage::Name(a) => Some((*a, NAME_READ_LEN)),
            RttiStage::Done(_) => None,
        }
    }

    /// Moves on with what the read asked for gave.
    pub fn feed(&mut self, bytes: Option<Vec<u8>>)
        ensures
            final(self).stage.model() == rtti_step(
                old(self).vtable,
                old(self).pointer_width,
                old(self).module_base,
                old(self).module_size,
                old(self).stage.model(),
                match bytes {
                    Some(b) => Some(b@),
                    None => None,
                },
            ),
            final(self).vtable == old(self).vtable,
            final(self).pointer_width == old(self).pointer_width,
            final(self).module_base == old(self).module_base,
            final(self).module_size == old(self).module_size,
    {
        let next = match &self.stage {
            RttiStage::Locator => match &bytes {
                Some(b) => {
                    if b.len() == self.pointer_width {
                        match read_remote_pointer(b.as_slice(), self.pointer_width) {
                            Some(loc) => if crate::rtti::range_contains(self.module_base, self.module_size, loc) {
                                RttiStage::LocatorBytes(loc)
                            } else {
                                RttiStage::Done(None)
                            },
                            None => RttiStage::Done(None),
                        }
                    } else {
                        RttiStage::Done(None)
                    }
                },
                None => RttiStage::Done(None),
            },
            RttiStage::LocatorBytes(loc) => match &bytes {
                Some(b) => match rtti_type_descriptor(*loc, b.as_slice(), self.pointer_width, self.module_base) {
                    Some((td, off)) => match td.checked_add(off) {
                        Some(a) => RttiStage::Name(a),
                        None => RttiStage::Done(None),
                    },
                    None => RttiStage::Done(None),
                },
                None => RttiStage::Done(None),
            },
            RttiStage::Name(_) => RttiStage::Done(match &bytes {
                Some(raw) => rtti_name_from_raw(raw.as_slice()),
                None => None,
            }),
            RttiStage::Done(r) => RttiStage::Done(r.clone()),
        };
        self.stage = next;
    }

    /// The class name found, once the lookup is done.
    pub fn result(&self) -> (r: Option<String>)
        ensures
            match self.stage.model() {
                RttiStageModel::Done(name) => match r {
                    Some(s) => name == Some(s@),
                    None => name is None,
                },
                _ => r is None,
            },
    {
        match &self.stage {
            RttiStage::Done(r) => r.clone(),
            _ => None,
        }
    }
}

/// The class an object was identified as: its name, the address of the object, and how it
/// was found.
pub struct StructureIdentity {
    pub name: String,
    pub address: usize,
    pub evidence: String,
}

/// What an identity holds.
pub struct IdentityView {
    pub name: Seq<char>,
    pub address: usize,
    pub evidence: Seq<char>,
}

impl View for StructureIdentity {
    type V = IdentityView;

    open spec fn view(&self) -> IdentityView {
        IdentityView { name: self.name@, address: self.address, evidence: self.evidence@ }
    }
}

/// The index of the first module (name, base, size) whose span holds `address`.
pub open spec fn module_index(modules: Seq<(String, usize, usize)>, address: usize) -> Option<usize>
    decreases modules.len(),
{
    if modules.len() == 0 {
        None
    } else {
        match module_index(modules.drop_last(), address) {
            Some(i) => Some(i),
            None => if in_range(modules.last().1, modules.last().2, address) {
                Some((modules.len() - 1) as usize)
            } else {
                None
            },
        }
    }
}

/// A module found by `module_index` is one of the list.
proof fn lemma_module_index(modules: Seq<(String, usize, usize)>, address: usize)
    requires
        modules.len() <= usize::MAX,
    ensures
        module_index(modules, address) is Some ==> module_index(modules, address).unwrap() < modules.len()
            && in_range(modules[module_index(modules, address).unwrap() as int].1, modules[module_index(modules, address).unwrap() as int].2, address),
    decreases modules.len(),
{
    if modules.len() > 0 {
        lemma_module_index(modules.drop_last(), address);
        if module_index(modules.drop_last(), address) is Some {
            let i = module_index(modules.drop_last(), address).unwrap() as int;
            assert(modules.drop_last()[i] == modules[i]);
        }
    }
}

/// The index of the first module whose span holds `address`.
pub fn find_module_index(modules: &Vec<(String, usize, usize)>, address: usize) -> (r: Option<usize>)
    ensures
        r == module_index(modules@, address),
        r is Some ==> r.unwrap() < modules@.len() && in_range(modules@[r.unwrap() as int].1, modules@[r.unwrap() as int].2, address),
{
    let n = modules.len();
    proof {
        lemma_module_index(modules@, address);
    }
    let mut i: usize = 0;
    assert(modules@.subrange(0, 0) =~= Seq::<(String, usize, usize)>::empty());
    while i < n
        invariant
            n == modules@.len(),
            i <= modules@.len(),
            module_index(modules@.subrange(0, i as int), address) is None,
        decreases modules@.len() - i,
    {
        let ghost pre = modules@.subrange(0, i + 1);
        assert(pre.drop_last() == modules@.subrange(0, i as int));
        assert(pre.last() == modules@[i as int]);
        if crate::rtti::range_contains(modules[i].1, modules[i].2, address) {
            proof {
                lemma_module_index_prefix(modules@, address, i + 1);
            }
            return Some(i);
        }
        i = i + 1;
    }
    assert(modules@.subrange(0, modules@.len() as int) == modules@);
    None
}

/// A module found in a prefix of the list is the module found in the whole list.
proof fn lemma_module_index_prefix(modules: Seq<(String, usize, usize)>, address: usize, n: int)
    requires
        0 <= n <= modules.len(),
        module_index(modules.subrange(0, n), address) is Some,
    ensures
        module_index(modules, address) == module_index(modules.subrange(0, n), address),
    decreases modules.len() - n,
{
    if n < modules.len() {
        let pre = modules.subrange(0, n + 1);
        assert(pre.drop_last() == modules.subrange(0, n));
        lemma_module_index_prefix(modules, address, n + 1);
    } else {
        assert(modules.subrange(0, n) == modules);
    }
}

/// The pointer held by the bytes of a read, when exactly one pointer of `pointer_width`
/// (4 or 8) bytes was read.
pub open spec fn read_pointer_spec(bytes: Option<Seq<u8>>, pointer_width: usize) -> Option<usize> {
    match bytes {
        Some(b) => if b.len() == pointer_width && (pointer_width == 4 || pointer_width == 8) {
            Some(le_value(b) as usize)
        } else {
            None
        },
        None => None,
    }
}

/// The bytes of a read, as a sequence.
pub open spec fn read_view(bytes: Option<Vec<u8>>) -> Option<Seq<u8>> {
    match bytes {
        Some(b) => Some(b@),
        None => None,
    }
}

fn read_pointer(bytes: &Option<Vec<u8>>, pointer_width: usize) -> (r: Option<usize>)
    ensures
        r == read_pointer_spec(read_view(*bytes), pointer_width),
{
    match bytes {
        Some(b) => read_remote_pointer(b.as_slice(), pointer_width),
        None => None,
    }
}

/// The farthest a probe steps back from the selected field looking for the object base.
pub const FIELD_SEARCH_LIMIT: usize = 0x100;

/// The step between the object bases a probe tries.
pub const FIELD_SEARCH_STEP: usize = 4;

/// The note on an identity found below the selected field, in the form `fmt` writes it.
pub open spec fn below_field(off: usize, rtti: bool) -> Seq<char> {
    if off == 0 {
        Seq::empty()
    } else if rtti {
        " (-0x"@ + hex_digits(off as nat) + " from selected field)"@
    } else {
        "; object base is -0x"@ + hex_digits(off as nat) + " from selected field"@
    }
}

/// The identity of an object whose class name `class` was read from its run-time type
/// information, `off` bytes below the selected field.
pub open spec fn rtti_identity(class: Seq<char>, object: usize, off: usize) -> IdentityView {
    IdentityView {
        name: class,
        address: object,
        evidence: "MSVC RTTI: "@ + class + "; object base "@ + hex_padded(object as nat, 8) + below_field(off, true),
    }
}

/// The identity of an object with a vtable in `module` (based at `module_base`) but no
/// class name, `off` bytes below the selected field.
pub open spec fn vtable_identity(module: Seq<char>, module_base: usize, vtable: usize, object: usize, off: usize) -> IdentityView {
    IdentityView {
        name: "Unknown ("@ + module + " vtable)"@,
        address: object,
        evidence: "Vtable: "@ + module + "+"@ + hex_digits((vtable - module_base) as nat)
            + "; RTTI name is absent or stripped"@ + below_field(off, false),
    }
}

/// Where an identity probe stands: reading the vtable pointer of the object `off` bytes
/// below the field, reading the first method of a vtable found in module `mi`, looking up
/// the class name, or done.
pub enum StructureStage {
    Vtable(usize),
    FirstMethod(usize, usize, usize),
    Rtti(usize, usize, RttiLookup),
    Done(Option<StructureIdentity>),
}

/// What an identity probe stage holds; a lookup is given by its vtable and stage.
pub enum StructureStageModel {
    Vtable(usize),
    FirstMethod(usize, usize, usize),
    Rtti(usize, usize, usize, RttiStageModel),
    Done(Option<IdentityView>),
}

/// The view of an optional identity.
pub open spec fn identity_opt(r: Option<StructureIdentity>) -> Option<IdentityView> {
    match r {
        Some(i) => Some(i@),
        None => None,
    }
}

impl StructureStage {
    pub open spec fn model(&self) -> StructureStageModel {
        match self {
            StructureStage::Vtable(o) => StructureStageModel::Vtable(*o),
            StructureStage::FirstMethod(o, v, m) => StructureStageModel::FirstMethod(*o, *v, *m),
            StructureStage::Rtti(o, m, l) => StructureStageModel::Rtti(*o, *m, l.vtable, l.stage.model()),
            StructureStage::Done(r) => StructureStageModel::Done(identity_opt(*r)),
        }
    }
}

/// The probe that identifies the object around a selected field: trying each object base
/// from the field down by `FIELD_SEARCH_STEP` bytes, at most `FIELD_SEARCH_LIMIT` below it,
/// it reads a vtable pointer into a loaded module whose first method is also in a module,
/// and looks up the class name. The first base with a class name wins; else the first
/// base with such a vtable, as an unnamed class.
pub struct StructureProbe {
    pub field_address: usize,
    pub pointer_width: usize,
    /// The modules of the process: name, base and size.
    pub modules: Vec<(String, usize, usize)>,
    /// The first unnamed identity found.
    pub fallback: Option<StructureIdentity>,
    pub stage: StructureStage,
}

/// The stage that tries the base `off` bytes below the field next, or the end with the
/// fallback once no base is left.
pub open spec fn start_at(field: usize, off: int, fallback: Option<IdentityView>) -> StructureStageModel {
    if off > FIELD_SEARCH_LIMIT || off > field {
        StructureStageModel::Done(fallback)
    } else {
        StructureStageModel::Vtable(off as usize)
    }
}

/// What a probe moves to once the lookup for the base `off` bytes below the field, with
/// vtable `vt` in module `mi`, stands at `rs`: the named identity when it found a name;
/// when it found none, the next base, with the unnamed identity kept if none was yet.
pub open spec fn rtti_settle(
    field: usize,
    modules: Seq<(String, usize, usize)>,
    off: usize,
    mi: usize,
    vt: usize,
    rs: RttiStageModel,
    fallback: Option<IdentityView>,
) -> (StructureStageModel, Option<IdentityView>) {
    match rs {
        RttiStageModel::Done(Some(name)) => (
            StructureStageModel::Done(Some(rtti_identity(name, (field - off) as usize, off))),
            fallback,
        ),
        RttiStageModel::Done(None) => {
            let fb = if fallback is None {
                Some(vtable_identity(modules[mi as int].0@, modules[mi as int].1, vt, (field - off) as usize, off))
            } else {
                fallback
            };
            (start_at(field, off + FIELD_SEARCH_STEP, fb), fb)
        },
        _ => (StructureStageModel::Rtti(off, mi, vt, rs), fallback),
    }
}

/// The stage and fallback a probe moves to with `bytes`, what its read gave.
pub open spec fn structure_next(
    field: usize,
    pointer_width: usize,
    modules: Seq<(String, usize, usize)>,
    stage: StructureStageModel,
    fallback: Option<IdentityView>,
    bytes: Option<Seq<u8>>,
) -> (StructureStageModel, Option<IdentityView>) {
    match stage {
        StructureStageModel::Vtable(off) => match read_pointer_spec(bytes, pointer_width) {
            Some(vt) => match module_index(modules, vt) {
                Some(mi) => (StructureStageModel::FirstMethod(off, vt, mi), fallback),
                None => (start_at(field, off + FIELD_SEARCH_STEP, fallback), fallback),
            },
            None => (start_at(field, off + FIELD_SEARCH_STEP, fallback), fallback),
        },
        StructureStageModel::FirstMethod(off, vt, mi) => match read_pointer_spec(bytes, pointer_width) {
            Some(fm) => if module_index(modules, fm) is Some {
                rtti_settle(field, modules, off, mi, vt, rtti_start(vt, pointer_width), fallback)
            } else {
                (start_at(field, off + FIELD_SEARCH_STEP, fallback), fallback)
            },
            None => (start_at(field, off + FIELD_SEARCH_STEP, fallback), fallback),
        },
        StructureStageModel::Rtti(off, mi, vt, rs) => rtti_settle(
            field,
            modules,
            off,
            mi,
            vt,
            rtti_step(vt, pointer_width, modules[mi as int].1, modules[mi as int].2, rs, bytes),
            fallback,
        ),
        StructureStageModel::Done(r) => (StructureStageModel::Done(r), fallback),
    }
}

/// The read a probe needs next, as (address, length), or `None` once done.
pub open spec fn structure_read(field: usize, pointer_width: usize, stage: StructureStageModel) -> Option<(usize, usize)> {
    match stage {
        StructureStageModel::Vtable(off) => Some(((field - off) as usize, pointer_width)),
        StructureStageModel::FirstMethod(_, vt, _) => Some((vt, pointer_width)),
        StructureStageModel::Rtti(_, _, vt, rs) => rtti_read(vt, pointer_width, rs),
        StructureStageModel::Done(_) => None,
    }
}

impl StructureProbe {
    /// Whether the probe's stage is one it can be in: offsets within the field and the
    /// search limit, module indices in the list, and a lookup on that module that is not
    /// done.
    pub open spec fn wf(&self) -> bool {
        match self.stage {
            StructureStage::Vtable(o) => o <= self.field_address && o <= FIELD_SEARCH_LIMIT,
            StructureStage::FirstMethod(o, v, m) => {
                &&& o <= self.field_address
                &&& o <= FIELD_SEARCH_LIMIT
                &&& m < self.modules@.len()
                &&& in_range(self.modules@[m as int].1, self.modules@[m as int].2, v)
            },
            StructureStage::Rtti(o, m, l) => {
                &&& o <= self.field_address
                &&& o <= FIELD_SEARCH_LIMIT
                &&& m < self.modules@.len()
                &&& l.pointer_width == self.pointer_width
                &&& l.module_base == self.modules@[m as int].1
                &&& l.module_size == self.modules@[m as int].2
                &&& in_range(l.module_base, l.module_size, l.vtable)
                &&& !(l.stage.model() is Done)
            },
            StructureStage::Done(_) => true,
        }
    }
}

impl StructureIdentity {
    /// A copy of the identity.
    pub fn duplicate(&self) -> (r: StructureIdentity)
        ensures
            r@ == self@,
    {
        StructureIdentity { name: self.name.clone(), address: self.address, evidence: self.evidence.clone() }
    }
}

fn copy_identity(r: &Option<StructureIdentity>) -> (c: Option<StructureIdentity>)
    ensures
        identity_opt(c) == identity_opt(*r),
{
    match r {
        Some(i) => Some(i.duplicate()),
        None => None,
    }
}

/// The note on an identity found `off` bytes below the selected field.
fn below_field_text(off: usize, rtti: bool) -> (s: String)
    ensures
        s@ == below_field(off, rtti),
{
    let mut s = String::new();
    if off != 0 {
        if rtti {
            push_str(&mut s, " (-0x");
            push_hex_digits(&mut s, off as u64);
            push_str(&mut s, " from selected field)");
        } else {
            push_str(&mut s, "; object base is -0x");
            push_hex_digits(&mut s, off as u64);
            push_str(&mut s, " from selected field");
        }
        assert(s@ =~= below_field(off, rtti));
    }
    s
}

/// The identity of a named class found `off` bytes below the field.
fn make_rtti_identity(class: String, object: usize, off: usize) -> (r: StructureIdentity)
    ensures
        r@ == rtti_identity(class@, object, off),
{
    let mut evidence = owned("MSVC RTTI: ");
    push_str(&mut evidence, class.as_str());
    push_str(&mut evidence, "; object base ");
    let shown = format_memory_address(object);
    push_str(&mut evidence, shown.as_str());
    let note = below_field_text(off, true);
    push_str(&mut evidence, note.as_str());
    StructureIdentity { name: class, address: object, evidence }
}

/// The identity of an unnamed class with a vtable in `module`, found `off` bytes below the
/// field.
fn make_vtable_identity(module: &String, module_base: usize, vtable: usize, object: usize, off: usize) -> (r: StructureIdentity)
    requires
        module_base <= vtable,
    ensures
        r@ == vtable_identity(module@, module_base, vtable, object, off),
{
    let mut name = owned("Unknown (");
    push_str(&mut name, module.as_str());
    push_str(&mut name, " vtable)");
    let mut evidence = owned("Vtable: ");
    push_str(&mut evidence, module.as_str());
    push_str(&mut evidence, "+");
    push_hex_digits(&mut evidence, (vtable - module_base) as u64);
    push_str(&mut evidence, "; RTTI name is absent or stripped");
    let note = below_field_text(off, false);
    push_str(&mut evidence, note.as_str());
    StructureIdentity { name, address: object, evidence }
}

/// Starts identifying the object around the field at `field_address` in a process with
/// `pointer_width`-byte pointers and the given modules (name, base, size).
pub fn detect_structure_identity(field_address: usize, pointer_width: usize, modules: Vec<(String, usize, usize)>) -> (p: StructureProbe)
    ensures
        p.wf(),
        p.field_address == field_address,
        p.pointer_width == pointer_width,
        p.modules@ == modules@,
        p.fallback is None,
        p.stage.model() == StructureStageModel::Vtable(0),
{
    StructureProbe { field_address, pointer_width, modules, fallback: None, stage: StructureStage::Vtable(0) }
}

impl StructureProbe {
    /// The bytes to read next, as (address, length), or `None` once the probe is done.
    pub fn next_read(&self) -> (r: Option<(usize, usize)>)
        requires
            self.wf(),
        ensures
            r == structure_read(self.field_address, self.pointer_width, self.stage.model()),
    {
        match &self.stage {
            StructureStage::Vtable(off) => Some((self.field_address - *off, self.pointer_width)),
            StructureStage::FirstMethod(_, vt, _) => Some((*vt, self.pointer_width)),
            StructureStage::Rtti(_, _, l) => l.next_read(),
            StructureStage::Done(_) => None,
        }
    }

    /// The stage trying the base `off` bytes below the field next.
    fn start_at(&self, off: usize, fallback: &Option<StructureIdentity>) -> (s: StructureStage)
        ensures
            s.model() == start_at(self.field_address, off as int, identity_opt(*fallback)),
            s is Vtable ==> s->Vtable_0 <= self.field_address && s->Vtable_0 <= FIELD_SEARCH_LIMIT,
    {
        if off > FIELD_SEARCH_LIMIT || off > self.field_address {
            StructureStage::Done(copy_identity(fallback))
        } else {
            StructureStage::Vtable(off)
        }
    }

    /// The stage and fallback once the lookup `l` for the base `off` bytes below the field,
    /// on module `mi`, stands where it does.
    fn settle(&self, off: usize, mi: usize, l: RttiLookup, fallback: Option<StructureIdentity>) -> (r: (StructureStage, Option<StructureIdentity>))
        requires
            off <= self.field_address,
            off <= FIELD_SEARCH_LIMIT,
            mi < self.modules@.len(),
            l.pointer_width == self.pointer_width,
            l.module_base == self.modules@[mi as int].1,
            l.module_size == self.modules@[mi as int].2,
            in_range(l.module_base, l.module_size, l.vtable),
        ensures
            (r.0.model(), identity_opt(r.1)) == rtti_settle(
                self.field_address,
                self.modules@,
                off,
                mi,
                l.vtable,
                l.stage.model(),
                identity_opt(fallback),
            ),
            (StructureProbe { stage: r.0, fallback: r.1, ..*self }).wf(),
    {
        let object = self.field_address - off;
        match &l.stage {
            RttiStage::Done(found) => match found {
                Some(name) => {
                    let id = make_rtti_identity(name.clone(), object, off);
                    (StructureStage::Done(Some(id)), fallback)
                },
                None => {
                    let fb = match fallback {
                        Some(f) => Some(f),
                        None => Some(make_vtable_identity(&self.modules[mi].0, self.modules[mi].1, l.vtable, object, off)),
                    };
                    let next = self.start_at(off + FIELD_SEARCH_STEP, &fb);
                    (next, fb)
                },
            },
            _ => (StructureStage::Rtti(off, mi, l), fallback),
        }
    }

    /// Moves on with what the read asked for gave.
    pub fn feed(&mut self, bytes: Option<Vec<u8>>)
        requires
            old(self).wf(),
        ensures
            final(self).wf(),
            (final(self).stage.model(), identity_opt(final(self).fallback)) == structure_next(
                old(self).field_address,
                old(self).pointer_width,
                old(self).modules@,
                old(self).stage.model(),
                identity_opt(old(self).fallback),
                read_view(bytes),
            ),
            final(self).field_address == old(self).field_address,
            final(self).pointer_width == old(self).pointer_width,
            final(self).modules@ == old(self).modules@,
    {
        let w = self.pointer_width;
        let mut stage = StructureStage::Done(None);
        std::mem::swap(&mut stage, &mut self.stage);
        let mut fallback: Option<StructureIdentity> = None;
        std::mem::swap(&mut fallback, &mut self.fallback);
        let (next, fb) = match stage {
            StructureStage::Vtable(off) => match read_pointer(&bytes, w) {
                Some(vt) => match find_module_index(&self.modules, vt) {
                    Some(mi) => (StructureStage::FirstMethod(off, vt, mi), fallback),
                    None => (self.start_at(off + FIELD_SEARCH_STEP, &fallback), fallback),
                },
                None => (self.start_at(off + FIELD_SEARCH_STEP, &fallback), fallback),
            },
            StructureStage::FirstMethod(off, vt, mi) => match read_pointer(&bytes, w) {
                Some(fm) => if find_module_index(&self.modules, fm).is_some() {
                    let l = detect_msvc_rtti_name(vt, w, self.modules[mi].1, self.modules[mi].2);
                    self.settle(off, mi, l, fallback)
                } else {
                    (self.start_at(off + FIELD_SEARCH_STEP, &fallback), fallback)
                },
                None => (self.start_at(off + FIELD_SEARCH_STEP, &fallback), fallback),
            },
            StructureStage::Rtti(off, mi, l) => {
                let mut l = l;
                l.feed(bytes);
                self.settle(off, mi, l, fallback)
            },
            StructureStage::Done(r) => (StructureStage::Done(r), fallback),
        };
        self.stage = next;
        self.fallback = fb;
    }

    /// The identity found, once the probe is done.
    pub fn result(&self) -> (r: Option<StructureIdentity>)
        ensures
            match self.stage.model() {
                StructureStageModel::Done(found) => identity_opt(r) == found,
                _ => r is None,
            },
    {
        match &self.stage {
            StructureStage::Done(r) => copy_identity(r),
            _ => None,
        }
    }
}

/// The most module pointers an object signature records.
pub const SIGNATURE_ENTRIES: usize = 3;

/// How far into an object its signature looks for module pointers.
pub const SIGNATURE_OBJECT_SPAN: usize = 0x400;

/// How far into a nested object its signature looks.
pub const SIGNATURE_NESTED_SPAN: usize = 0x100;

/// Where a pointer into a loaded module points: the first module (name, base, size) whose
/// span holds it, as `module+offset` with the offset in hexadecimal.
pub open spec fn module_signature(modules: Seq<(String, usize, usize)>, p: usize) -> Option<Seq<char>> {
    match module_index(modules, p) {
        Some(i) => Some(modules[i as int].0@ + "+"@ + hex_digits((p - modules[i as int].1) as nat)),
        None => None,
    }
}

/// Where an object-signature probe stands: reading the pointer at a slot of the object,
/// reading the pointer at a slot that may lead to a nested object, reading a slot of that
/// nested object (root slot, nested base, nested slot), or done.
pub enum SignatureStage {
    Direct(usize),
    NestedRoot(usize),
    Nested(usize, usize, usize),
    Done(Option<String>),
}

/// What a signature stage holds.
pub enum SignatureStageModel {
    Direct(usize),
    NestedRoot(usize),
    Nested(usize, usize, usize),
    Done(Option<Seq<char>>),
}

impl SignatureStage {
    pub open spec fn model(&self) -> SignatureStageModel {
        match self {
            SignatureStage::Direct(s) => SignatureStageModel::Direct(*s),
            SignatureStage::NestedRoot(r) => SignatureStageModel::NestedRoot(*r),
            SignatureStage::Nested(r, b, j) => SignatureStageModel::Nested(*r, *b, *j),
            SignatureStage::Done(r) => SignatureStageModel::Done(match r {
                Some(s) => Some(s@),
                None => None,
            }),
        }
    }
}

/// The probe that records what an object points into, so that the same object can be found
/// again after the modules move: up to three of its pointer slots that point into a loaded
/// module (`slot=module+offset`), or, when it has none, up to three such slots of the
/// objects it points to (`root>slot=module+offset`).
pub struct SignatureProbe {
    pub object_base: usize,
    pub pointer_width: usize,
    pub modules: Vec<(String, usize, usize)>,
    /// The entries found so far.
    pub entries: Vec<String>,
    pub stage: SignatureStage,
}

/// The entries joined with `;`, or nothing when there are none.
pub open spec fn joined(entries: Seq<Seq<char>>) -> Option<Seq<char>> {
    if entries.len() == 0 { None } else { Some(join_with(entries, seq![';'])) }
}

/// The stage reading the nested-object pointer at root slot `root` next, or the end.
pub open spec fn nested_from(base: usize, w: usize, root: int, entries: Seq<Seq<char>>) -> SignatureStageModel {
    if root >= SIGNATURE_OBJECT_SPAN || base + root > usize::MAX {
        SignatureStageModel::Done(joined(entries))
    } else {
        SignatureStageModel::NestedRoot(root as usize)
    }
}

/// The stage reading slot `slot` of the object next, or the nested search once none is
/// left and nothing was found.
pub open spec fn direct_from(base: usize, w: usize, slot: int, entries: Seq<Seq<char>>) -> SignatureStageModel {
    if slot >= SIGNATURE_OBJECT_SPAN || base + slot > usize::MAX {
        if entries.len() > 0 {
            SignatureStageModel::Done(joined(entries))
        } else {
            nested_from(base, w, 0, entries)
        }
    } else {
        SignatureStageModel::Direct(slot as usize)
    }
}

/// The stage reading slot `j` of the nested object at `nb` (from root slot `root`) next,
/// or the next root slot.
pub open spec fn inner_from(base: usize, w: usize, root: usize, nb: usize, j: int, entries: Seq<Seq<char>>) -> SignatureStageModel {
    if j >= SIGNATURE_NESTED_SPAN || nb + j > usize::MAX {
        nested_from(base, w, root + w, entries)
    } else {
        SignatureStageModel::Nested(root, nb, j as usize)
    }
}

/// The entries and stage a probe moves to with `bytes`, what its read gave.
pub open spec fn signature_next(
    base: usize,
    w: usize,
    modules: Seq<(String, usize, usize)>,
    stage: SignatureStageModel,
    entries: Seq<Seq<char>>,
    bytes: Option<Seq<u8>>,
) -> (SignatureStageModel, Seq<Seq<char>>) {
    let p = read_pointer_spec(bytes, w);
    match stage {
        SignatureStageModel::Direct(slot) => {
            let e = match p {
                Some(q) => match module_signature(modules, q) {
                    Some(sig) => entries.push(hex_digits(slot as nat) + "="@ + sig),
                    None => entries,
                },
                None => entries,
            };
            if e.len() == SIGNATURE_ENTRIES {
                (SignatureStageModel::Done(joined(e)), e)
            } else {
                (direct_from(base, w, slot + w, e), e)
            }
        },
        SignatureStageModel::NestedRoot(root) => match p {
            Some(nb) => if nb == 0 {
                (nested_from(base, w, root + w, entries), entries)
            } else {
                (inner_from(base, w, root, nb, 0, entries), entries)
            },
            None => (nested_from(base, w, root + w, entries), entries),
        },
        SignatureStageModel::Nested(root, nb, j) => {
            let e = match p {
                Some(q) => match module_signature(modules, q) {
                    Some(sig) => entries.push(hex_digits(root as nat) + ">"@ + hex_digits(j as nat) + "="@ + sig),
                    None => entries,
                },
                None => entries,
            };
            if e.len() == SIGNATURE_ENTRIES {
                (SignatureStageModel::Done(joined(e)), e)
            } else {
                (inner_from(base, w, root, nb, j + w, e), e)
            }
        },
        SignatureStageModel::Done(r) => (SignatureStageModel::Done(r), entries),
    }
}

/// The read a probe needs next, as (address, length), or `None` once done.
pub open spec fn signature_read(base: usize, w: usize, stage: SignatureStageModel) -> Option<(usize, usize)> {
    match stage {
        SignatureStageModel::Direct(slot) => Some(((base + slot) as usize, w)),
        SignatureStageModel::NestedRoot(root) => Some(((base + root) as usize, w)),
        SignatureStageModel::Nested(_, nb, j) => Some(((nb + j) as usize, w)),
        SignatureStageModel::Done(_) => None,
    }
}

/// The entries found, as text.
pub open spec fn entries_view(v: Seq<String>) -> Seq<Seq<char>> {
    v.map_values(|s: String| s@)
}

impl SignatureProbe {
    /// Whether the probe's stage is one it can be in: a pointer width of 4 or 8 while it
    /// reads, slots inside their spans whose addresses do not overflow, and fewer entries
    /// than it records.
    pub open spec fn wf(&self) -> bool {
        &&& self.entries@.len() < SIGNATURE_ENTRIES || self.stage is Done
        &&& !(self.stage is Done) ==> (self.pointer_width == 4 || self.pointer_width == 8)
        &&& match self.stage {
            SignatureStage::Direct(s) => s < SIGNATURE_OBJECT_SPAN && self.object_base + s <= usize::MAX,
            SignatureStage::NestedRoot(r) => r < SIGNATURE_OBJECT_SPAN && self.object_base + r <= usize::MAX,
            SignatureStage::Nested(r, b, j) => r < SIGNATURE_OBJECT_SPAN && j < SIGNATURE_NESTED_SPAN && b + j <= usize::MAX,
            SignatureStage::Done(_) => true,
        }
    }

    /// The stage reading root slot `root` next, or the end.
    fn nested_from(&self, root: usize) -> (s: SignatureStage)
        requires
            root <= SIGNATURE_OBJECT_SPAN + 8,
        ensures
            s.model() == nested_from(self.object_base, self.pointer_width, root as int, entries_view(self.entries@)),
            s is NestedRoot ==> s->NestedRoot_0 < SIGNATURE_OBJECT_SPAN && self.object_base + s->NestedRoot_0 <= usize::MAX,
    {
        if root >= SIGNATURE_OBJECT_SPAN || self.object_base > usize::MAX - root {
            SignatureStage::Done(join_entries(&self.entries))
        } else {
            SignatureStage::NestedRoot(root)
        }
    }

    /// The stage reading slot `slot` of the object next, or what follows the direct slots.
    fn direct_from(&self, slot: usize) -> (s: SignatureStage)
        requires
            slot <= SIGNATURE_OBJECT_SPAN + 8,
        ensures
            s.model() == direct_from(self.object_base, self.pointer_width, slot as int, entries_view(self.entries@)),
            s is Direct ==> s->Direct_0 < SIGNATURE_OBJECT_SPAN && self.object_base + s->Direct_0 <= usize::MAX,
            s is NestedRoot ==> s->NestedRoot_0 < SIGNATURE_OBJECT_SPAN && self.object_base + s->NestedRoot_0 <= usize::MAX
                && self.entries@.len() == 0,
    {
        if slot >= SIGNATURE_OBJECT_SPAN || self.object_base > usize::MAX - slot {
            if self.entries.len() > 0 {
                SignatureStage::Done(join_entries(&self.entries))
            } else {
                self.nested_from(0)
            }
        } else {
            SignatureStage::Direct(slot)
        }
    }

    /// The stage reading slot `j` of the nested object at `nb` next, or the next root slot.
    fn inner_from(&self, root: usize, nb: usize, j: usize) -> (s: SignatureStage)
        requires
            root < SIGNATURE_OBJECT_SPAN,
            j <= SIGNATURE_NESTED_SPAN + 8,
            self.pointer_width <= 8,
        ensures
            s.model() == inner_from(self.object_base, self.pointer_width, root, nb, j as int, entries_view(self.entries@)),
            s is Nested ==> s->Nested_0 == root && s->Nested_1 == nb && s->Nested_2 < SIGNATURE_NESTED_SPAN && nb + s->Nested_2 <= usize::MAX,
            s is NestedRoot ==> s->NestedRoot_0 < SIGNATURE_OBJECT_SPAN && self.object_base + s->NestedRoot_0 <= usize::MAX,
    {
        if j >= SIGNATURE_NESTED_SPAN || nb > usize::MAX - j {
            self.nested_from(root + self.pointer_width)
        } else {
            SignatureStage::Nested(root, nb, j)
        }
    }
}

/// The entries joined with `;`, or `None` when there are none.
fn join_entries(entries: &Vec<String>) -> (r: Option<String>)
    ensures
        match r {
            Some(s) => joined(entries_view(entries@)) == Some(s@),
            None => joined(entries_view(entries@)) is None,
        },
{
    if entries.len() == 0 {
        return None;
    }
    let ghost all = entries_view(entries@);
    let mut s = entries[0].clone();
    let mut i: usize = 1;
    assert(all.subrange(0, 1) =~= seq![all[0]]);
    assert(join_with(all.subrange(0, 1), seq![';']) == all[0]);
    while i < entries.len()
        invariant
            1 <= i <= entries@.len(),
            all == entries_view(entries@),
            s@ == join_with(all.subrange(0, i as int), seq![';']),
        decreases entries@.len() - i,
    {
        proof {
            lemma_join_push(all.subrange(0, i as int), seq![';'], all[i as int]);
            assert(all.subrange(0, i as int).push(all[i as int]) == all.subrange(0, i + 1));
        }
        crate::text::push_char(&mut s, ';');
        push_str(&mut s, entries[i].as_str());
        assert(s@ =~= join_with(all.subrange(0, i as int), seq![';']) + seq![';'] + all[i as int]);
        i = i + 1;
    }
    assert(all.subrange(0, all.len() as int) == all);
    Some(s)
}

/// Where a pointer into a loaded module points, as `module+offset`.
fn module_signature_text(modules: &Vec<(String, usize, usize)>, p: usize) -> (r: Option<String>)
    ensures
        match r {
            Some(s) => module_signature(modules@, p) == Some(s@),
            None => module_signature(modules@, p) is None,
        },
{
    match find_module_index(modules, p) {
        Some(i) => {
            let mut s = modules[i].0.clone();
            push_str(&mut s, "+");
            push_hex_digits(&mut s, (p - modules[i].1) as u64);
            Some(s)
        },
        None => None,
    }
}

/// Starts recording the signature of the object an instruction accessed: `captured` is the
/// address it accessed and `instruction` its text, whose memory displacement leads back to
/// the object base. Gives `None` when that base leaves the address range.
pub fn tracked_object_signature(
    captured: usize,
    instruction: &str,
    pointer_width: usize,
    modules: Vec<(String, usize, usize)>,
) -> (r: Option<SignatureProbe>)
    requires
        displacement_spec(instruction@) != isize::MIN,
        pointer_width > 0,
    ensures
        match r {
            Some(p) => {
                &&& p.wf()
                &&& p.object_base == captured - displacement_spec(instruction@)
                &&& p.pointer_width == pointer_width
                &&& p.modules@ == modules@
                &&& p.entries@.len() == 0
                &&& p.stage.model() == (if pointer_width == 4 || pointer_width == 8 {
                    direct_from(p.object_base, pointer_width, 0, Seq::empty())
                } else {
                    SignatureStageModel::Done(None)
                })
            },
            None => !(0 <= captured - displacement_spec(instruction@) <= usize::MAX),
        },
{
    let d = instruction_memory_displacement(instruction);
    let base_i: i128 = captured as i128 - d as i128;
    if base_i < 0 || base_i > usize::MAX as i128 {
        return None;
    }
    let object_base = base_i as usize;
    let mut probe = SignatureProbe { object_base, pointer_width, modules, entries: Vec::new(), stage: SignatureStage::Done(None) };
    if pointer_width == 4 || pointer_width == 8 {
        assert(entries_view(probe.entries@) =~= Seq::<Seq<char>>::empty());
        probe.stage = probe.direct_from(0);
    }
    Some(probe)
}

impl SignatureProbe {
    /// The bytes to read next, as (address, length), or `None` once the probe is done.
    pub fn next_read(&self) -> (r: Option<(usize, usize)>)
        requires
            self.wf(),
        ensures
            r == signature_read(self.object_base, self.pointer_width, self.stage.model()),
    {
        match &self.stage {
            SignatureStage::Direct(slot) => Some((self.object_base + *slot, self.pointer_width)),
            SignatureStage::NestedRoot(root) => Some((self.object_base + *root, self.pointer_width)),
            SignatureStage::Nested(_, nb, j) => Some((*nb + *j, self.pointer_width)),
            SignatureStage::Done(_) => None,
        }
    }

    /// Moves on with what the read asked for gave.
    pub fn feed(&mut self, bytes: Option<Vec<u8>>)
        requires
            old(self).wf(),
        ensures
            final(self).wf(),
            (final(self).stage.model(), entries_view(final(self).entries@)) == signature_next(
                old(self).object_base,
                old(self).pointer_width,
                old(self).modules@,
                old(self).stage.model(),
                entries_view(old(self).entries@),
                read_view(bytes),
            ),
            final(self).object_base == old(self).object_base,
            final(self).pointer_width == old(self).pointer_width,
            final(self).modules@ == old(self).modules@,
    {
        let w = self.pointer_width;
        let p = read_pointer(&bytes, w);
        match self.stage {
            SignatureStage::Direct(slot) => {
                if let Some(q) = p {
                    if let Some(sig) = module_signature_text(&self.modules, q) {
                        let mut e = String::new();
                        push_hex_digits(&mut e, slot as u64);
                        push_str(&mut e, "=");
                        push_str(&mut e, sig.as_str());
                        let ghost before = entries_view(self.entries@);
                        let ghost ev = e@;
                        self.entries.push(e);
                        assert(entries_view(self.entries@) =~= before.push(ev));
                    }
                }
                if self.entries.len() == SIGNATURE_ENTRIES {
                    self.stage = SignatureStage::Done(join_entries(&self.entries));
                } else {
                    self.stage = self.direct_from(slot + w);
                }
            },
            SignatureStage::NestedRoot(root) => {
                match p {
                    Some(nb) => if nb == 0 {
                        self.stage = self.nested_from(root + w);
                    } else {
                        self.stage = self.inner_from(root, nb, 0);
                    },
                    None => {
                        self.stage = self.nested_from(root + w);
                    },
                }
            },
            SignatureStage::Nested(root, nb, j) => {
                if let Some(q) = p {
                    if let Some(sig) = module_signature_text(&self.modules, q) {
                        let mut e = String::new();
                        push_hex_digits(&mut e, root as u64);
                        push_str(&mut e, ">");
                        push_hex_digits(&mut e, j as u64);
                        push_str(&mut e, "=");
                        push_str(&mut e, sig.as_str());
                        let ghost before = entries_view(self.entries@);
                        let ghost ev = e@;
                        self.entries.push(e);
                        assert(entries_view(self.entries@) =~= before.push(ev));
                    }
                }
                if self.entries.len() == SIGNATURE_ENTRIES {
                    self.stage = SignatureStage::Done(join_entries(&self.entries));
                } else {
                    self.stage = self.inner_from(root, nb, j + w);
                }
            },
            SignatureStage::Done(_) => {},
        }
    }

    /// The signature found, once the probe is done.
    pub fn result(&self) -> (r: Option<String>)
        ensures
            match self.stage.model() {
                SignatureStageModel::Done(found) => match r {
                    Some(s) => found == Some(s@),
                    None => found is None,
                },
                _ => r is None,
            },
    {
        match &self.stage {
            SignatureStage::Done(r) => r.clone(),
            _ => None,
        }
    }
}


/// How many reads a class-name lookup in `stage` has left at most.
pub open spec fn rtti_measure(stage: RttiStageModel) -> nat {
    match stage {
        RttiStageModel::Locator => 3,
        RttiStageModel::LocatorBytes(_) => 2,
        RttiStageModel::Name(_) => 1,
        RttiStageModel::Done(_) => 0,
    }
}

/// A class-name lookup ends: whatever a read gives, the lookup moves closer to done, so it
/// is done after at most three reads.
pub proof fn lemma_rtti_lookup_ends(
    vtable: usize,
    pointer_width: usize,
    module_base: usize,
    module_size: usize,
    stage: RttiStageModel,
    bytes: Option<Seq<u8>>,
)
    requires
        !(stage is Done),
    ensures
        rtti_measure(rtti_step(vtable, pointer_width, module_base, module_size, stage, bytes)) < rtti_measure(stage),
{
}

/// How many steps an identity probe in `stage` has left at most: each object base below the
/// field takes at most seven.
pub open spec fn structure_measure(stage: StructureStageModel) -> int {
    match stage {
        StructureStageModel::Vtable(off) => (FIELD_SEARCH_LIMIT + FIELD_SEARCH_STEP - off) * 8 + 7,
        StructureStageModel::FirstMethod(off, _, _) => (FIELD_SEARCH_LIMIT + FIELD_SEARCH_STEP - off) * 8 + 6,
        StructureStageModel::Rtti(off, _, _, rs) => (FIELD_SEARCH_LIMIT + FIELD_SEARCH_STEP - off) * 8 + rtti_measure(rs),
        StructureStageModel::Done(_) => 0,
    }
}

/// An identity probe ends: whatever a read gives, the probe moves closer to done, and it
/// is never less than done.
pub proof fn lemma_structure_probe_ends(
    field: usize,
    pointer_width: usize,
    modules: Seq<(String, usize, usize)>,
    stage: StructureStageModel,
    fallback: Option<IdentityView>,
    bytes: Option<Seq<u8>>,
)
    requires
        !(stage is Done),
        match stage {
            StructureStageModel::Vtable(off) => off <= FIELD_SEARCH_LIMIT,
            StructureStageModel::FirstMethod(off, _, _) => off <= FIELD_SEARCH_LIMIT,
            StructureStageModel::Rtti(off, _, _, _) => off <= FIELD_SEARCH_LIMIT,
            StructureStageModel::Done(_) => true,
        },
    ensures
        0 <= structure_measure(structure_next(field, pointer_width, modules, stage, fallback, bytes).0) < structure_measure(stage),
{
    match stage {
        StructureStageModel::Rtti(off, mi, vt, rs) => {
            if !(rs is Done) {
                lemma_rtti_lookup_ends(vt, pointer_width, modules[mi as int].1, modules[mi as int].2, rs, bytes);
            }
        },
        _ => {},
    }
}

/// How many reads an object-signature probe in `stage` has left at most: the nested search
/// takes at most `SIGNATURE_NESTED_SPAN + 2` per root slot, and the direct slots come
/// before all of it.
pub open spec fn signature_measure(stage: SignatureStageModel) -> int {
    let n = SIGNATURE_NESTED_SPAN + 2;
    match stage {
        SignatureStageModel::Direct(s) => (SIGNATURE_OBJECT_SPAN + 1) * n + SIGNATURE_OBJECT_SPAN - s,
        SignatureStageModel::NestedRoot(r) => (SIGNATURE_OBJECT_SPAN - r) * n + SIGNATURE_NESTED_SPAN + 1,
        SignatureStageModel::Nested(r, _, j) => (SIGNATURE_OBJECT_SPAN - r) * n + SIGNATURE_NESTED_SPAN - j,
        SignatureStageModel::Done(_) => 0,
    }
}

/// An object-signature probe ends: whatever a read gives, the probe moves closer to done,
/// and it is never less than done.
pub proof fn lemma_signature_probe_ends(
    base: usize,
    pointer_width: usize,
    modules: Seq<(String, usize, usize)>,
    stage: SignatureStageModel,
    entries: Seq<Seq<char>>,
    bytes: Option<Seq<u8>>,
)
    requires
        !(stage is Done),
        pointer_width == 4 || pointer_width == 8,
        match stage {
            SignatureStageModel::Direct(s) => s < SIGNATURE_OBJECT_SPAN,
            SignatureStageModel::NestedRoot(r) => r < SIGNATURE_OBJECT_SPAN,
            SignatureStageModel::Nested(r, _, j) => r < SIGNATURE_OBJECT_SPAN && j < SIGNATURE_NESTED_SPAN,
            SignatureStageModel::Done(_) => true,
        },
    ensures
        0 <= signature_measure(signature_next(base, pointer_width, modules, stage, entries, bytes).0) < signature_measure(stage),
{
}

/// Whether the identity probe tries the object base `off` bytes below field `field`: a
/// multiple of `FIELD_SEARCH_STEP`, at most `FIELD_SEARCH_LIMIT`, and no farther than the
/// field is from address 0.
pub open spec fn tried_offset(field: usize, off: int) -> bool {
    &&& 0 <= off <= FIELD_SEARCH_LIMIT
    &&& off % (FIELD_SEARCH_STEP as int) == 0
    &&& off <= field
}

/// Whether identity `r`, when there is one, is of an object based a tried offset below
/// field `field`.
pub open spec fn identity_near_field(field: usize, r: Option<IdentityView>) -> bool {
    r matches Some(i) ==> exists|off: int| #[trigger] tried_offset(field, off) && i.address == field - off
}

/// Whether an identity probe stage tries a base at a tried offset below field `field`, or,
/// once done, found an identity near the field.
pub open spec fn structure_stage_near_field(field: usize, stage: StructureStageModel) -> bool {
    match stage {
        StructureStageModel::Vtable(off) => tried_offset(field, off as int),
        StructureStageModel::FirstMethod(off, _, _) => tried_offset(field, off as int),
        StructureStageModel::Rtti(off, _, _, _) => tried_offset(field, off as int),
        StructureStageModel::Done(r) => identity_near_field(field, r),
    }
}

/// The stage and fallback of an identity probe after the reads `reads` gave what they
/// gave, one step each.
pub open spec fn structure_run(
    field: usize,
    pointer_width: usize,
    modules: Seq<(String, usize, usize)>,
    stage: StructureStageModel,
    fallback: Option<IdentityView>,
    reads: Seq<Option<Seq<u8>>>,
) -> (StructureStageModel, Option<IdentityView>)
    decreases reads.len(),
{
    if reads.len() == 0 {
        (stage, fallback)
    } else {
        let (s, f) = structure_next(field, pointer_width, modules, stage, fallback, reads[0]);
        structure_run(field, pointer_width, modules, s, f, reads.drop_first())
    }
}

/// One step of an identity probe keeps its stage and fallback near the field.
proof fn lemma_structure_step_near_field(
    field: usize,
    pointer_width: usize,
    modules: Seq<(String, usize, usize)>,
    stage: StructureStageModel,
    fallback: Option<IdentityView>,
    bytes: Option<Seq<u8>>,
)
    requires
        structure_stage_near_field(field, stage),
        identity_near_field(field, fallback),
    ensures
        ({
            let (s, f) = structure_next(field, pointer_width, modules, stage, fallback, bytes);
            structure_stage_near_field(field, s) && identity_near_field(field, f)
        }),
{
    let (s, f) = structure_next(field, pointer_width, modules, stage, fallback, bytes);
    match stage {
        StructureStageModel::Vtable(off) => {
            assert(tried_offset(field, off as int));
        },
        StructureStageModel::FirstMethod(off, vt, mi) => {
            assert(tried_offset(field, off as int));
        },
        StructureStageModel::Rtti(off, mi, vt, rs) => {
            assert(tried_offset(field, off as int));
        },
        StructureStageModel::Done(r) => {},
    }
}

/// The identity an identity probe finds is of an object based below the selected field by
/// a multiple of `FIELD_SEARCH_STEP` of at most `FIELD_SEARCH_LIMIT` bytes: whatever its
/// reads give, from its start on, every stage it reaches tries such a base or holds such an
/// identity, and so does the unnamed identity it keeps.
pub proof fn lemma_structure_identity_near_field(
    field: usize,
    pointer_width: usize,
    modules: Seq<(String, usize, usize)>,
    reads: Seq<Option<Seq<u8>>>,
)
    ensures
        ({
            let (s, f) = structure_run(field, pointer_width, modules, StructureStageModel::Vtable(0), None, reads);
            structure_stage_near_field(field, s) && identity_near_field(field, f)
        }),
{
    assert(tried_offset(field, 0));
    lemma_structure_run_near_field(field, pointer_width, modules, StructureStageModel::Vtable(0), None, reads);
}

proof fn lemma_structure_run_near_field(
    field: usize,
    pointer_width: usize,
    modules: Seq<(String, usize, usize)>,
    stage: StructureStageModel,
    fallback: Option<IdentityView>,
    reads: Seq<Option<Seq<u8>>>,
)
    requires
        structure_stage_near_field(field, stage),
        identity_near_field(field, fallback),
    ensures
        ({
            let (s, f) = structure_run(field, pointer_width, modules, stage, fallback, reads);
            structure_stage_near_field(field, s) && identity_near_field(field, f)
        }),
    decreases reads.len(),
{
    if reads.len() > 0 {
        lemma_structure_step_near_field(field, pointer_width, modules, stage, fallback, reads[0]);
        let (s, f) = structure_next(field, pointer_width, modules, stage, fallback, reads[0]);
        lemma_structure_run_near_field(field, pointer_width, modules, s, f, reads.drop_first());
    }
}

/// Whether `e` is a direct entry of an object signature: a slot offset in hexadecimal, `=`,
/// and where the pointer in that slot points into a loaded module (`slot=module+offset`).
pub open spec fn direct_entry(modules: Seq<(String, usize, usize)>, e: Seq<char>) -> bool {
    exists|slot: nat, p: usize|
        #![trigger hex_digits(slot), module_signature(modules, p)]
        module_signature(modules, p) is Some && e == hex_digits(slot) + "="@ + module_signature(modules, p)->0
}

/// Whether `e` is a nested entry of an object signature: the root slot and the slot of the
/// object it points to, in hexadecimal, and where the pointer there points into a loaded
/// module (`root>slot=module+offset`).
pub open spec fn nested_entry(modules: Seq<(String, usize, usize)>, e: Seq<char>) -> bool {
    exists|root: nat, slot: nat, p: usize|
        #![trigger hex_digits(root), hex_digits(slot), module_signature(modules, p)]
        module_signature(modules, p) is Some
            && e == hex_digits(root) + ">"@ + hex_digits(slot) + "="@ + module_signature(modules, p)->0
}

/// Whether every entry is direct.
pub open spec fn all_direct(modules: Seq<(String, usize, usize)>, entries: Seq<Seq<char>>) -> bool {
    forall|i: int| 0 <= i < entries.len() ==> direct_entry(modules, #[trigger] entries[i])
}

/// Whether every entry is nested.
pub open spec fn all_nested(modules: Seq<(String, usize, usize)>, entries: Seq<Seq<char>>) -> bool {
    forall|i: int| 0 <= i < entries.len() ==> nested_entry(modules, #[trigger] entries[i])
}

/// The form of what an object-signature probe holds: while it reads the object's own slots,
/// fewer than `SIGNATURE_ENTRIES` direct entries; while it reads nested objects, fewer
/// nested ones; once done, a signature that joins at most `SIGNATURE_ENTRIES` entries with
/// `;`, all direct or all nested.
pub open spec fn signature_form(modules: Seq<(String, usize, usize)>, stage: SignatureStageModel, entries: Seq<Seq<char>>) -> bool {
    match stage {
        SignatureStageModel::Direct(_) => entries.len() < SIGNATURE_ENTRIES && all_direct(modules, entries),
        SignatureStageModel::NestedRoot(_) => entries.len() < SIGNATURE_ENTRIES && all_nested(modules, entries),
        SignatureStageModel::Nested(_, _, _) => entries.len() < SIGNATURE_ENTRIES && all_nested(modules, entries),
        SignatureStageModel::Done(r) => {
            &&& r == joined(entries)
            &&& entries.len() <= SIGNATURE_ENTRIES
            &&& (all_direct(modules, entries) || all_nested(modules, entries))
        },
    }
}

/// The stage and entries of an object-signature probe after the reads `reads` gave what
/// they gave, one step each.
pub open spec fn signature_run(
    base: usize,
    pointer_width: usize,
    modules: Seq<(String, usize, usize)>,
    stage: SignatureStageModel,
    entries: Seq<Seq<char>>,
    reads: Seq<Option<Seq<u8>>>,
) -> (SignatureStageModel, Seq<Seq<char>>)
    decreases reads.len(),
{
    if reads.len() == 0 {
        (stage, entries)
    } else {
        let (s, e) = signature_next(base, pointer_width, modules, stage, entries, reads[0]);
        signature_run(base, pointer_width, modules, s, e, reads.drop_first())
    }
}

/// One step of an object-signature probe keeps the form of what it holds.
proof fn lemma_signature_step_form(
    base: usize,
    pointer_width: usize,
    modules: Seq<(String, usize, usize)>,
    stage: SignatureStageModel,
    entries: Seq<Seq<char>>,
    bytes: Option<Seq<u8>>,
)
    requires
        signature_form(modules, stage, entries),
    ensures
        ({
            let (s, e) = signature_next(base, pointer_width, modules, stage, entries, bytes);
            signature_form(modules, s, e)
        }),
{
    let p = read_pointer_spec(bytes, pointer_width);
    match stage {
        SignatureStageModel::Direct(slot) => {
            if let Some(q) = p {
                if let Some(sig) = module_signature(modules, q) {
                    let x = hex_digits(slot as nat) + "="@ + sig;
                    assert(direct_entry(modules, x));
                    let e = entries.push(x);
                    assert(all_direct(modules, e)) by {
                        assert forall|i: int| 0 <= i < e.len() implies direct_entry(modules, #[trigger] e[i]) by {
                            if i < entries.len() {
                                assert(e[i] == entries[i]);
                            }
                        }
                    }
                }
            }
            assert(all_nested(modules, Seq::<Seq<char>>::empty()));
        },
        SignatureStageModel::NestedRoot(root) => {},
        SignatureStageModel::Nested(root, nb, j) => {
            if let Some(q) = p {
                if let Some(sig) = module_signature(modules, q) {
                    let x = hex_digits(root as nat) + ">"@ + hex_digits(j as nat) + "="@ + sig;
                    assert(nested_entry(modules, x));
                    let e = entries.push(x);
                    assert(all_nested(modules, e)) by {
                        assert forall|i: int| 0 <= i < e.len() implies nested_entry(modules, #[trigger] e[i]) by {
                            if i < entries.len() {
                                assert(e[i] == entries[i]);
                            }
                        }
                    }
                }
            }
        },
        SignatureStageModel::Done(r) => {},
    }
}

proof fn lemma_signature_run_form(
    base: usize,
    pointer_width: usize,
    modules: Seq<(String, usize, usize)>,
    stage: SignatureStageModel,
    entries: Seq<Seq<char>>,
    reads: Seq<Option<Seq<u8>>>,
)
    requires
        signature_form(modules, stage, entries),
    ensures
        ({
            let (s, e) = signature_run(base, pointer_width, modules, stage, entries, reads);
            signature_form(modules, s, e)
        }),
    decreases reads.len(),
{
    if reads.len() > 0 {
        lemma_signature_step_form(base, pointer_width, modules, stage, entries, reads[0]);
        let (s, e) = signature_next(base, pointer_width, modules, stage, entries, reads[0]);
        lemma_signature_run_form(base, pointer_width, modules, s, e, reads.drop_first());
    }
}

/// An object signature joins with `;` at most `SIGNATURE_ENTRIES` entries, all of the form
/// `slot=module+offset` (slots of the object itself) or all of the form
/// `root>slot=module+offset` (slots of the objects it points to), each naming where a
/// pointer into a loaded module points: whatever the reads give, from its start on, every
/// stage a probe reaches holds entries of that form, and once done its signature is them
/// joined.
pub proof fn lemma_signature_form(
    base: usize,
    pointer_width: usize,
    modules: Seq<(String, usize, usize)>,
    reads: Seq<Option<Seq<u8>>>,
)
    ensures
        ({
            let start = if pointer_width == 4 || pointer_width == 8 {
                direct_from(base, pointer_width, 0, Seq::empty())
            } else {
                SignatureStageModel::Done(None)
            };
            let (s, e) = signature_run(base, pointer_width, modules, start, Seq::empty(), reads);
            signature_form(modules, s, e)
        }),
{
    let empty = Seq::<Seq<char>>::empty();
    assert(all_direct(modules, empty));
    assert(all_nested(modules, empty));
    let start = if pointer_width == 4 || pointer_width == 8 {
        direct_from(base, pointer_width, 0, empty)
    } else {
        SignatureStageModel::Done(None)
    };
    lemma_signature_run_form(base, pointer_width, modules, start, empty, reads);
}

} // verus!
