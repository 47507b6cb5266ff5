//! Entity lists: neighbouring slot addresses, entity-input expressions, root-module
//! ranking, and the offsets and active candidate of the entity-list dialog.
use vstd::prelude::*;
use vstd::std_specs::hash::obeys_key_model;
use std::collections::HashSet;
use crate::text::{
    ascii_lower, ascii_lower_exec, ascii_lower_seq, chars_of, contains_chars, contains_seq, has_suffix, last_index,
    push_chars, push_str, split_fields, split_ranges, string_of, trim, trim_bounds,
};
use crate::address::{address_spec, hex_offset_spec, parse_hex_offset, parse_hex_offset_range, parse_memory_address};
use crate::scan::ScanValue;
use crate::saved::{set_elements, SavedMemoryAddress};
use crate::panel::{CrosshairApp, MemoryPanelState};
use crate::pointer::{format_pointer_expression, pointer_root_text, with_offsets};
use crate::number::hex_digits;
use crate::address::format_prefixed_memory_address;
use crate::number::hex_padded;
use crate::pointer::{list_seps, rfind_char};
use crate::number::{dec_digits, push_dec_digits};
use crate::entity_list::EntityListValidation;
use crate::pointer::PointerPath;

verus! {

broadcast use vstd::std_specs::hash::group_hash_axioms;

/// `a * b`, saturating at `usize::MAX`.
pub open spec fn sat_mul(a: usize, b: usize) -> usize {
    if a * b > usize::MAX {
        usize::MAX
    } else {
        (a * b) as usize
    }
}

/// The addresses a slot contributes: `target - delta` when it does not underflow, then
/// `target + delta` for slots other than 0 when it does not overflow.
pub open spec fn slot_candidates(target: usize, stride: usize, slot: usize) -> Seq<usize> {
    let delta = sat_mul(stride, slot);
    let below = if target >= delta {
        seq![(target - delta) as usize]
    } else {
        Seq::empty()
    };
    let above = if slot != 0 && target + delta <= usize::MAX {
        seq![(target + delta) as usize]
    } else {
        Seq::empty()
    };
    below + above
}

/// The addresses of slots `0..upto` around `target`, in order.
pub open spec fn target_candidates(target: usize, stride: usize, upto: nat) -> Seq<usize>
    decreases upto,
{
    if upto == 0 {
        Seq::empty()
    } else {
        target_candidates(target, stride, (upto - 1) as nat) + slot_candidates(target, stride, (upto - 1) as usize)
    }
}

/// The addresses around every target in turn, duplicates included.
pub open spec fn all_candidates(targets: Seq<usize>, stride: usize, slots_each_side: usize) -> Seq<usize>
    decreases targets.len(),
{
    if targets.len() == 0 {
        Seq::empty()
    } else {
        all_candidates(targets.drop_last(), stride, slots_each_side) + target_candidates(
            targets.last(),
            stride,
            slots_each_side as nat + 1,
        )
    }
}

/// The first occurrence of every element, in order.
pub open spec fn dedup_seq(s: Seq<usize>) -> Seq<usize>
    decreases s.len(),
{
    if s.len() == 0 {
        Seq::empty()
    } else {
        let d = dedup_seq(s.drop_last());
        if d.contains(s.last()) {
            d
        } else {
            d.push(s.last())
        }
    }
}

/// Deduplicating keeps nothing twice.
pub proof fn lemma_dedup_no_duplicates(s: Seq<usize>)
    ensures
        dedup_seq(s).no_duplicates(),
        forall|x: usize| #[trigger] dedup_seq(s).contains(x) <==> s.contains(x),
    decreases s.len(),
{
    if s.len() > 0 {
        lemma_dedup_no_duplicates(s.drop_last());
        let d = dedup_seq(s.drop_last());
        assert forall|x: usize| #[trigger] dedup_seq(s).contains(x) <==> s.contains(x) by {
            if s.contains(x) {
                let i = choose|i: int| 0 <= i < s.len() && s[i] == x;
                if i < s.len() - 1 {
                    assert(s.drop_last()[i] == x);
                }
            }
            if s.drop_last().contains(x) {
                let i = choose|i: int| 0 <= i < s.drop_last().len() && s.drop_last()[i] == x;
                assert(s[i] == x);
            }
            if !d.contains(s.last()) {
                if d.push(s.last()).contains(x) {
                    let i = choose|i: int| 0 <= i < d.push(s.last()).len() && d.push(s.last())[i] == x;
                    if i < d.len() {
                        assert(d[i] == x);
                    }
                }
                if d.contains(x) {
                    let i = choose|i: int| 0 <= i < d.len() && d[i] == x;
                    assert(d.push(s.last())[i] == x);
                }
                assert(d.push(s.last())[d.len() as int] == s.last());
            }
            assert(s[s.len() - 1] == s.last());
        }
    }
}

/// Appends `c` to `out` unless `seen` holds it; `seen` tracks the contents of `out`.
fn add_unique(out: &mut Vec<usize>, seen: &mut HashSet<usize>, c: usize)
    requires
        old(seen)@ == old(out)@.to_set(),
        obeys_key_model::<usize>(),
    ensures
        final(out)@ == (if old(out)@.contains(c) {
            old(out)@
        } else {
            old(out)@.push(c)
        }),
        final(seen)@ == final(out)@.to_set(),
{
    let ghost before = out@;
    if seen.insert(c) {
        out.push(c);
        assert(out@.to_set() =~= before.to_set().insert(c)) by {
            assert forall|x: usize| out@.to_set().contains(x) <==> before.to_set().insert(c).contains(x) by {
                if out@.contains(x) {
                    let i = choose|i: int| 0 <= i < out@.len() && out@[i] == x;
                    if i < before.len() {
                        assert(before[i] == x);
                    }
                }
                if before.contains(x) {
                    let i = choose|i: int| 0 <= i < before.len() && before[i] == x;
                    assert(out@[i] == x);
                }
                assert(out@[before.len() as int] == c);
            }
        }
    } else {
        assert(before.to_set().contains(c));
    }
}

/// Adding one more candidate to a deduplicated sequence.
proof fn lemma_dedup_push(s: Seq<usize>, c: usize)
    ensures
        dedup_seq(s.push(c)) == (if dedup_seq(s).contains(c) {
            dedup_seq(s)
        } else {
            dedup_seq(s).push(c)
        }),
{
    assert(s.push(c).drop_last() == s);
    assert(s.push(c).last() == c);
}

/// Adds the candidates of one slot around `target`; returns them.
fn add_slot(out: &mut Vec<usize>, seen: &mut HashSet<usize>, target: usize, stride: usize, slot: usize, processed: Ghost<Seq<usize>>) -> (added: Ghost<Seq<usize>>)
    requires
        old(out)@ == dedup_seq(processed@),
        old(seen)@ == old(out)@.to_set(),
        obeys_key_model::<usize>(),
    ensures
        added@ == slot_candidates(target, stride, slot),
        final(out)@ == dedup_seq(processed@ + added@),
        final(seen)@ == final(out)@.to_set(),
{
    let delta = match stride.checked_mul(slot) {
        Some(d) => d,
        None => usize::MAX,
    };
    let ghost mut acc = processed@;
    if target >= delta {
        let c = target - delta;
        add_unique(out, seen, c);
        proof {
            lemma_dedup_push(acc, c);
            acc = acc.push(c);
        }
    }
    if slot != 0 {
        if let Some(c) = target.checked_add(delta) {
            add_unique(out, seen, c);
            proof {
                lemma_dedup_push(acc, c);
                acc = acc.push(c);
            }
        }
    }
    assert(acc =~= processed@ + slot_candidates(target, stride, slot));
    Ghost(slot_candidates(target, stride, slot))
}

/// The addresses of the entity slots around each target, `slots_each_side` strides to
/// each side, every address once in the order first reached.
pub fn expand_entity_slot_targets(targets: &[usize], stride: usize, slots_each_side: usize) -> (r: Vec<usize>)
    ensures
        r@ == dedup_seq(all_candidates(targets@, stride, slots_each_side)),
{
    assert(obeys_key_model::<usize>());
    let mut expanded: Vec<usize> = Vec::new();
    let mut seen: HashSet<usize> = HashSet::new();
    let ghost mut processed: Seq<usize> = Seq::empty();
    let mut i: usize = 0;
    assert(expanded@.to_set() =~= Set::empty());
    while i < targets.len()
        invariant
            i <= targets@.len(),
            obeys_key_model::<usize>(),
            processed == all_candidates(targets@.subrange(0, i as int), stride, slots_each_side),
            expanded@ == dedup_seq(processed),
            seen@ == expanded@.to_set(),
        decreases targets@.len() - i,
    {
        let target = targets[i];
        let ghost base = processed;
        let mut slot: usize = 0;
        loop
            invariant_except_break
                processed == base + target_candidates(target, stride, slot as nat),
            invariant
                slot <= slots_each_side,
                obeys_key_model::<usize>(),
                expanded@ == dedup_seq(processed),
                seen@ == expanded@.to_set(),
            ensures
                processed == base + target_candidates(target, stride, slots_each_side as nat + 1),
            decreases slots_each_side - slot,
        {
            let ghost before = processed;
            let added = add_slot(&mut expanded, &mut seen, target, stride, slot, Ghost(processed));
            proof {
                processed = processed + added@;
                assert(target_candidates(target, stride, slot as nat + 1) == target_candidates(
                    target,
                    stride,
                    slot as nat,
                ) + slot_candidates(target, stride, slot));
                assert(processed =~= base + target_candidates(target, stride, slot as nat + 1));
            }
            if slot == slots_each_side {
                break;
            }
            slot = slot + 1;
        }
        proof {
            let pre = targets@.subrange(0, i + 1);
            assert(pre.drop_last() == targets@.subrange(0, i as int));
            assert(pre.last() == target);
        }
        i = i + 1;
    }
    assert(targets@.subrange(0, targets@.len() as int) == targets@);
    expanded
}

/// The module names treated as system libraries.
pub open spec fn system_module_names() -> Seq<Seq<char>> {
    seq![
        "ntdll"@,
        "kernel32"@,
        "kernelbase"@,
        "user32"@,
        "gdi32"@,
        "msvcp"@,
        "msvcrt"@,
        "ucrtbase"@,
        "vcruntime"@,
        "comctl32"@,
        "imm32"@,
        "shell32"@,
    ]
}

/// Whether the module name, ASCII-lowercased, contains the name of a system library.
pub open spec fn system_module(module: Seq<char>) -> bool {
    exists|i: int| 0 <= i < system_module_names().len() && contains_seq(
        ascii_lower_seq(module),
        #[trigger] system_module_names()[i],
    )
}

/// The ASCII-lowercased characters of `s`.
pub fn lower_chars(s: &str) -> (v: Vec<char>)
    ensures
        v@ == ascii_lower_seq(s@),
{
    let c = chars_of(s);
    let mut v: Vec<char> = Vec::new();
    let mut i: usize = 0;
    while i < c.len()
        invariant
            i <= c@.len(),
            c@ == s@,
            v@ == ascii_lower_seq(c@.subrange(0, i as int)),
        decreases c@.len() - i,
    {
        v.push(ascii_lower_exec(c[i]));
        assert(ascii_lower_seq(c@.subrange(0, i + 1)) =~= ascii_lower_seq(c@.subrange(0, i as int)).push(ascii_lower(c@[i as int])));
        i = i + 1;
    }
    assert(c@.subrange(0, c@.len() as int) == c@);
    v
}

/// Whether `module` is a system library such as `ntdll.dll` or `KERNEL32.DLL`.
pub fn is_system_module(module: &str) -> (b: bool)
    ensures
        b == system_module(module@),
{
    let lower = lower_chars(module);
    let names: [&str; 12] = [
        "ntdll",
        "kernel32",
        "kernelbase",
        "user32",
        "gdi32",
        "msvcp",
        "msvcrt",
        "ucrtbase",
        "vcruntime",
        "comctl32",
        "imm32",
        "shell32",
    ];
    let mut i: usize = 0;
    while i < 12
        invariant
            i <= 12,
            lower@ == ascii_lower_seq(module@),
            forall|k: int| 0 <= k < 12 ==> (#[trigger] names@[k])@ == system_module_names()[k],
            forall|k: int| 0 <= k < i ==> !contains_seq(ascii_lower_seq(module@), #[trigger] system_module_names()[k]),
        decreases 12 - i,
    {
        let needle = chars_of(names[i]);
        if contains_chars(&lower, &needle) {
            return true;
        }
        i = i + 1;
    }
    false
}

/// The rank of a pointer-root module: the game's own `.exe` first (0), system libraries
/// last (2), anything else between (1).
pub open spec fn root_priority(module: Seq<char>) -> u8 {
    if has_suffix(ascii_lower_seq(module), ".exe"@) {
        0
    } else if system_module(module) {
        2
    } else {
        1
    }
}

/// The rank of a pointer-root module, lower first.
pub fn entity_root_priority(module: &str) -> (p: u8)
    ensures
        p == root_priority(module@),
{
    let lower = lower_chars(module);
    let exe = chars_of(".exe");
    proof {
        reveal_strlit(".exe");
    }
    let n = lower.len();
    let ends_exe = n >= 4 && crate::text::range_eq(&lower, n - 4, n, &exe);
    if ends_exe {
        0
    } else if is_system_module(module) {
        2
    } else {
        1
    }
}

/// A candidate entity list found by a scan: the span of its pointer table and how well it
/// matched the input entities.
pub struct EntityListCandidate {
    pub address: usize,
    pub end_address: usize,
    pub matched_entities: usize,
    pub readable_pointers: usize,
    pub plausible_xyz: usize,
}

/// The entity-list dialog: the entity bases it is given, the candidates a scan ranked, and
/// the stable roots found for the active candidate.
pub struct EntityListDialog {
    pub inputs: Vec<String>,
    pub new_input: String,
    pub inputs_are_x_fields: bool,
    pub x_offset: String,
    pub y_offset: String,
    pub z_offset: String,
    /// The most bytes allowed between two entries of the list.
    pub max_gap: String,
    pub status: String,
    pub candidates: Vec<EntityListCandidate>,
    pub selected: HashSet<usize>,
    pub selection_anchor: Option<usize>,
    pub active_candidate: Option<usize>,
    /// The entity bases the last search was run with.
    pub entity_bases: Vec<usize>,
    pub pointer_width: usize,
    /// Whether a candidate search is running.
    pub searching: bool,
    /// Whether a stable-root search is running.
    pub root_searching: bool,
    pub list_offset: isize,
    pub preview: Option<EntityListValidation>,
    pub roots: Vec<PointerPath>,
    pub selected_root: Option<usize>,
    /// The candidate address the roots were found for.
    pub root_address: Option<usize>,
    pub allow_system_roots: bool,
}

/// The X, Y and Z field offsets of the dialog, or the message for the first invalid one.
pub open spec fn xyz_offsets_spec(dialog: EntityListDialog) -> Result<Seq<usize>, Seq<char>> {
    match (hex_offset_spec(dialog.x_offset@), hex_offset_spec(dialog.y_offset@), hex_offset_spec(dialog.z_offset@)) {
        (Some(x), Some(y), Some(z)) => Ok(seq![x as usize, y as usize, z as usize]),
        (None, _, _) => Err("Invalid X field offset."@),
        (Some(_), None, _) => Err("Invalid Y field offset."@),
        (Some(_), Some(_), None) => Err("Invalid Z field offset."@),
    }
}

/// Reads the X, Y and Z field offsets of the dialog as hexadecimal.
pub fn parse_entity_xyz_offsets(dialog: &EntityListDialog) -> (r: Result<[usize; 3], String>)
    ensures
        match r {
            Ok(o) => xyz_offsets_spec(*dialog) == Ok::<Seq<usize>, Seq<char>>(o@),
            Err(e) => xyz_offsets_spec(*dialog) == Err::<Seq<usize>, Seq<char>>(e@),
        },
{
    let x = match parse_hex_offset(dialog.x_offset.as_str()) {
        Some(v) => v,
        None => return Err(crate::text::owned("Invalid X field offset.")),
    };
    let y = match parse_hex_offset(dialog.y_offset.as_str()) {
        Some(v) => v,
        None => return Err(crate::text::owned("Invalid Y field offset.")),
    };
    let z = match parse_hex_offset(dialog.z_offset.as_str()) {
        Some(v) => v,
        None => return Err(crate::text::owned("Invalid Z field offset.")),
    };
    let r = [x, y, z];
    assert(r@ =~= seq![x, y, z]);
    Ok(r)
}

/// The address of the active candidate moved by the list offset, when it stays in range.
pub open spec fn active_address_spec(dialog: EntityListDialog) -> Option<usize> {
    match dialog.active_candidate {
        Some(i) => if i < dialog.candidates@.len() {
            let a = dialog.candidates@[i as int].address + dialog.list_offset;
            if 0 <= a && a <= usize::MAX {
                Some(a as usize)
            } else {
                None
            }
        } else {
            None
        },
        None => None,
    }
}

/// The address of the active candidate moved by the list offset.
pub fn active_entity_candidate_address(dialog: &EntityListDialog) -> (r: Option<usize>)
    ensures
        r == active_address_spec(*dialog),
{
    match dialog.active_candidate {
        Some(index) => {
            if index < dialog.candidates.len() {
                dialog.candidates[index].address.checked_add_signed(dialog.list_offset)
            } else {
                None
            }
        },
        None => None,
    }
}

/// Why following one pointer of a chain failed.
#[derive(Clone, Copy, Debug, PartialEq, Eq, Structural)]
pub enum PointerStepError {
    /// The value read does not match the pointer width.
    UnsupportedWidth,
    /// Adding the offset leaves the address range.
    Overflow,
}

/// The next address of a pointer chain: the pointer read (a 4-byte `I32` or an 8-byte
/// `I64`) plus the offset.
pub open spec fn pointer_step_spec(pointer_width: usize, value: ScanValue, offset: usize) -> Result<usize, PointerStepError> {
    let pointer: Option<int> = match (pointer_width, value) {
        (4, ScanValue::I32(v)) => Some((v as u32) as int),
        (8, ScanValue::I64(v)) => Some((v as usize) as int),
        _ => None,
    };
    match pointer {
        None => Err(PointerStepError::UnsupportedWidth),
        Some(p) => if p + offset <= usize::MAX {
            Ok((p + offset) as usize)
        } else {
            Err(PointerStepError::Overflow)
        },
    }
}

/// Follows one pointer of a chain: the value read at the current address, as a pointer of
/// `pointer_width` bytes, plus `offset`.
pub fn follow_pointer(pointer_width: usize, value: ScanValue, offset: usize) -> (r: Result<usize, PointerStepError>)
    ensures
        r == pointer_step_spec(pointer_width, value, offset),
{
    let pointer: usize = match (pointer_width, value) {
        (4, ScanValue::I32(v)) => (v as u32) as usize,
        (8, ScanValue::I64(v)) => v as usize,
        _ => return Err(PointerStepError::UnsupportedWidth),
    };
    match pointer.checked_add(offset) {
        Some(a) => Ok(a),
        None => Err(PointerStepError::Overflow),
    }
}

/// Where an entity expression starts.
pub enum EntityRoot {
    /// An absolute address.
    Address(usize),
    /// A module name and an offset inside it.
    Module(String, usize),
}

/// A parsed entity expression: a root and the offsets of the pointer chain after it.
pub struct EntityExpression {
    pub root: EntityRoot,
    pub offsets: Vec<usize>,
}

/// Whether a field holds only whitespace.
pub open spec fn blank(f: Seq<char>) -> bool {
    trim(f).len() == 0
}

/// The first field of a pointer chain that is not blank and not a hexadecimal offset.
pub open spec fn first_bad_offset(fields: Seq<Seq<char>>) -> Option<Seq<char>>
    decreases fields.len(),
{
    if fields.len() == 0 {
        None
    } else {
        match first_bad_offset(fields.drop_last()) {
            Some(f) => Some(f),
            None => if !blank(fields.last()) && hex_offset_spec(fields.last()) is None {
                Some(fields.last())
            } else {
                None
            },
        }
    }
}

/// The offsets of the fields that are not blank, in order.
pub open spec fn chain_offsets(fields: Seq<Seq<char>>) -> Seq<usize>
    decreases fields.len(),
{
    if fields.len() == 0 {
        Seq::empty()
    } else {
        let rest = chain_offsets(fields.drop_last());
        if blank(fields.last()) {
            rest
        } else {
            rest.push(hex_offset_spec(fields.last()).unwrap() as usize)
        }
    }
}

/// The root text and the offsets of an entity expression, or the message for why the
/// trailing `[...]` chain cannot be read.
pub open spec fn entity_chain_spec(t: Seq<char>) -> Result<(Seq<char>, Seq<usize>), Seq<char>> {
    match last_index(t, '[') {
        None => Ok((t, Seq::empty())),
        Some(ob) => {
            let inner = t.subrange(ob + 1, t.len() as int);
            if !has_suffix(inner, seq![']']) {
                Err("pointer chain must end with ]"@)
            } else {
                let fields = split_fields(inner.drop_last(), list_seps());
                match first_bad_offset(fields) {
                    Some(f) => Err("invalid pointer offset: "@ + f),
                    None => Ok((trim(t.subrange(0, ob)), chain_offsets(fields))),
                }
            }
        },
    }
}

/// What `parse_entity_expression` gives for `text`: the root (an address, or a module and
/// an offset inside it) and the offsets of the pointer chain, or an error message.
pub open spec fn entity_expression_spec(text: Seq<char>) -> Result<(Option<Seq<char>>, usize, Seq<usize>), Seq<char>> {
    match entity_chain_spec(trim(text)) {
        Err(e) => Err(e),
        Ok((root, offsets)) => match address_spec(root) {
            Some(a) => Ok((None, a as usize, offsets)),
            None => match last_index(root, '+') {
                None => Err("use raw, module+offset, or root [offsets]"@),
                Some(plus) => match hex_offset_spec(root.subrange(plus + 1, root.len() as int)) {
                    None => Err("invalid module offset"@),
                    Some(o) => Ok((Some(trim(root.subrange(0, plus))), o as usize, offsets)),
                },
            },
        },
    }
}

impl EntityExpression {
    /// The root module (`None` for an absolute address), the root address or module
    /// offset, and the chain offsets.
    pub open spec fn model(self) -> (Option<Seq<char>>, usize, Seq<usize>) {
        match self.root {
            EntityRoot::Address(a) => (None, a, self.offsets@),
            EntityRoot::Module(m, o) => (Some(m@), o, self.offsets@),
        }
    }
}

/// Reads the offset fields of a pointer chain, skipping blank ones; on failure, the
/// message naming the first field that is not an offset.
fn parse_chain_fields(v: &Vec<char>, ranges: &Vec<(usize, usize)>, fields: Ghost<Seq<Seq<char>>>) -> (r: Result<Vec<usize>, String>)
    requires
        ranges@.len() == fields@.len(),
        forall|k: int| 0 <= k < ranges@.len() ==> (#[trigger] ranges@[k]).0 <= ranges@[k].1 <= v@.len()
            && v@.subrange(ranges@[k].0 as int, ranges@[k].1 as int) == fields@[k],
    ensures
        match r {
            Ok(o) => first_bad_offset(fields@) is None && o@ == chain_offsets(fields@),
            Err(e) => first_bad_offset(fields@) matches Some(f) && e@ == "invalid pointer offset: "@ + f,
        },
{
    let mut out: Vec<usize> = Vec::new();
    let mut k: usize = 0;
    while k < ranges.len()
        invariant
            ranges@.len() == fields@.len(),
            forall|j: int| 0 <= j < ranges@.len() ==> (#[trigger] ranges@[j]).0 <= ranges@[j].1 <= v@.len()
                && v@.subrange(ranges@[j].0 as int, ranges@[j].1 as int) == fields@[j],
            k <= ranges@.len(),
            first_bad_offset(fields@.subrange(0, k as int)) is None,
            out@ == chain_offsets(fields@.subrange(0, k as int)),
        decreases ranges@.len() - k,
    {
        let (a, b) = ranges[k];
        assert(ranges@[k as int] == (a, b));
        let ghost pre = fields@.subrange(0, k + 1);
        assert(pre.drop_last() == fields@.subrange(0, k as int));
        assert(pre.last() == fields@[k as int]);
        let (ta, tb) = trim_bounds(v, a, b);
        if ta < tb {
            match parse_hex_offset_range(v, a, b) {
                Some(x) => {
                    out.push(x);
                },
                None => {
                    let mut msg = crate::text::owned("invalid pointer offset: ");
                    push_chars(&mut msg, v, a, b);
                    proof {
                        reveal_strlit("invalid pointer offset: ");
                        lemma_first_bad_prefix(fields@, k as int + 1);
                    }
                    return Err(msg);
                },
            }
        }
        k = k + 1;
    }
    assert(fields@.subrange(0, fields@.len() as int) =~= fields@);
    Ok(out)
}

/// A bad field in a prefix is the first bad field of the whole.
proof fn lemma_first_bad_prefix(fields: Seq<Seq<char>>, n: int)
    requires
        0 <= n <= fields.len(),
        first_bad_offset(fields.subrange(0, n)) is Some,
    ensures
        first_bad_offset(fields) == first_bad_offset(fields.subrange(0, n)),
    decreases fields.len() - n,
{
    if n < fields.len() {
        let pre = fields.subrange(0, n + 1);
        assert(pre.drop_last() == fields.subrange(0, n));
        lemma_first_bad_prefix(fields, n + 1);
    } else {
        assert(fields.subrange(0, n) == fields);
    }
}

/// Splits `v[a..b]`, already trimmed, into the root text bounds and the offsets of its
/// trailing pointer chain.
fn parse_entity_chain(v: &Vec<char>, a: usize, b: usize) -> (r: Result<(usize, usize, Vec<usize>), String>)
    requires
        a <= b <= v@.len(),
    ensures
        match r {
            Ok((ra, rb, o)) => a <= ra <= rb <= b && entity_chain_spec(v@.subrange(a as int, b as int))
                == Ok::<(Seq<char>, Seq<usize>), Seq<char>>((v@.subrange(ra as int, rb as int), o@)),
            Err(e) => entity_chain_spec(v@.subrange(a as int, b as int)) == Err::<(Seq<char>, Seq<usize>), Seq<char>>(e@),
        },
{
    let ghost t = v@.subrange(a as int, b as int);
    let ob = match rfind_char(v, a, b, '[') {
        None => return Ok((a, b, Vec::new())),
        Some(ob) => ob,
    };
    assert(t.subrange(ob + 1 - a, t.len() as int) == v@.subrange(ob + 1, b as int));
    if !(ob + 1 < b && v[b - 1] == ']') {
        assert(!has_suffix(v@.subrange(ob + 1, b as int), seq![']'])) by {
            if ob + 1 < b {
                assert(v@.subrange(ob + 1, b as int).subrange(b - ob - 2, b - ob - 1)[0] == v@[b - 1]);
            }
        }
        proof {
            reveal_strlit("pointer chain must end with ]");
        }
        return Err(crate::text::owned("pointer chain must end with ]"));
    }
    assert(has_suffix(v@.subrange(ob + 1, b as int), seq![']'])) by {
        assert(v@.subrange(ob + 1, b as int).subrange(b - ob - 2, b - ob - 1) =~= seq![']']);
    }
    assert(v@.subrange(ob + 1, b as int).drop_last() == v@.subrange(ob + 1, b - 1));
    let mut seps: Vec<char> = Vec::new();
    seps.push(',');
    seps.push(';');
    assert(seps@ == list_seps());
    let ranges = split_ranges(v, ob + 1, b - 1, &seps);
    let ghost fields = split_fields(v@.subrange(ob + 1, b - 1), list_seps());
    let offsets = match parse_chain_fields(v, &ranges, Ghost(fields)) {
        Ok(o) => o,
        Err(e) => return Err(e),
    };
    assert(t.subrange(0, ob - a) == v@.subrange(a as int, ob as int));
    let (ha, hb) = trim_bounds(v, a, ob);
    Ok((ha, hb, offsets))
}

/// Reads an entity expression: an address such as `0x1F000+20`, or `module+offset`, either
/// optionally followed by a pointer chain `[o1, o2, ...]` whose blank fields are skipped.
pub fn parse_entity_expression(expression: &str) -> (r: Result<EntityExpression, String>)
    ensures
        match r {
            Ok(e) => entity_expression_spec(expression@) == Ok::<(Option<Seq<char>>, usize, Seq<usize>), Seq<char>>(e.model()),
            Err(m) => entity_expression_spec(expression@) == Err::<(Option<Seq<char>>, usize, Seq<usize>), Seq<char>>(m@),
        },
{
    let v = chars_of(expression);
    assert(v@.subrange(0, v@.len() as int) == v@);
    let (a, b) = trim_bounds(&v, 0, v.len());
    let (ra, rb, offsets) = match parse_entity_chain(&v, a, b) {
        Ok(c) => c,
        Err(e) => return Err(e),
    };
    let ghost root = v@.subrange(ra as int, rb as int);
    let root_text = string_of(&v, ra, rb);
    if let Some(address) = parse_memory_address(root_text.as_str()) {
        return Ok(EntityExpression { root: EntityRoot::Address(address), offsets });
    }
    let plus = match rfind_char(&v, ra, rb, '+') {
        Some(i) => i,
        None => {
            proof {
                reveal_strlit("use raw, module+offset, or root [offsets]");
            }
            return Err(crate::text::owned("use raw, module+offset, or root [offsets]"));
        },
    };
    assert(root.subrange(0, plus - ra) == v@.subrange(ra as int, plus as int));
    assert(root.subrange(plus + 1 - ra, root.len() as int) == v@.subrange(plus + 1, rb as int));
    let offset = match parse_hex_offset_range(&v, plus + 1, rb) {
        Some(o) => o,
        None => {
            proof {
                reveal_strlit("invalid module offset");
            }
            return Err(crate::text::owned("invalid module offset"));
        },
    };
    let (ma, mb) = trim_bounds(&v, ra, plus);
    let module = string_of(&v, ma, mb);
    Ok(EntityExpression { root: EntityRoot::Module(module, offset), offsets })
}

/// What resolving the entity inputs gives: for each input that is not blank, in order,
/// its resolved address (less the X offset when the inputs are X fields), each address
/// once; or the first error, naming the entity by its 1-based number.
pub open spec fn entity_bases_spec(
    inputs: Seq<String>,
    resolved: Seq<Result<usize, String>>,
    x_fields: bool,
    x_offset: usize,
    upto: nat,
) -> Result<Seq<usize>, Seq<char>>
    decreases upto,
{
    if upto == 0 {
        Ok(Seq::empty())
    } else {
        let i = upto - 1;
        match entity_bases_spec(inputs, resolved, x_fields, x_offset, i as nat) {
            Err(e) => Err(e),
            Ok(bases) => if blank(inputs[i]@) {
                Ok(bases)
            } else {
                match resolved[i] {
                    Err(e) => Err("Entity "@ + dec_digits(upto) + ": "@ + e@),
                    Ok(a) => if x_fields && a < x_offset {
                        Err("Entity "@ + dec_digits(upto) + " is below X offset."@)
                    } else {
                        let b = if x_fields {
                            (a - x_offset) as usize
                        } else {
                            a
                        };
                        if bases.contains(b) {
                            Ok(bases)
                        } else {
                            Ok(bases.push(b))
                        }
                    },
                }
            },
        }
    }
}

/// The entity base addresses of the dialog's inputs. `resolved[i]` is what resolving
/// input `i` as an entity expression gave; blank inputs are skipped.
pub fn resolve_entity_inputs(dialog: &EntityListDialog, resolved: &[Result<usize, String>], xyz_offsets: [usize; 3]) -> (r: Result<Vec<usize>, String>)
    requires
        resolved@.len() == dialog.inputs@.len(),
    ensures
        match r {
            Ok(b) => entity_bases_spec(dialog.inputs@, resolved@, dialog.inputs_are_x_fields, xyz_offsets[0], dialog.inputs@.len()) == Ok::<Seq<usize>, Seq<char>>(b@),
            Err(e) => entity_bases_spec(dialog.inputs@, resolved@, dialog.inputs_are_x_fields, xyz_offsets[0], dialog.inputs@.len()) == Err::<Seq<usize>, Seq<char>>(e@),
        },
{
    let x_offset = xyz_offsets[0];
    let mut bases: Vec<usize> = Vec::new();
    let mut i: usize = 0;
    while i < dialog.inputs.len()
        invariant
            i <= dialog.inputs@.len(),
            resolved@.len() == dialog.inputs@.len(),
            x_offset == xyz_offsets[0],
            entity_bases_spec(dialog.inputs@, resolved@, dialog.inputs_are_x_fields, x_offset, i as nat) == Ok::<Seq<usize>, Seq<char>>(bases@),
        decreases dialog.inputs@.len() - i,
    {
        let v = chars_of(dialog.inputs[i].as_str());
        assert(v@.subrange(0, v@.len() as int) == v@);
        let (a, b) = trim_bounds(&v, 0, v.len());
        if a < b {
            let number = (i + 1) as u64;
            let address = match &resolved[i] {
                Err(e) => {
                    let mut msg = crate::text::owned("Entity ");
                    push_dec_digits(&mut msg, number);
                    push_str(&mut msg, ": ");
                    push_str(&mut msg, e.as_str());
                    proof {
                        lemma_entity_error_stays(dialog.inputs@, resolved@, dialog.inputs_are_x_fields, x_offset, (i + 1) as nat, dialog.inputs@.len());
                    }
                    return Err(msg);
                },
                Ok(found) => *found,
            };
            let base = if dialog.inputs_are_x_fields {
                match address.checked_sub(x_offset) {
                    Some(x) => x,
                    None => {
                        let mut msg = crate::text::owned("Entity ");
                        push_dec_digits(&mut msg, number);
                        push_str(&mut msg, " is below X offset.");
                        proof {
                            lemma_entity_error_stays(dialog.inputs@, resolved@, dialog.inputs_are_x_fields, x_offset, (i + 1) as nat, dialog.inputs@.len());
                        }
                        return Err(msg);
                    },
                }
            } else {
                address
            };
            if !contains_address(&bases, base) {
                bases.push(base);
            }
        }
        i = i + 1;
    }
    Ok(bases)
}

/// An error on the first inputs is the error on all of them.
proof fn lemma_entity_error_stays(
    inputs: Seq<String>,
    resolved: Seq<Result<usize, String>>,
    x_fields: bool,
    x_offset: usize,
    n: nat,
    m: nat,
)
    requires
        n <= m,
        entity_bases_spec(inputs, resolved, x_fields, x_offset, n) is Err,
    ensures
        entity_bases_spec(inputs, resolved, x_fields, x_offset, m) == entity_bases_spec(inputs, resolved, x_fields, x_offset, n),
    decreases m - n,
{
    if n < m {
        lemma_entity_error_stays(inputs, resolved, x_fields, x_offset, n, (m - 1) as nat);
    }
}

/// Whether `v` holds `x`.
fn contains_address(v: &Vec<usize>, x: usize) -> (b: bool)
    ensures
        b == v@.contains(x),
{
    let mut i: usize = 0;
    while i < v.len()
        invariant
            i <= v@.len(),
            forall|k: int| 0 <= k < i ==> v@[k] != x,
        decreases v@.len() - i,
    {
        if v[i] == x {
            assert(v@[i as int] == x);
            return true;
        }
        i = i + 1;
    }
    false
}

/// The text of a saved row as an entity expression: its pointer expression, or its
/// address as `0x` and eight or more hexadecimal digits.
pub open spec fn saved_expression(s: SavedMemoryAddress) -> Seq<char> {
    match s.pointer {
        Some(p) => with_offsets(pointer_root_text(p), p.offsets@),
        None => seq!['0', 'x'] + hex_padded(s.address as nat, 8),
    }
}

/// The entity expressions of the saved rows listed in `order` (rows that exist), then of
/// the scan results listed in `results` (a numeric result, else a text result, where one
/// exists), each as its address.
pub open spec fn entity_expressions(p: MemoryPanelState, order: Seq<usize>, results: Seq<usize>) -> Seq<Seq<char>>
    decreases order.len() + results.len(),
{
    if results.len() > 0 {
        let rest = entity_expressions(p, order, results.drop_last());
        let k = results.last();
        if k < p.candidates@.len() {
            rest.push(seq!['0', 'x'] + hex_padded(p.candidates@[k as int].address as nat, 8))
        } else if k < p.text_candidates@.len() {
            rest.push(seq!['0', 'x'] + hex_padded(p.text_candidates@[k as int].address as nat, 8))
        } else {
            rest
        }
    } else if order.len() > 0 {
        let rest = entity_expressions(p, order.drop_last(), results);
        let k = order.last();
        if k < p.saved@.len() {
            rest.push(saved_expression(p.saved@[k as int]))
        } else {
            rest
        }
    } else {
        Seq::empty()
    }
}

/// The dialog inputs once each expression not already among them has filled the first
/// blank input, or been appended.
pub open spec fn place_inputs(inputs: Seq<Seq<char>>, exprs: Seq<Seq<char>>) -> Seq<Seq<char>>
    decreases exprs.len(),
{
    if exprs.len() == 0 {
        inputs
    } else {
        let before = place_inputs(inputs, exprs.drop_last());
        let e = exprs.last();
        if before.contains(e) {
            before
        } else {
            match first_blank(before) {
                Some(i) => before.update(i, e),
                None => before.push(e),
            }
        }
    }
}

/// The index of the first blank input.
pub open spec fn first_blank(inputs: Seq<Seq<char>>) -> Option<int>
    decreases inputs.len(),
{
    if inputs.len() == 0 {
        None
    } else {
        match first_blank(inputs.drop_last()) {
            Some(i) => Some(i),
            None => if blank(inputs.last()) {
                Some(inputs.len() - 1)
            } else {
                None
            },
        }
    }
}

/// The texts of the dialog inputs.
pub open spec fn inputs_view(inputs: Seq<String>) -> Seq<Seq<char>> {
    inputs.map_values(|s: String| s@)
}

/// The first blank input found is blank, and no earlier one is.
proof fn lemma_first_blank(inputs: Seq<Seq<char>>)
    ensures
        match first_blank(inputs) {
            Some(i) => 0 <= i < inputs.len() && blank(inputs[i]) && forall|k: int| 0 <= k < i ==> !blank(#[trigger] inputs[k]),
            None => forall|k: int| 0 <= k < inputs.len() ==> !blank(#[trigger] inputs[k]),
        },
    decreases inputs.len(),
{
    if inputs.len() > 0 {
        lemma_first_blank(inputs.drop_last());
        assert forall|k: int| 0 <= k < inputs.len() - 1 implies #[trigger] inputs[k] == inputs.drop_last()[k] by {}
    }
}

/// Places one expression among the dialog inputs.
fn place_input(inputs: &mut Vec<String>, e: String)
    ensures
        inputs_view(final(inputs)@) == ({
            let before = inputs_view(old(inputs)@);
            if before.contains(e@) {
                before
            } else {
                match first_blank(before) {
                    Some(i) => before.update(i, e@),
                    None => before.push(e@),
                }
            }
        }),
{
    let ghost before = inputs_view(inputs@);
    let mut i: usize = 0;
    while i < inputs.len()
        invariant
            i <= inputs@.len(),
            inputs@ == old(inputs)@,
            before == inputs_view(inputs@),
            forall|k: int| 0 <= k < i ==> before[k] != e@,
        decreases inputs@.len() - i,
    {
        if inputs[i] == e {
            assert(before[i as int] == e@);
            return;
        }
        i = i + 1;
    }
    assert(!before.contains(e@));
    proof {
        lemma_first_blank(before);
    }
    let mut j: usize = 0;
    while j < inputs.len()
        invariant
            j <= inputs@.len(),
            inputs@ == old(inputs)@,
            before == inputs_view(inputs@),
            before == inputs_view(old(inputs)@),
            !before.contains(e@),
            forall|k: int| 0 <= k < j ==> !blank(#[trigger] before[k]),
        decreases inputs@.len() - j,
    {
        let v = chars_of(inputs[j].as_str());
        assert(v@.subrange(0, v@.len() as int) == v@);
        let (a, b) = trim_bounds(&v, 0, v.len());
        if a == b {
            assert(blank(before[j as int]));
            proof {
                lemma_first_blank(before);
                match first_blank(before) {
                    Some(i0) => {
                        if i0 < j {
                            assert(!blank(before[i0]));
                        } else if i0 > j {
                            assert(!blank(before[j as int]));
                        }
                    },
                    None => {
                        assert(!blank(before[j as int]));
                    },
                }
            }
            let ghost ev = e@;
            inputs.set(j, e);
            assert(inputs_view(inputs@) =~= before.update(j as int, ev));
            return;
        }
        j = j + 1;
    }
    let ghost ev = e@;
    proof {
        lemma_first_blank(before);
        if first_blank(before) is Some {
            let i0 = first_blank(before).unwrap();
            assert(!blank(before[i0]));
        }
    }
    inputs.push(e);
    assert(inputs_view(inputs@) =~= before.push(ev));
}

impl CrosshairApp {
    /// Adds the selected saved rows and scan results to the entity dialog's inputs, each
    /// as an entity expression, filling blank inputs first and skipping those already
    /// there. The selections are taken in the order their sets yield them.
    pub fn add_selected_entity_addresses(&self, dialog: &mut EntityListDialog)
        ensures
            exists|order: Seq<usize>, results: Seq<usize>| {
                &&& order.to_set() == self.memory_panel.selected_saved@
                &&& order.no_duplicates()
                &&& results.to_set() == self.memory_panel.selected_results@
                &&& results.no_duplicates()
                &&& inputs_view(final(dialog).inputs@) == place_inputs(
                    inputs_view(old(dialog).inputs@),
                    entity_expressions(self.memory_panel, order, results),
                )
            },
            *final(dialog) == (EntityListDialog { inputs: final(dialog).inputs, ..*old(dialog) }),
    {
        let order = set_elements(&self.memory_panel.selected_saved);
        let results = set_elements(&self.memory_panel.selected_results);
        let ghost p = self.memory_panel;
        let mut exprs: Vec<String> = Vec::new();
        let mut i: usize = 0;
        while i < order.len()
            invariant
                i <= order@.len(),
                p == self.memory_panel,
                inputs_view(exprs@) == entity_expressions(p, order@.subrange(0, i as int), Seq::empty()),
            decreases order@.len() - i,
        {
            let k = order[i];
            proof {
                let pre = order@.subrange(0, i + 1);
                assert(pre.drop_last() == order@.subrange(0, i as int));
                assert(pre.last() == k);
            }
            if k < self.memory_panel.saved.len() {
                let e = match &self.memory_panel.saved[k].pointer {
                    Some(ptr) => format_pointer_expression(ptr),
                    None => format_prefixed_memory_address(self.memory_panel.saved[k].address),
                };
                let ghost before = exprs@;
                let ghost ev = e@;
                exprs.push(e);
                assert(inputs_view(exprs@) =~= inputs_view(before).push(ev));
            }
            i = i + 1;
        }
        assert(order@.subrange(0, order@.len() as int) == order@);
        assert(results@.subrange(0, 0) =~= Seq::<usize>::empty());
        let mut j: usize = 0;
        while j < results.len()
            invariant
                j <= results@.len(),
                p == self.memory_panel,
                inputs_view(exprs@) == entity_expressions(p, order@, results@.subrange(0, j as int)),
            decreases results@.len() - j,
        {
            let k = results[j];
            proof {
                let pre = results@.subrange(0, j + 1);
                assert(pre.drop_last() == results@.subrange(0, j as int));
                assert(pre.last() == k);
            }
            let address = if k < self.memory_panel.candidates.len() {
                Some(self.memory_panel.candidates[k].address)
            } else if k < self.memory_panel.text_candidates.len() {
                Some(self.memory_panel.text_candidates[k].address)
            } else {
                None
            };
            if let Some(a) = address {
                let e = format_prefixed_memory_address(a);
                let ghost before = exprs@;
                let ghost ev = e@;
                exprs.push(e);
                assert(inputs_view(exprs@) =~= inputs_view(before).push(ev));
            }
            j = j + 1;
        }
        assert(results@.subrange(0, results@.len() as int) == results@);
        let ghost all = inputs_view(exprs@);
        let ghost start = inputs_view(dialog.inputs@);
        let n = exprs.len();
        let mut k: usize = 0;
        for e in it: exprs.into_iter()
            invariant
                it.seq().map_values(|s: String| s@) == all,
                k == it.index(),
                all.len() == n,
                inputs_view(dialog.inputs@) == place_inputs(start, all.subrange(0, k as int)),
                *dialog == (EntityListDialog { inputs: dialog.inputs, ..*old(dialog) }),
        {
            assert(k < all.len());
            proof {
                let pre = all.subrange(0, k + 1);
                assert(pre.drop_last() == all.subrange(0, k as int));
                assert(pre.last() == e@);
            }
            place_input(&mut dialog.inputs, e);
            k = k + 1;
        }
        assert(all.subrange(0, all.len() as int) == all);
    }
}

/// Fields that all read as offsets have no bad field, and give their offsets.
proof fn lemma_good_fields(fields: Seq<Seq<char>>)
    requires
        forall|k: int| 0 <= k < fields.len() ==> !blank(#[trigger] fields[k]) && hex_offset_spec(fields[k]) is Some,
    ensures
        first_bad_offset(fields) is None,
        chain_offsets(fields) == crate::pointer::offsets_value(fields),
    decreases fields.len(),
{
    if fields.len() > 0 {
        let d = fields.drop_last();
        assert forall|k: int| 0 <= k < d.len() implies !blank(#[trigger] d[k]) && hex_offset_spec(d[k]) is Some by {
            assert(d[k] == fields[k]);
        }
        lemma_good_fields(d);
        assert(fields[fields.len() - 1] == fields.last());
        assert(crate::pointer::offsets_value(fields) =~= crate::pointer::offsets_value(d).push(
            hex_offset_spec(fields.last()).unwrap() as usize,
        ));
    }
}

/// Text with no `c` has no last `c`.
proof fn lemma_last_index_none(s: Seq<char>, c: char)
    requires
        forall|k: int| 0 <= k < s.len() ==> #[trigger] s[k] != c,
    ensures
        last_index(s, c) is None,
    decreases s.len(),
{
    if s.len() > 0 {
        assert(s.last() == s[s.len() - 1]);
        let d = s.drop_last();
        assert forall|k: int| 0 <= k < d.len() implies #[trigger] d[k] != c by {
            assert(d[k] == s[k]);
        }
        lemma_last_index_none(d, c);
    }
}

/// A root followed by the offset list the panel writes splits back into the root and the
/// offsets.
proof fn lemma_chain_reads_back(root: Seq<char>, offsets: Seq<usize>)
    requires
        root.len() > 0,
        !crate::text::is_ws(root[0]),
        !crate::text::is_ws(root.last()),
        forall|k: int| 0 <= k < root.len() ==> #[trigger] root[k] != '[',
    ensures
        trim(with_offsets(root, offsets)) == with_offsets(root, offsets),
        entity_chain_spec(with_offsets(root, offsets)) == Ok::<(Seq<char>, Seq<usize>), Seq<char>>((root, offsets)),
{
    if offsets.len() == 0 {
        crate::address::lemma_trim_noop(root);
        lemma_last_index_none(root, '[');
        assert(offsets =~= Seq::<usize>::empty());
    } else {
        let j = crate::pointer::join_hex(offsets);
        let text = root + seq![' ', '['] + j + seq![']'];
        assert(with_offsets(root, offsets) == text);
        crate::pointer::lemma_join_hex_chars(offsets);
        assert(text[0] == root[0]);
        crate::address::lemma_trim_noop(text);
        let ob: int = root.len() + 1int;
        assert(text[ob] == '[');
        assert forall|k: int| ob < k < text.len() implies #[trigger] text[k] != '[' by {
            if k < text.len() - 1 {
                assert(text[k] == j[k - ob - 1]);
            }
        }
        crate::text::lemma_last_index_at(text, '[', ob);
        let inner = text.subrange(ob + 1, text.len() as int);
        assert(inner == j + seq![']']);
        assert(inner.subrange(inner.len() - 1, inner.len() as int) =~= seq![']']);
        assert(inner.drop_last() == j);
        crate::pointer::lemma_offset_list_reads_back(offsets);
        let parts = crate::pointer::hex_parts(offsets);
        assert forall|k: int| 0 <= k < parts.len() implies !blank(#[trigger] parts[k]) && hex_offset_spec(parts[k]) is Some by {
            crate::pointer::lemma_offset_field(offsets[k], k != 0);
            crate::number::lemma_hex_digits_value(offsets[k] as nat);
        }
        lemma_good_fields(parts);
        let head_raw = text.subrange(0, ob);
        assert(head_raw == root.push(' '));
        assert(crate::text::trim_start(head_raw) == head_raw);
        assert(root.push(' ').drop_last() == root);
        crate::address::lemma_trim_noop(root);
        assert(crate::text::trim_end(head_raw) == crate::text::trim_end(root));
        assert(trim(head_raw) == root);
    }
}

/// Whether `s` holds no `c`.
pub open spec fn lacks(s: Seq<char>, c: char) -> bool {
    forall|k: int| 0 <= k < s.len() ==> #[trigger] s[k] != c
}

/// The address the panel writes into the entity dialog reads back as that address.
pub proof fn lemma_address_expression_reads_back(address: usize, offsets: Seq<usize>)
    ensures
        entity_expression_spec(with_offsets(seq!['0', 'x'] + hex_padded(address as nat, 8), offsets))
            == Ok::<(Option<Seq<char>>, usize, Seq<usize>), Seq<char>>((None, address, offsets)),
{
    let h = hex_padded(address as nat, 8);
    let root = seq!['0', 'x'] + h;
    crate::number::lemma_hex_padded_value(address as nat, 8);
    crate::address::lemma_hex_padded_plain(address as nat, 8);
    assert(root.last() == h.last());
    assert(crate::address::plain_hex_char(h.last()));
    assert forall|k: int| 0 <= k < root.len() implies #[trigger] root[k] != '[' by {
        if k >= 2 {
            assert(root[k] == h[k - 2]);
            assert(crate::address::plain_hex_char(h[k - 2]));
        }
    }
    lemma_chain_reads_back(root, offsets);
    crate::address::lemma_prefixed_address_roundtrip(address);
}

/// A module pointer the panel writes into the entity dialog reads back as its module,
/// module offset and offsets, when the module name is not empty, has no `[`, does not
/// begin or end with whitespace, and `module+OFFSET` does not itself read as an address.
pub proof fn lemma_module_expression_reads_back(module: Seq<char>, module_offset: usize, offsets: Seq<usize>)
    requires
        module.len() > 0,
        !crate::text::is_ws(module[0]),
        !crate::text::is_ws(module.last()),
        lacks(module, '['),
        address_spec(module + seq!['+'] + hex_digits(module_offset as nat)) is None,
    ensures
        entity_expression_spec(with_offsets(module + seq!['+'] + hex_digits(module_offset as nat), offsets))
            == Ok::<(Option<Seq<char>>, usize, Seq<usize>), Seq<char>>((Some(module), module_offset, offsets)),
{
    let h = hex_digits(module_offset as nat);
    let root = module + seq!['+'] + h;
    let ml = module.len() as int;
    crate::number::lemma_hex_digits_value(module_offset as nat);
    crate::address::lemma_hex_digits_plain(module_offset as nat);
    assert(root.last() == h.last());
    assert(crate::address::plain_hex_char(h.last()));
    assert(root[0] == module[0]);
    assert forall|k: int| 0 <= k < root.len() implies #[trigger] root[k] != '[' by {
        if k < ml {
            assert(root[k] == module[k]);
        } else if k > ml {
            assert(root[k] == h[k - ml - 1]);
            assert(crate::address::plain_hex_char(h[k - ml - 1]));
        }
    }
    lemma_chain_reads_back(root, offsets);
    assert(root[ml] == '+');
    assert forall|k: int| ml < k < root.len() implies #[trigger] root[k] != '+' by {
        assert(root[k] == h[k - ml - 1]);
        assert(crate::address::plain_hex_char(h[k - ml - 1]));
    }
    crate::text::lemma_last_index_at(root, '+', ml);
    assert(root.subrange(0, ml) == module);
    crate::address::lemma_trim_noop(module);
    assert(root.subrange(ml + 1, root.len() as int) == h);
    crate::address::lemma_hex_digits_offset(module_offset);
}

} // verus!
