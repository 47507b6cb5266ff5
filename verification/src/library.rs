//! The saved-address library: the pointer entries written to the configuration from the
//! saved rows, and the code list of instructions.
use vstd::prelude::*;
use crate::saved::SavedMemoryAddress;
use crate::scan::{memory_type_config, type_config};
use crate::pointer::{copy_offsets, PointerSpec};
use crate::text::{ascii_lower, ascii_lower_exec, ascii_lower_seq};
use crate::panel::{AppState, CrosshairApp};

verus! {

/// A pointer or address kept in the saved-address library.
pub struct MemoryPointerEntry {
    pub name: String,
    pub group: String,
    pub hexadecimal: bool,
    pub app_name: String,
    pub module: String,
    pub module_offset: usize,
    pub offsets: Vec<usize>,
    pub value_type: String,
    pub absolute_address: Option<usize>,
    pub code_module: String,
    pub code_offset: usize,
    pub code_address_offset: isize,
    pub runtime_address: Option<usize>,
    pub runtime_process_id: Option<u32>,
    pub tracked_value: String,
    pub tracked_signature: String,
}

/// What a library entry holds.
pub struct PointerEntryView {
    pub name: Seq<char>,
    pub group: Seq<char>,
    pub hexadecimal: bool,
    pub app_name: Seq<char>,
    pub module: Seq<char>,
    pub module_offset: usize,
    pub offsets: Seq<usize>,
    pub value_type: Seq<char>,
    pub absolute_address: Option<usize>,
    pub code_module: Seq<char>,
    pub code_offset: usize,
    pub code_address_offset: isize,
    pub runtime_address: Option<usize>,
    pub runtime_process_id: Option<u32>,
    pub tracked_value: Seq<char>,
    pub tracked_signature: Seq<char>,
}

impl View for MemoryPointerEntry {
    type V = PointerEntryView;

    open spec fn view(&self) -> PointerEntryView {
        PointerEntryView {
            name: self.name@,
            group: self.group@,
            hexadecimal: self.hexadecimal,
            app_name: self.app_name@,
            module: self.module@,
            module_offset: self.module_offset,
            offsets: self.offsets@,
            value_type: self.value_type@,
            absolute_address: self.absolute_address,
            code_module: self.code_module@,
            code_offset: self.code_offset,
            code_address_offset: self.code_address_offset,
            runtime_address: self.runtime_address,
            runtime_process_id: self.runtime_process_id,
            tracked_value: self.tracked_value@,
            tracked_signature: self.tracked_signature@,
        }
    }
}

/// An instruction kept in the code list, by module and offset.
pub struct MemoryCodeEntry {
    pub name: String,
    pub module: String,
    pub offset: usize,
    pub instruction: String,
    pub writes: bool,
    pub original_bytes: Option<Vec<u8>>,
    pub replaced: bool,
}

/// The views of the entries of a library list.
pub open spec fn entries_view(list: Seq<MemoryPointerEntry>) -> Seq<PointerEntryView> {
    list.map_values(|e: MemoryPointerEntry| e@)
}

/// Whether `a` and `b` are equal once ASCII letters are lowercased.
pub open spec fn eq_ignore_ascii_case(a: Seq<char>, b: Seq<char>) -> bool {
    ascii_lower_seq(a) == ascii_lower_seq(b)
}

/// Whether two entries stand for the same pointer: the same module, ignoring ASCII case,
/// the same module offset, offsets and absolute address.
pub open spec fn same_pointer(a: PointerEntryView, b: PointerEntryView) -> bool {
    &&& eq_ignore_ascii_case(a.module, b.module)
    &&& a.module_offset == b.module_offset
    &&& a.offsets == b.offsets
    &&& a.absolute_address == b.absolute_address
}

/// The index of the first entry of `list` that stands for the same pointer as `e`.
pub open spec fn find_same_pointer(list: Seq<PointerEntryView>, e: PointerEntryView) -> Option<int>
    decreases list.len(),
{
    if list.len() == 0 {
        None
    } else {
        match find_same_pointer(list.drop_last(), e) {
            Some(i) => Some(i),
            None => if same_pointer(list.last(), e) {
                Some(list.len() - 1)
            } else {
                None
            },
        }
    }
}

/// `list` with `e` in place of the first entry for the same pointer, or `e` appended.
pub open spec fn upsert_pointer(list: Seq<PointerEntryView>, e: PointerEntryView) -> Seq<PointerEntryView> {
    match find_same_pointer(list, e) {
        Some(i) => list.update(i, e),
        None => list.push(e),
    }
}

/// The characters of an optional string.
pub open spec fn string_opt(s: Option<String>) -> Option<Seq<char>> {
    match s {
        Some(t) => Some(t@),
        None => None,
    }
}

/// The application name recorded for a saved address without a module root: the first
/// module of the selected process when one was listed, else `Unknown application`.
pub open spec fn fallback_app_name(pid: Option<u32>, first_module: Option<Seq<char>>) -> Seq<char> {
    match (pid, first_module) {
        (Some(_), Some(m)) => m,
        _ => "Unknown application"@,
    }
}

/// The library entry written for a saved row.
pub open spec fn entry_for(s: SavedMemoryAddress, fallback: Seq<char>) -> PointerEntryView {
    let root: Option<(Seq<char>, usize, Seq<usize>)> = match s.pointer {
        Some(p) => match p.module {
            Some((m, o)) => Some((m@, o, p.offsets@)),
            None => None,
        },
        None => None,
    };
    PointerEntryView {
        name: s.description@,
        group: s.group@,
        hexadecimal: s.hexadecimal,
        app_name: match root {
            Some((m, _, _)) => m,
            None => fallback,
        },
        module: match root {
            Some((m, _, _)) => m,
            None => Seq::empty(),
        },
        module_offset: match root {
            Some((_, o, _)) => o,
            None => 0,
        },
        offsets: match root {
            Some((_, _, offs)) => offs,
            None => Seq::empty(),
        },
        value_type: type_config(s.value_type),
        absolute_address: match root {
            Some(_) => None,
            None => Some(s.address),
        },
        code_module: Seq::empty(),
        code_offset: 0,
        code_address_offset: 0,
        runtime_address: None,
        runtime_process_id: None,
        tracked_value: Seq::empty(),
        tracked_signature: Seq::empty(),
    }
}

/// The library after every saved row marked for it has been written, in order.
pub open spec fn persisted(list: Seq<PointerEntryView>, saved: Seq<SavedMemoryAddress>, fallback: Seq<char>) -> Seq<PointerEntryView>
    decreases saved.len(),
{
    if saved.len() == 0 {
        list
    } else {
        let before = persisted(list, saved.drop_last(), fallback);
        if saved.last().saved_to_library {
            upsert_pointer(before, entry_for(saved.last(), fallback))
        } else {
            before
        }
    }
}

/// Whether `a` equals `b` ignoring ASCII case.
pub fn str_eq_ignore_ascii_case(a: &str, b: &str) -> (r: bool)
    ensures
        r == eq_ignore_ascii_case(a@, b@),
{
    let va = crate::text::chars_of(a);
    let vb = crate::text::chars_of(b);
    if va.len() != vb.len() {
        assert(ascii_lower_seq(a@).len() != ascii_lower_seq(b@).len());
        return false;
    }
    let mut i: usize = 0;
    while i < va.len()
        invariant
            va@ == a@,
            vb@ == b@,
            va@.len() == vb@.len(),
            i <= va@.len(),
            forall|k: int| 0 <= k < i ==> ascii_lower(va@[k]) == ascii_lower(vb@[k]),
        decreases va@.len() - i,
    {
        if ascii_lower_exec(va[i]) != ascii_lower_exec(vb[i]) {
            assert(ascii_lower_seq(a@)[i as int] != ascii_lower_seq(b@)[i as int]);
            return false;
        }
        i = i + 1;
    }
    assert(ascii_lower_seq(a@) =~= ascii_lower_seq(b@));
    true
}

/// Whether two offset lists are equal.
fn offsets_eq(a: &Vec<usize>, b: &Vec<usize>) -> (r: bool)
    ensures
        r == (a@ == b@),
{
    if a.len() != b.len() {
        return false;
    }
    let mut i: usize = 0;
    while i < a.len()
        invariant
            a@.len() == b@.len(),
            i <= a@.len(),
            forall|k: int| 0 <= k < i ==> a@[k] == b@[k],
        decreases a@.len() - i,
    {
        if a[i] != b[i] {
            return false;
        }
        i = i + 1;
    }
    assert(a@ =~= b@);
    true
}

/// The index of the first entry of `list` for the same pointer as `e`.
fn find_pointer_entry(list: &Vec<MemoryPointerEntry>, e: &MemoryPointerEntry) -> (r: Option<usize>)
    ensures
        match r {
            Some(i) => find_same_pointer(entries_view(list@), e@) == Some(i as int),
            None => find_same_pointer(entries_view(list@), e@) is None,
        },
{
    let ghost lv = entries_view(list@);
    let mut i: usize = 0;
    while i < list.len()
        invariant
            lv == entries_view(list@),
            i <= list@.len(),
            find_same_pointer(lv.subrange(0, i as int), e@) is None,
        decreases list@.len() - i,
    {
        let x = &list[i];
        proof {
            let pre = lv.subrange(0, i + 1);
            assert(pre.drop_last() == lv.subrange(0, i as int));
            assert(pre.last() == x@);
        }
        if str_eq_ignore_ascii_case(x.module.as_str(), e.module.as_str()) && x.module_offset == e.module_offset
            && offsets_eq(&x.offsets, &e.offsets) && x.absolute_address == e.absolute_address {
            proof {
                lemma_find_prefix(lv, e@, i + 1);
            }
            return Some(i);
        }
        i = i + 1;
    }
    assert(lv.subrange(0, lv.len() as int) == lv);
    None
}

/// A match in a prefix is the first match of the whole list.
proof fn lemma_find_prefix(list: Seq<PointerEntryView>, e: PointerEntryView, n: int)
    requires
        0 <= n <= list.len(),
        find_same_pointer(list.subrange(0, n), e) is Some,
    ensures
        find_same_pointer(list, e) == find_same_pointer(list.subrange(0, n), e),
    decreases list.len() - n,
{
    if n < list.len() {
        let pre = list.subrange(0, n + 1);
        assert(pre.drop_last() == list.subrange(0, n));
        lemma_find_prefix(list, e, n + 1);
    } else {
        assert(list.subrange(0, n) == list);
    }
}

/// The entry found is one for the same pointer, and no earlier entry is.
pub proof fn lemma_find_same_pointer(list: Seq<PointerEntryView>, e: PointerEntryView)
    ensures
        match find_same_pointer(list, e) {
            Some(i) => 0 <= i < list.len() && same_pointer(list[i], e)
                && forall|k: int| 0 <= k < i ==> !same_pointer(#[trigger] list[k], e),
            None => forall|k: int| 0 <= k < list.len() ==> !same_pointer(#[trigger] list[k], e),
        },
    decreases list.len(),
{
    if list.len() > 0 {
        lemma_find_same_pointer(list.drop_last(), e);
        assert forall|k: int| 0 <= k < list.len() - 1 implies #[trigger] list[k] == list.drop_last()[k] by {}
    }
}

/// Writes `e` over the first entry for the same pointer, or appends it.
fn upsert_entry(list: &mut Vec<MemoryPointerEntry>, e: MemoryPointerEntry)
    ensures
        entries_view(final(list)@) == upsert_pointer(entries_view(old(list)@), e@),
{
    match find_pointer_entry(list, &e) {
        Some(i) => {
            let ghost ev = e@;
            proof {
                lemma_find_same_pointer(entries_view(list@), e@);
            }
            list.set(i, e);
            assert(entries_view(list@) =~= entries_view(old(list)@).update(i as int, ev));
        },
        None => {
            let ghost ev = e@;
            list.push(e);
            assert(entries_view(list@) =~= entries_view(old(list)@).push(ev));
        },
    }
}

/// The library entry for a saved row.
fn make_entry(s: &SavedMemoryAddress, fallback: &String) -> (e: MemoryPointerEntry)
    ensures
        e@ == entry_for(*s, fallback@),
{
    let (app_name, module, module_offset, offsets, absolute_address) = match &s.pointer {
        Some(p) => match &p.module {
            Some((m, o)) => (m.clone(), m.clone(), *o, copy_offsets(&p.offsets), None),
            None => (fallback.clone(), String::new(), 0, Vec::new(), Some(s.address)),
        },
        None => (fallback.clone(), String::new(), 0, Vec::new(), Some(s.address)),
    };
    let e = MemoryPointerEntry {
        name: s.description.clone(),
        group: s.group.clone(),
        hexadecimal: s.hexadecimal,
        app_name,
        module,
        module_offset,
        offsets,
        value_type: crate::text::owned(memory_type_config(s.value_type)),
        absolute_address,
        code_module: String::new(),
        code_offset: 0,
        code_address_offset: 0,
        runtime_address: None,
        runtime_process_id: None,
        tracked_value: String::new(),
        tracked_signature: String::new(),
    };
    assert(e@.offsets =~= entry_for(*s, fallback@).offsets);
    assert(e@ =~= entry_for(*s, fallback@));
    e
}

impl CrosshairApp {
    /// Writes every saved row marked for the library into the pointer list: a row
    /// replaces the entry for the same pointer, or is appended. `first_module` is the
    /// name of the first module of the selected process, when it could be listed.
    pub fn persist_memory_pointers(&mut self, first_module: Option<String>)
        ensures
            entries_view(final(self).state.memory_pointer_list@) == persisted(
                entries_view(old(self).state.memory_pointer_list@),
                old(self).memory_panel.saved@,
                fallback_app_name(old(self).memory_panel.process_pid, string_opt(first_module)),
            ),
            final(self).memory_panel == old(self).memory_panel,
            final(self).state == (AppState { memory_pointer_list: final(self).state.memory_pointer_list, ..old(self).state }),
            final(self).capture_hotkey_combo_keys == old(self).capture_hotkey_combo_keys,
            final(self).capture_hotkey_combo_vks == old(self).capture_hotkey_combo_vks,
    {
        let ghost fb = fallback_app_name(self.memory_panel.process_pid, string_opt(first_module));
        let fallback = match (self.memory_panel.process_pid, first_module) {
            (Some(_), Some(m)) => m,
            _ => crate::text::owned("Unknown application"),
        };
        proof {
            reveal_strlit("Unknown application");
        }
        assert(fallback@ == fb);
        let ghost saved = self.memory_panel.saved@;
        let ghost start = entries_view(self.state.memory_pointer_list@);
        let mut i: usize = 0;
        while i < self.memory_panel.saved.len()
            invariant
                saved == self.memory_panel.saved@,
                self.memory_panel == old(self).memory_panel,
                self.state == (AppState { memory_pointer_list: self.state.memory_pointer_list, ..old(self).state }),
                self.capture_hotkey_combo_keys == old(self).capture_hotkey_combo_keys,
                self.capture_hotkey_combo_vks == old(self).capture_hotkey_combo_vks,
                fallback@ == fb,
                i <= saved.len(),
                entries_view(self.state.memory_pointer_list@) == persisted(start, saved.subrange(0, i as int), fb),
            decreases saved.len() - i,
        {
            proof {
                let pre = saved.subrange(0, i + 1);
                assert(pre.drop_last() == saved.subrange(0, i as int));
                assert(pre.last() == saved[i as int]);
            }
            if self.memory_panel.saved[i].saved_to_library {
                let e = make_entry(&self.memory_panel.saved[i], &fallback);
                upsert_entry(&mut self.state.memory_pointer_list, e);
            }
            i = i + 1;
        }
        assert(saved.subrange(0, saved.len() as int) == saved);
    }
}

/// Saving an entry into the library never drops an entry for another pointer: every entry
/// whose offset chain, module offset or absolute address differs from the new one's is
/// still there afterwards, and the new entry is there too.
pub proof fn lemma_upsert_keeps_other_pointers(list: Seq<PointerEntryView>, e: PointerEntryView)
    ensures
        upsert_pointer(list, e).contains(e),
        forall|k: int| 0 <= k < list.len() && ((#[trigger] list[k]).offsets != e.offsets
            || list[k].module_offset != e.module_offset || list[k].absolute_address != e.absolute_address)
            ==> upsert_pointer(list, e).contains(list[k]),
{
    lemma_find_same_pointer(list, e);
    let u = upsert_pointer(list, e);
    match find_same_pointer(list, e) {
        Some(i) => {
            assert(u[i] == e);
            assert forall|k: int| 0 <= k < list.len() && ((#[trigger] list[k]).offsets != e.offsets
                || list[k].module_offset != e.module_offset || list[k].absolute_address != e.absolute_address)
                implies u.contains(list[k]) by {
                assert(k != i);
                assert(u[k] == list[k]);
            }
        },
        None => {
            assert(u[list.len() as int] == e);
            assert forall|k: int| 0 <= k < list.len() && ((#[trigger] list[k]).offsets != e.offsets
                || list[k].module_offset != e.module_offset || list[k].absolute_address != e.absolute_address)
                implies u.contains(list[k]) by {
                assert(u[k] == list[k]);
            }
        },
    }
}

} // verus!
