//! The saved-address library window: its entries grouped by application, how each entry
//! reads, and loading an entry back into the saved list.
use vstd::prelude::*;
use crate::hit_table::{chars_equal, chars_less, lemma_text_less_total, lemma_text_less_transitive, text_less};
use crate::library::MemoryPointerEntry;
use crate::number::{hex_digits, hex_padded, push_hex_digits};
use crate::panel::{AppState, CrosshairApp, MemoryPanelState};
use crate::pointer::{copy_offsets, PointerSpec};
use crate::saved::SavedMemoryAddress;
use crate::scan::{memory_type_from_config, type_from_config, ScanValue, ScanValueType};
use crate::stable_filter::{chained_hex, format_path_offsets};
use crate::text::{ascii_lower_seq, owned, push_char, push_str};

verus! {

/// The application an entry is listed under: its application name, else its module.
pub open spec fn entry_app(e: MemoryPointerEntry) -> Seq<char> {
    if e.app_name@.len() == 0 {
        e.module@
    } else {
        e.app_name@
    }
}

/// The application of an entry, lowered.
pub open spec fn app_key(e: MemoryPointerEntry) -> Seq<char> {
    ascii_lower_seq(entry_app(e))
}

/// Whether `r` lists the applications of the first `n` entries: once each, ignoring
/// case, as the earliest entry names it, in order of their lowered names.
pub open spec fn apps_listed(list: Seq<MemoryPointerEntry>, r: Seq<Seq<char>>, n: int) -> bool {
    &&& forall|i: int, j: int| 0 <= i < j < r.len() ==> text_less(ascii_lower_seq(#[trigger] r[i]), ascii_lower_seq(#[trigger] r[j]))
    &&& forall|i: int| 0 <= i < r.len() ==> exists|m: int| 0 <= m < n && #[trigger] r[i] == entry_app(list[m])
        && forall|k: int| 0 <= k < m ==> #[trigger] app_key(list[k]) != ascii_lower_seq(r[i])
    &&& forall|m: int| 0 <= m < n ==> exists|i: int| 0 <= i < r.len() && #[trigger] app_key(list[m]) == ascii_lower_seq(#[trigger] r[i])
}

/// The texts held by `s`.
pub open spec fn texts(s: Seq<String>) -> Seq<Seq<char>> {
    s.map_values(|t: String| t@)
}

/// The texts held by `s`, lowered.
pub open spec fn lowered(s: Seq<Vec<char>>) -> Seq<Seq<char>> {
    s.map_values(|t: Vec<char>| t@)
}

impl CrosshairApp {
    /// The applications the library window groups its entries under: each once, ignoring
    /// case, as its earliest entry names it, in order of their lowered names.
    pub fn library_apps(&self) -> (r: Vec<String>)
        ensures
            apps_listed(self.state.memory_pointer_list@, texts(r@), self.state.memory_pointer_list@.len() as int),
    {
        let list = &self.state.memory_pointer_list;
        let mut r: Vec<String> = Vec::new();
        let mut keys: Vec<Vec<char>> = Vec::new();
        let mut m: usize = 0;
        while m < list.len()
            invariant
                m <= list@.len(),
                keys@.len() == r@.len(),
                forall|i: int| 0 <= i < r@.len() ==> #[trigger] lowered(keys@)[i] == ascii_lower_seq(texts(r@)[i]),
                apps_listed(list@, texts(r@), m as int),
            decreases list@.len() - m,
        {
            let e = &list[m];
            let app = if e.app_name.unicode_len() == 0 { e.module.clone() } else { e.app_name.clone() };
            assert(app@ == entry_app(list@[m as int]));
            let key = crate::entity::lower_chars(app.as_str());
            let mut p: usize = 0;
            while p < keys.len() && chars_less(&keys[p], &key)
                invariant
                    p <= keys@.len(),
                    forall|i: int| 0 <= i < p ==> text_less(#[trigger] lowered(keys@)[i], key@),
                decreases keys@.len() - p,
            {
                assert(lowered(keys@)[p as int] == keys@[p as int]@);
                p = p + 1;
            }
            let ghost rv = texts(r@);
            let ghost kv = lowered(keys@);
            if p < keys.len() && chars_equal(&keys[p], &key) {
                assert(kv[p as int] == key@);
                assert(app_key(list@[m as int]) == ascii_lower_seq(rv[p as int]));
                assert(apps_listed(list@, rv, m + 1)) by {
                    assert forall|i: int| 0 <= i < rv.len() implies exists|q: int| 0 <= q < m + 1 && #[trigger] rv[i] == entry_app(list@[q])
                        && forall|k: int| 0 <= k < q ==> #[trigger] app_key(list@[k]) != ascii_lower_seq(rv[i]) by {
                        let q = choose|q: int| 0 <= q < m && #[trigger] rv[i] == entry_app(list@[q])
                            && forall|k: int| 0 <= k < q ==> #[trigger] app_key(list@[k]) != ascii_lower_seq(rv[i]);
                    }
                    assert forall|q: int| 0 <= q < m + 1 implies exists|i: int| 0 <= i < rv.len() && #[trigger] app_key(list@[q]) == ascii_lower_seq(#[trigger] rv[i]) by {
                        if q == m {
                            assert(app_key(list@[q]) == ascii_lower_seq(rv[p as int]));
                        }
                    }
                }
            } else {
                proof {
                    assert forall|i: int| 0 <= i < kv.len() implies #[trigger] kv[i] != key@ by {
                        if i < p {
                            lemma_text_less_total(kv[i], key@);
                        } else {
                            assert(!text_less(kv[p as int], key@));
                            lemma_text_less_total(kv[p as int], key@);
                            if i > p {
                                assert(text_less(ascii_lower_seq(rv[p as int]), ascii_lower_seq(rv[i])));
                                if kv[i] == key@ {
                                    lemma_text_less_transitive(key@, kv[p as int], kv[i]);
                                    lemma_text_less_total(key@, key@);
                                }
                            }
                        }
                    }
                    assert forall|k: int| 0 <= k < m implies #[trigger] app_key(list@[k]) != key@ by {
                        let i = choose|i: int| 0 <= i < rv.len() && #[trigger] app_key(list@[k]) == ascii_lower_seq(#[trigger] rv[i]);
                        assert(kv[i] == ascii_lower_seq(rv[i]));
                    }
                    rv.insert_ensures(p as int, app@);
                    kv.insert_ensures(p as int, key@);
                }
                r.insert(p, app);
                keys.insert(p, key);
                proof {
                    let nr = texts(r@);
                    let nk = lowered(keys@);
                    assert(nr =~= rv.insert(p as int, app@));
                    assert(nk =~= kv.insert(p as int, key@));
                    assert forall|i: int| 0 <= i < r@.len() implies #[trigger] lowered(keys@)[i] == ascii_lower_seq(texts(r@)[i]) by {
                        if i < p {
                            assert(nr[i] == rv[i] && nk[i] == kv[i]);
                        } else if i > p {
                            assert(nr[i] == rv[i - 1] && nk[i] == kv[i - 1]);
                        }
                    }
                    assert forall|i: int, j: int| 0 <= i < j < nr.len() implies text_less(ascii_lower_seq(#[trigger] nr[i]), ascii_lower_seq(#[trigger] nr[j])) by {
                        if j < p {
                            assert(nr[i] == rv[i] && nr[j] == rv[j]);
                        } else if j == p {
                            assert(nr[i] == rv[i]);
                            assert(kv[i] == ascii_lower_seq(rv[i]));
                        } else if i < p {
                            assert(nr[i] == rv[i] && nr[j] == rv[j - 1]);
                            assert(kv[i] == ascii_lower_seq(rv[i]));
                            assert(text_less(kv[i], key@));
                            assert(kv[p as int] != key@);
                            lemma_text_less_total(kv[p as int], key@);
                            assert(text_less(key@, kv[p as int]));
                            lemma_text_less_transitive(kv[i], key@, kv[p as int]);
                            if j - 1 > p {
                                assert(text_less(ascii_lower_seq(rv[p as int]), ascii_lower_seq(rv[j - 1])));
                                lemma_text_less_transitive(kv[i], kv[p as int], ascii_lower_seq(rv[j - 1]));
                            }
                        } else if i == p {
                            assert(nr[j] == rv[j - 1]);
                            assert(kv[p as int] != key@);
                            lemma_text_less_total(kv[p as int], key@);
                            if j - 1 > p {
                                assert(text_less(ascii_lower_seq(rv[p as int]), ascii_lower_seq(rv[j - 1])));
                                lemma_text_less_transitive(key@, kv[p as int], ascii_lower_seq(rv[j - 1]));
                            }
                        } else {
                            assert(nr[i] == rv[i - 1] && nr[j] == rv[j - 1]);
                        }
                    }
                    assert forall|i: int| 0 <= i < nr.len() implies exists|q: int| 0 <= q < m + 1 && #[trigger] nr[i] == entry_app(list@[q])
                        && forall|k: int| 0 <= k < q ==> #[trigger] app_key(list@[k]) != ascii_lower_seq(nr[i]) by {
                        if i == p {
                            assert(nr[i] == entry_app(list@[m as int]));
                        } else {
                            let old_i = if i < p { i } else { i - 1 };
                            assert(nr[i] == rv[old_i]);
                            let q = choose|q: int| 0 <= q < m && #[trigger] rv[old_i] == entry_app(list@[q])
                                && forall|k: int| 0 <= k < q ==> #[trigger] app_key(list@[k]) != ascii_lower_seq(rv[old_i]);
                        }
                    }
                    assert forall|q: int| 0 <= q < m + 1 implies exists|i: int| 0 <= i < nr.len() && #[trigger] app_key(list@[q]) == ascii_lower_seq(#[trigger] nr[i]) by {
                        if q == m {
                            assert(app_key(list@[q]) == ascii_lower_seq(nr[p as int]));
                        } else {
                            let i = choose|i: int| 0 <= i < rv.len() && #[trigger] app_key(list@[q]) == ascii_lower_seq(#[trigger] rv[i]);
                            if i < p {
                                assert(nr[i] == rv[i]);
                            } else {
                                assert(nr[i + 1] == rv[i]);
                            }
                        }
                    }
                }
            }
            m = m + 1;
        }
        r
    }
}

/// How a library entry reads: a pointer by its module, offset and offsets; an address
/// found through code by its code module and offset and the signed offset from the
/// captured address (written as its two's-complement bits); else its absolute address.
pub open spec fn library_entry_text(e: MemoryPointerEntry) -> Seq<char> {
    if e.module@.len() == 0 {
        if e.code_module@.len() == 0 {
            match e.absolute_address {
                Some(a) => seq!['0', 'x'] + hex_padded(a as nat, 8),
                None => "Invalid address"@,
            }
        } else {
            e.code_module@ + seq!['+'] + hex_digits(e.code_offset as nat) + " @ +"@ + hex_digits(
                (e.code_address_offset as usize) as nat,
            )
        }
    } else {
        e.module@ + seq!['+'] + hex_digits(e.module_offset as nat) + " ["@ + chained_hex(e.offsets@, " \u{2192} "@) + "]"@
    }
}

/// How a library entry reads.
pub fn library_entry_address_text(e: &MemoryPointerEntry) -> (s: String)
    ensures
        s@ == library_entry_text(*e),
{
    if e.module.unicode_len() == 0 {
        if e.code_module.unicode_len() == 0 {
            match e.absolute_address {
                Some(a) => crate::address::format_prefixed_memory_address(a),
                None => owned("Invalid address"),
            }
        } else {
            let mut s = e.code_module.clone();
            push_char(&mut s, '+');
            push_hex_digits(&mut s, e.code_offset as u64);
            push_str(&mut s, " @ +");
            push_hex_digits(&mut s, (e.code_address_offset as usize) as u64);
            assert(s@ =~= library_entry_text(*e)) by {
                reveal_strlit(" @ +");
            }
            s
        }
    } else {
        let mut s = e.module.clone();
        push_char(&mut s, '+');
        push_hex_digits(&mut s, e.module_offset as u64);
        push_str(&mut s, " [");
        let list = format_path_offsets(&e.offsets, " \u{2192} ");
        push_str(&mut s, list.as_str());
        push_str(&mut s, "]");
        s
    }
}

/// What loading a library entry needs before the process is read: the type, the row's
/// description, group and display, its pointer with a base to resolve, and the address to
/// use when the pointer does not resolve.
pub struct LibraryLoadPlan {
    pub value_type: ScanValueType,
    pub name: String,
    pub group: String,
    pub hexadecimal: bool,
    pub pointer: Option<PointerSpec>,
    pub address: usize,
}

/// The status of an entry found through code that was never resolved.
pub open spec fn unresolved_status(e: MemoryPointerEntry) -> Seq<char> {
    e.name@ + " is unresolved \u{e2}\u{20ac}\u{201d} run Find written for "@ + e.code_module@ + seq!['+'] + hex_digits(
        e.code_offset as nat,
    )
}

impl CrosshairApp {
    /// Starts loading library entry `index`: its pointer, its address to fall back on (the
    /// last address resolved in the selected process, else its absolute address, else 0),
    /// and what the row shows. None without such an entry or with an unknown type; an entry
    /// found through code and never resolved is not loaded and the status says so.
    pub fn library_load_plan(&mut self, index: usize) -> (r: Option<LibraryLoadPlan>)
        ensures
            final(self).state == old(self).state,
            final(self).capture_hotkey_combo_keys == old(self).capture_hotkey_combo_keys,
            final(self).capture_hotkey_combo_vks == old(self).capture_hotkey_combo_vks,
            index >= old(self).state.memory_pointer_list@.len() ==> r is None && final(self).memory_panel == old(self).memory_panel,
            index < old(self).state.memory_pointer_list@.len() ==> {
                let e = old(self).state.memory_pointer_list@[index as int];
                if type_from_config(e.value_type@) is None {
                    r is None && final(self).memory_panel == old(self).memory_panel
                } else if e.code_module@.len() > 0 && e.runtime_address is None {
                    &&& r is None
                    &&& final(self).memory_panel.status@ == unresolved_status(e)
                    &&& final(self).memory_panel == (MemoryPanelState { status: final(self).memory_panel.status, ..old(self).memory_panel })
                } else {
                    let plan = r.unwrap();
                    &&& r is Some
                    &&& final(self).memory_panel == old(self).memory_panel
                    &&& plan.value_type == type_from_config(e.value_type@).unwrap()
                    &&& plan.name@ == e.name@
                    &&& plan.group@ == e.group@
                    &&& plan.hexadecimal == e.hexadecimal
                    &&& plan.address == (if e.runtime_address is Some && e.runtime_process_id == old(self).memory_panel.process_pid {
                        e.runtime_address.unwrap()
                    } else if e.absolute_address is Some {
                        e.absolute_address.unwrap()
                    } else {
                        0
                    })
                    &&& (e.module@.len() == 0 ==> plan.pointer is None)
                    &&& (e.module@.len() > 0 ==> plan.pointer is Some && plan.pointer.unwrap().base == 0
                        && plan.pointer.unwrap().module is Some && plan.pointer.unwrap().module.unwrap().0@ == e.module@
                        && plan.pointer.unwrap().module.unwrap().1 == e.module_offset && plan.pointer.unwrap().offsets@ == e.offsets@)
                }
            },
    {
        if index >= self.state.memory_pointer_list.len() {
            return None;
        }
        let e = &self.state.memory_pointer_list[index];
        let value_type = match memory_type_from_config(e.value_type.as_str()) {
            Some(t) => t,
            None => return None,
        };
        if e.code_module.unicode_len() > 0 && e.runtime_address.is_none() {
            let mut s = e.name.clone();
            push_str(&mut s, " is unresolved \u{e2}\u{20ac}\u{201d} run Find written for ");
            push_str(&mut s, e.code_module.as_str());
            push_char(&mut s, '+');
            push_hex_digits(&mut s, e.code_offset as u64);
            self.memory_panel.status = s;
            return None;
        }
        let pointer = if e.module.unicode_len() == 0 {
            None
        } else {
            Some(PointerSpec { base: 0, module: Some((e.module.clone(), e.module_offset)), offsets: copy_offsets(&e.offsets) })
        };
        let runtime = match e.runtime_address {
            Some(a) => if e.runtime_process_id == self.memory_panel.process_pid { Some(a) } else { None },
            None => None,
        };
        let address = match runtime {
            Some(a) => a,
            None => match e.absolute_address {
                Some(a) => a,
                None => 0,
            },
        };
        Some(LibraryLoadPlan {
            value_type,
            name: e.name.clone(),
            group: e.group.clone(),
            hexadecimal: e.hexadecimal,
            pointer,
            address,
        })
    }

    /// Adds the row a load plan describes: a pointer whose module resolved to
    /// `module_base` takes that base and the address its path resolved to (`resolved`, 0
    /// when it did not); otherwise the plan's address stands. `current` is the value read
    /// at the row's address. The status says the entry was loaded.
    pub fn finish_library_load(&mut self, plan: LibraryLoadPlan, module_base: Option<usize>, resolved: Option<usize>, current: Option<ScanValue>)
        ensures
            final(self).memory_panel.saved@.len() == old(self).memory_panel.saved@.len() + 1,
            final(self).memory_panel.saved@.drop_last() == old(self).memory_panel.saved@,
            ({
                let row = final(self).memory_panel.saved@.last();
                let based = plan.pointer is Some && module_base is Some;
                &&& row.address == (if based {
                    match resolved {
                        Some(a) => a,
                        None => 0,
                    }
                } else {
                    plan.address
                })
                &&& row.value_type == plan.value_type
                &&& row.current == current
                &&& row.text_encoding is None
                &&& row.text_byte_len == 0
                &&& row.current_text is None
                &&& row.description@ == plan.name@
                &&& row.group@ == plan.group@
                &&& row.hexadecimal == plan.hexadecimal
                &&& row.frozen is None
                &&& !row.saved_to_library
                &&& match plan.pointer {
                    Some(p) => row.pointer is Some && row.pointer.unwrap()@ == (crate::pointer::PointerModel {
                        base: if based { module_base.unwrap() } else { p.base },
                        ..p@
                    }),
                    None => row.pointer is None,
                }
            }),
            final(self).memory_panel.status@ == "Saved address loaded"@,
            final(self).memory_panel == (MemoryPanelState {
                saved: final(self).memory_panel.saved,
                status: final(self).memory_panel.status,
                ..old(self).memory_panel
            }),
            final(self).state == old(self).state,
            final(self).capture_hotkey_combo_keys == old(self).capture_hotkey_combo_keys,
            final(self).capture_hotkey_combo_vks == old(self).capture_hotkey_combo_vks,
    {
        let LibraryLoadPlan { value_type, name, group, hexadecimal, pointer, address } = plan;
        let (pointer, address) = match pointer {
            Some(p) => match module_base {
                Some(base) => {
                    let a = match resolved {
                        Some(a) => a,
                        None => 0,
                    };
                    (Some(PointerSpec { base, ..p }), a)
                },
                None => (Some(p), address),
            },
            None => (None, address),
        };
        self.memory_panel.saved.push(SavedMemoryAddress {
            address,
            value_type,
            current,
            text_encoding: None,
            text_byte_len: 0,
            current_text: None,
            description: name,
            group,
            hexadecimal,
            pointer,
            frozen: None,
            saved_to_library: false,
        });
        self.memory_panel.status = owned("Saved address loaded");
    }

    /// Removes library entry `index`, the entries after it moving up.
    pub fn delete_library_entry(&mut self, index: usize)
        requires
            index < old(self).state.memory_pointer_list@.len(),
        ensures
            final(self).state.memory_pointer_list@ == old(self).state.memory_pointer_list@.remove(index as int),
            final(self).state == (AppState { memory_pointer_list: final(self).state.memory_pointer_list, ..old(self).state }),
            final(self).memory_panel == old(self).memory_panel,
            final(self).capture_hotkey_combo_keys == old(self).capture_hotkey_combo_keys,
            final(self).capture_hotkey_combo_vks == old(self).capture_hotkey_combo_vks,
    {
        self.state.memory_pointer_list.remove(index);
    }
}

} // verus!
