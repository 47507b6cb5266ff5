//! The module list of the selected process, sorted by base address.
use vstd::prelude::*;
use crate::panel::{CrosshairApp, MemoryPanelState};
use crate::saved::row_before;
use crate::text::{owned, push_str};

verus! {

/// The dialog listing the modules of the process (name, base, size).
pub struct ModuleListDialog {
    pub modules: Vec<(String, usize, usize)>,
    pub filter: String,
    pub status: String,
}

/// Whether `after` is `before` reordered by `perm` (entry `i` of `after` was entry
/// `perm[i]`) and sorted by base address, entries at the same base keeping their order.
pub open spec fn sorted_by_base(before: Seq<(String, usize, usize)>, after: Seq<(String, usize, usize)>, perm: Seq<int>) -> bool {
    &&& perm.len() == before.len()
    &&& after.len() == before.len()
    &&& forall|i: int| 0 <= i < perm.len() ==> 0 <= #[trigger] perm[i] < before.len() && after[i] == before[perm[i]]
    &&& forall|i: int, j: int| 0 <= i < j < perm.len() ==> #[trigger] perm[i] != #[trigger] perm[j]
    &&& forall|i: int, j: int| 0 <= i < j < perm.len() ==> row_before(
        (#[trigger] after[i]).1,
        perm[i],
        (#[trigger] after[j]).1,
        perm[j],
        false,
    )
}

/// The ordered invariant of the modules placed so far, the first `k` of `all`.
pub open spec fn placed_modules(rows: Seq<(usize, (String, usize, usize))>, all: Seq<(String, usize, usize)>, k: int) -> bool {
    &&& rows.len() == k
    &&& forall|i: int| 0 <= i < rows.len() ==> (#[trigger] rows[i]).0 < k && rows[i].1 == all[rows[i].0 as int]
    &&& forall|i: int, j: int| 0 <= i < j < rows.len() ==> (#[trigger] rows[i]).0 != (#[trigger] rows[j]).0
    &&& forall|i: int, j: int| 0 <= i < j < rows.len() ==> row_before(
        (#[trigger] rows[i]).1.1,
        rows[i].0 as int,
        (#[trigger] rows[j]).1.1,
        rows[j].0 as int,
        false,
    )
}

/// The first position among the sorted modules where a module at `base` goes.
fn base_position(rows: &Vec<(usize, (String, usize, usize))>, base: usize) -> (p: usize)
    ensures
        p <= rows@.len(),
        forall|k: int| 0 <= k < p ==> (#[trigger] rows@[k]).1.1 <= base,
        p < rows@.len() ==> rows@[p as int].1.1 > base,
{
    let mut p: usize = 0;
    while p < rows.len()
        invariant
            p <= rows@.len(),
            forall|k: int| 0 <= k < p ==> (#[trigger] rows@[k]).1.1 <= base,
        decreases rows@.len() - p,
    {
        if rows[p].1.1 > base {
            return p;
        }
        p = p + 1;
    }
    p
}

/// Sorts the modules by base, each paired with its old index.
fn sort_modules(modules: Vec<(String, usize, usize)>) -> (rows: Vec<(usize, (String, usize, usize))>)
    ensures
        placed_modules(rows@, modules@, modules@.len() as int),
{
    let ghost all = modules@;
    let n = modules.len();
    let mut rows: Vec<(usize, (String, usize, usize))> = Vec::new();
    let mut index: usize = 0;
    for entry in it: modules.into_iter()
        invariant
            it.seq() == all,
            index == it.index(),
            all.len() == n,
            placed_modules(rows@, all, index as int),
    {
        assert(index < all.len());
        let base = entry.1;
        let p = base_position(&rows, base);
        let ghost old_rows = rows@;
        rows.insert(p, (index, entry));
        proof {
            let r = rows@;
            assert(r.len() == index + 1);
            assert forall|i: int| 0 <= i < r.len() implies (#[trigger] r[i]).0 < index + 1 && r[i].1 == all[r[i].0 as int] by {
                if i < p {
                    assert(r[i] == old_rows[i]);
                } else if i > p {
                    assert(r[i] == old_rows[i - 1]);
                }
            }
            assert forall|i: int, j: int| 0 <= i < j < r.len() implies (#[trigger] r[i]).0 != (#[trigger] r[j]).0 by {
                if i < p && j < p {
                    assert(r[i] == old_rows[i] && r[j] == old_rows[j]);
                } else if i > p && j > p {
                    assert(r[i] == old_rows[i - 1] && r[j] == old_rows[j - 1]);
                } else if i < p && j > p {
                    assert(r[i] == old_rows[i] && r[j] == old_rows[j - 1]);
                } else if i == p {
                    assert(r[j] == old_rows[j - 1]);
                } else {
                    assert(r[i] == old_rows[i]);
                }
            }
            assert forall|i: int, j: int| 0 <= i < j < r.len() implies row_before(
                (#[trigger] r[i]).1.1,
                r[i].0 as int,
                (#[trigger] r[j]).1.1,
                r[j].0 as int,
                false,
            ) by {
                if i < p && j < p {
                    assert(r[i] == old_rows[i] && r[j] == old_rows[j]);
                } else if i > p && j > p {
                    assert(r[i] == old_rows[i - 1] && r[j] == old_rows[j - 1]);
                } else if i < p && j > p {
                    assert(r[i] == old_rows[i] && r[j] == old_rows[j - 1]);
                    assert(old_rows[i].1.1 <= base);
                    assert(old_rows[p as int].1.1 > base);
                    if j - 1 > p {
                        assert(row_before(old_rows[p as int].1.1, old_rows[p as int].0 as int, old_rows[j - 1].1.1, old_rows[j - 1].0 as int, false));
                    }
                } else if i == p {
                    assert(r[j] == old_rows[j - 1]);
                    assert(old_rows[p as int].1.1 > base);
                    if j - 1 > p {
                        assert(row_before(old_rows[p as int].1.1, old_rows[p as int].0 as int, old_rows[j - 1].1.1, old_rows[j - 1].0 as int, false));
                    }
                } else {
                    assert(r[i] == old_rows[i]);
                    assert(old_rows[i].1.1 <= base);
                }
            }
        }
        index = index + 1;
    }
    rows
}

/// The modules sorted by base address, modules at the same base keeping their order.
pub fn modules_by_base(modules: Vec<(String, usize, usize)>) -> (r: Vec<(String, usize, usize)>)
    ensures
        exists|perm: Seq<int>| sorted_by_base(modules@, r@, perm),
{
    let ghost before = modules@;
    let rows = sort_modules(modules);
    let ghost rv = rows@;
    let ghost perm = rv.map_values(|r: (usize, (String, usize, usize))| r.0 as int);
    let n = rows.len();
    let mut out: Vec<(String, usize, usize)> = Vec::new();
    let mut k: usize = 0;
    for row in it: rows.into_iter()
        invariant
            it.seq() == rv,
            rv.len() == n,
            k == it.index(),
            placed_modules(rv, before, before.len() as int),
            out@ == rv.subrange(0, k as int).map_values(|r: (usize, (String, usize, usize))| r.1),
    {
        assert(k < rv.len());
        let (_, entry) = row;
        let ghost prev = out@;
        out.push(entry);
        assert(out@ =~= rv.subrange(0, k + 1).map_values(|r: (usize, (String, usize, usize))| r.1)) by {
            assert forall|i: int| 0 <= i < k + 1 implies #[trigger] out@[i] == rv.subrange(0, k + 1).map_values(|r: (usize, (String, usize, usize))| r.1)[i] by {
                if i < k {
                    assert(out@[i] == prev[i]);
                }
            }
        }
        k = k + 1;
    }
    proof {
        assert(out@ =~= rv.map_values(|r: (usize, (String, usize, usize))| r.1)) by {
            assert(rv.subrange(0, rv.len() as int) == rv);
        }
        assert(sorted_by_base(before, out@, perm)) by {
            assert forall|i: int, j: int| 0 <= i < j < perm.len() implies row_before(
                (#[trigger] out@[i]).1,
                perm[i],
                (#[trigger] out@[j]).1,
                perm[j],
                false,
            ) by {
                assert(out@[i] == rv[i].1 && out@[j] == rv[j].1);
            }
            assert forall|i: int, j: int| 0 <= i < j < perm.len() implies #[trigger] perm[i] != #[trigger] perm[j] by {
                assert(rv[i].0 != rv[j].0);
            }
        }
    }
    out
}

impl CrosshairApp {
    /// Opens the module list of the selected process: `modules` is the modules it listed,
    /// or why they could not be listed, which the dialog and the status then report.
    /// Without a process nothing opens and the status asks for one.
    pub fn open_memory_module_list(&mut self, modules: Result<Vec<(String, usize, usize)>, String>) -> (r: Option<ModuleListDialog>)
        ensures
            old(self).memory_panel.process_pid is None ==> r is None && final(self).memory_panel.status@ == "Select a process"@
                && *final(self) == (CrosshairApp { memory_panel: MemoryPanelState { status: final(self).memory_panel.status, ..old(self).memory_panel }, ..*old(self) }),
            old(self).memory_panel.process_pid is Some ==> r is Some && r.unwrap().filter@ == Seq::<char>::empty() && match modules {
                Ok(m) => {
                    &&& exists|perm: Seq<int>| sorted_by_base(m@, r.unwrap().modules@, perm)
                    &&& r.unwrap().status@ == Seq::<char>::empty()
                    &&& *final(self) == *old(self)
                },
                Err(e) => {
                    &&& r.unwrap().modules@.len() == 0
                    &&& r.unwrap().status@ == "Unable to enumerate modules: "@ + e@
                    &&& final(self).memory_panel.status@ == r.unwrap().status@
                    &&& *final(self) == (CrosshairApp { memory_panel: MemoryPanelState { status: final(self).memory_panel.status, ..old(self).memory_panel }, ..*old(self) })
                },
            },
    {
        if self.memory_panel.process_pid.is_none() {
            self.memory_panel.status = owned("Select a process");
            return None;
        }
        match modules {
            Ok(m) => {
                let ghost mv = m@;
                let sorted = modules_by_base(m);
                let ghost perm = choose|perm: Seq<int>| sorted_by_base(mv, sorted@, perm);
                let d = ModuleListDialog { modules: sorted, filter: String::new(), status: String::new() };
                assert(sorted_by_base(mv, d.modules@, perm));
                Some(d)
            },
            Err(e) => {
                let mut status = owned("Unable to enumerate modules: ");
                push_str(&mut status, e.as_str());
                self.memory_panel.status = status.clone();
                Some(ModuleListDialog { modules: Vec::new(), filter: String::new(), status })
            },
        }
    }
}

} // verus!
