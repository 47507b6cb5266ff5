//! What the debugger dialogs do with the events a running watch reports: hits counted by
//! address, kept in order of address, the selection following its row, and the status.
use vstd::prelude::*;
use vstd::std_specs::hash::obeys_key_model;
use crate::code_access::{CodeAccessDialog, InstructionWatchDialog};
use crate::hit_table::InstructionHit;
use crate::number::{dec_digits, push_dec_digits};
use crate::text::{chars_of, has_prefix, owned, push_str};

verus! {

broadcast use vstd::std_specs::hash::group_hash_axioms;

/// An event of a running watch.
pub enum WatchEvent {
    /// The debugger attached and armed some of the threads.
    Started { armed_threads: usize, total_threads: usize },
    /// The watched instruction accessed `data_address`.
    AccessHit { data_address: usize },
    /// An instruction accessed the watched address.
    AddressHit { instruction_address: usize, instruction: String, details: String },
    /// The watch stopped after this many accesses.
    CaptureLimitReached(usize),
    /// The debugger failed and stopped.
    Error(String),
    /// The debugger stopped.
    Stopped,
}

/// What the dialog's owner does with the debugger after an event.
#[derive(Clone, Copy, Debug, PartialEq, Eq, Structural)]
pub enum WatchReaction {
    /// Leave it running.
    Continue,
    /// Stop it and let it go: the first hit was caught.
    StopDebugger,
    /// Let it go: it has ended.
    DebuggerEnded,
}

/// The sum of the counts.
pub open spec fn count_sum(s: Seq<usize>) -> nat
    decreases s.len(),
{
    if s.len() == 0 {
        0
    } else {
        count_sum(s.drop_last()) + s.last() as nat
    }
}

/// Changing one count changes the sum by the difference.
proof fn lemma_sum_update(s: Seq<usize>, k: int, v: usize)
    requires
        0 <= k < s.len(),
    ensures
        count_sum(s.update(k, v)) == count_sum(s) - s[k] + v,
    decreases s.len(),
{
    if k < s.len() - 1 {
        assert(s.update(k, v).drop_last() == s.drop_last().update(k, v));
        lemma_sum_update(s.drop_last(), k, v);
    } else {
        assert(s.update(k, v).drop_last() == s.drop_last());
    }
}

/// Inserting a count adds it to the sum.
proof fn lemma_sum_insert(s: Seq<usize>, p: int, v: usize)
    requires
        0 <= p <= s.len(),
    ensures
        count_sum(s.insert(p, v)) == count_sum(s) + v,
    decreases s.len(),
{
    if p == s.len() {
        assert(s.insert(p, v) == s.push(v));
        assert(s.push(v).drop_last() == s);
    } else {
        assert(s.insert(p, v).drop_last() == s.drop_last().insert(p, v));
        assert(s.insert(p, v).last() == s.last());
        lemma_sum_insert(s.drop_last(), p, v);
    }
}

/// A prefix sums to no more than the whole.
proof fn lemma_sum_prefix(s: Seq<usize>, i: int)
    requires
        0 <= i <= s.len(),
    ensures
        count_sum(s.subrange(0, i)) <= count_sum(s),
    decreases s.len() - i,
{
    if i < s.len() {
        lemma_sum_prefix(s, i + 1);
        assert(s.subrange(0, i + 1).drop_last() == s.subrange(0, i));
    } else {
        assert(s.subrange(0, i) == s);
    }
}

/// The sum of the counts, which must fit.
fn sum_counts(s: &Vec<usize>) -> (r: usize)
    requires
        count_sum(s@) <= usize::MAX,
    ensures
        r == count_sum(s@),
{
    let mut total: usize = 0;
    let mut i: usize = 0;
    while i < s.len()
        invariant
            i <= s@.len(),
            count_sum(s@) <= usize::MAX,
            total == count_sum(s@.subrange(0, i as int)),
        decreases s@.len() - i,
    {
        proof {
            lemma_sum_prefix(s@, i + 1);
            assert(s@.subrange(0, i + 1).drop_last() == s@.subrange(0, i as int));
        }
        total = total + s[i];
        i = i + 1;
    }
    assert(s@.subrange(0, s@.len() as int) == s@);
    total
}

/// The addresses of the rows, strictly rising.
pub open spec fn rising(a: Seq<(usize, usize)>) -> bool {
    forall|i: int, j: int| 0 <= i < j < a.len() ==> (#[trigger] a[i]).0 < (#[trigger] a[j]).0
}

/// The count of each row.
pub open spec fn row_counts(a: Seq<(usize, usize)>) -> Seq<usize> {
    a.map_values(|r: (usize, usize)| r.1)
}

/// Whether `after` is `before` with one more hit at `address`: its row counted once more,
/// or a new row with one hit where its address puts it.
pub open spec fn access_counted(before: Seq<(usize, usize)>, after: Seq<(usize, usize)>, address: usize) -> bool {
    match (choose|k: int| 0 <= k < before.len() && before[k].0 == address) {
        k => if 0 <= k < before.len() && before[k].0 == address {
            after == before.update(k, (address, (before[k].1 + 1) as usize))
        } else {
            exists|p: int| 0 <= p <= before.len() && after == before.insert(p, (address, 1usize))
        },
    }
}

/// Whether the selection `after` of `rows_after` follows the row `before` selected in
/// `rows_before`: the same address, or nothing when nothing was selected.
pub open spec fn selection_follows(before: Option<usize>, rows_before: Seq<usize>, after: Option<usize>, rows_after: Seq<usize>) -> bool {
    match before {
        Some(i) if i < rows_before.len() => after is Some && after.unwrap() < rows_after.len()
            && rows_after[after.unwrap() as int] == rows_before[i as int],
        _ => after is None,
    }
}

/// The address of each row.
pub open spec fn row_addresses(a: Seq<(usize, usize)>) -> Seq<usize> {
    a.map_values(|r: (usize, usize)| r.0)
}

/// The status a running debugger shows once attached.
pub open spec fn running_status(armed: usize, total: usize) -> Seq<char> {
    "Debugger running \u{2014} "@ + dec_digits(armed as nat) + "/"@ + dec_digits(total as nat) + " thread(s) armed"@
}

/// The status after the watch stopped at its capture limit; `first` is the status of a
/// stop after the first hit.
pub open spec fn limit_status(limit: usize, first: Seq<char>) -> Seq<char> {
    if limit == 1 {
        first
    } else {
        "Debugger safely stopped after "@ + dec_digits(limit as nat) + " accesses"@
    }
}

fn running_text(armed: usize, total: usize) -> (s: String)
    ensures
        s@ == running_status(armed, total),
{
    let mut s = owned("Debugger running \u{2014} ");
    push_dec_digits(&mut s, armed as u64);
    push_str(&mut s, "/");
    push_dec_digits(&mut s, total as u64);
    push_str(&mut s, " thread(s) armed");
    s
}

fn limit_text(limit: usize, first: &str) -> (s: String)
    ensures
        s@ == limit_status(limit, first@),
{
    if limit == 1 {
        owned(first)
    } else {
        let mut s = owned("Debugger safely stopped after ");
        push_dec_digits(&mut s, limit as u64);
        push_str(&mut s, " accesses");
        s
    }
}

/// The row holding `address` in rows rising by address, or where a row for it goes.
fn find_row(rows: &Vec<(usize, usize)>, address: usize) -> (r: (usize, bool))
    requires
        rising(rows@),
    ensures
        r.0 <= rows@.len(),
        r.1 ==> r.0 < rows@.len() && rows@[r.0 as int].0 == address,
        !r.1 ==> forall|k: int| 0 <= k < rows@.len() ==> (#[trigger] rows@[k]).0 != address,
        !r.1 ==> forall|k: int| 0 <= k < r.0 ==> (#[trigger] rows@[k]).0 < address,
        !r.1 ==> forall|k: int| r.0 <= k < rows@.len() ==> (#[trigger] rows@[k]).0 > address,
{
    let mut i: usize = 0;
    while i < rows.len() && rows[i].0 < address
        invariant
            i <= rows@.len(),
            forall|k: int| 0 <= k < i ==> (#[trigger] rows@[k]).0 < address,
        decreases rows@.len() - i,
    {
        i = i + 1;
    }
    if i < rows.len() && rows[i].0 == address {
        (i, true)
    } else {
        assert forall|k: int| i <= k < rows@.len() implies (#[trigger] rows@[k]).0 > address by {
            if k > i {
                assert(rows@[i as int].0 < rows@[k].0);
            }
        }
        (i, false)
    }
}

/// Where the row of `address` is in rows rising by address.
fn position_of(rows: &Vec<(usize, usize)>, address: usize) -> (r: Option<usize>)
    ensures
        match r {
            Some(j) => j < rows@.len() && rows@[j as int].0 == address,
            None => forall|k: int| 0 <= k < rows@.len() ==> (#[trigger] rows@[k]).0 != address,
        },
{
    let mut i: usize = 0;
    while i < rows.len()
        invariant
            i <= rows@.len(),
            forall|k: int| 0 <= k < i ==> (#[trigger] rows@[k]).0 != address,
        decreases rows@.len() - i,
    {
        if rows[i].0 == address {
            return Some(i);
        }
        i = i + 1;
    }
    None
}


/// Counts one more hit at `address` in rows rising by address.
fn count_access(rows: &mut Vec<(usize, usize)>, address: usize) -> (r: (usize, bool))
    requires
        rising(old(rows)@),
        count_sum(row_counts(old(rows)@)) < usize::MAX,
    ensures
        r.0 <= old(rows)@.len(),
        r.1 ==> r.0 < old(rows)@.len() && final(rows)@ == old(rows)@.update(r.0 as int, (address, (old(rows)@[r.0 as int].1 + 1) as usize)),
        !r.1 ==> final(rows)@ == old(rows)@.insert(r.0 as int, (address, 1usize)),
        rising(final(rows)@),
        access_counted(old(rows)@, final(rows)@, address),
        count_sum(row_counts(final(rows)@)) == count_sum(row_counts(old(rows)@)) + 1,
{
    let ghost before = rows@;
    let (p, found) = find_row(rows, address);
    assert(row_counts(before).len() == before.len());
    if found {
        let c = rows[p].1;
        proof {
            lemma_sum_prefix(row_counts(before), p as int + 1);
            assert(row_counts(before).subrange(0, p + 1).drop_last() == row_counts(before).subrange(0, p as int));
            assert(row_counts(before).subrange(0, p + 1).last() == c);
        }
        rows.set(p, (address, c + 1));
        proof {
            lemma_sum_update(row_counts(before), p as int, (c + 1) as usize);
            assert(row_counts(rows@) =~= row_counts(before).update(p as int, (c + 1) as usize));
            assert forall|i: int, j: int| 0 <= i < j < rows@.len() implies (#[trigger] rows@[i]).0 < (#[trigger] rows@[j]).0 by {
                assert(before[i].0 < before[j].0);
            }
        }
    } else {
        proof {
            before.insert_ensures(p as int, (address, 1usize));
        }
        rows.insert(p, (address, 1));
        proof {
            lemma_sum_insert(row_counts(before), p as int, 1);
            assert(row_counts(rows@) =~= row_counts(before).insert(p as int, 1usize));
            assert forall|i: int, j: int| 0 <= i < j < rows@.len() implies (#[trigger] rows@[i]).0 < (#[trigger] rows@[j]).0 by {
                if j < p {
                    assert(before[i].0 < before[j].0);
                } else if j == p {
                    assert(before[i].0 < address);
                } else if i < p {
                    assert(before[i].0 < before[j - 1].0);
                } else if i == p {
                    assert(before[j - 1].0 > address);
                } else {
                    assert(before[i - 1].0 < before[j - 1].0);
                }
            }
            assert(exists|q: int| 0 <= q <= before.len() && rows@ == before.insert(q, (address, 1usize)));
        }
    }
    (p, found)
}

impl CodeAccessDialog {
    /// Takes an event of the dialog's watch; `active` is whether its debugger is held, and
    /// `value_text`, for a hit, the value read at the address as the dialog shows it, when
    /// it could be read. A hit counts the address once more, or lists it with one hit in
    /// order of address; the selection stays on its address, and the status counts hits
    /// and addresses, or, when the first hit stops the debugger, says so.
    pub fn apply_access_event(&mut self, event: WatchEvent, active: bool, value_text: Option<String>) -> (r: WatchReaction)
        requires
            rising(old(self).addresses@),
            count_sum(row_counts(old(self).addresses@)) < usize::MAX,
        ensures
            rising(final(self).addresses@),
            match event {
                WatchEvent::Started { armed_threads, total_threads } => {
                    &&& r == WatchReaction::Continue
                    &&& final(self).status@ == running_status(armed_threads, total_threads)
                    &&& *final(self) == (CodeAccessDialog { status: final(self).status, ..*old(self) })
                },
                WatchEvent::AccessHit { data_address } => {
                    let after = final(self).addresses@;
                    let stop = old(self).auto_stop_on_hit && active;
                    &&& access_counted(old(self).addresses@, after, data_address)
                    &&& count_sum(row_counts(after)) == count_sum(row_counts(old(self).addresses@)) + 1
                    &&& selection_follows(old(self).selected, row_addresses(old(self).addresses@), final(self).selected, row_addresses(after))
                    &&& final(self).values@ == (match value_text {
                        Some(t) => old(self).values@.insert(data_address, t),
                        None => old(self).values@,
                    })
                    &&& final(self).status@ == (if stop {
                        "First address captured \u{2014} debugger detached safely"@
                    } else {
                        dec_digits(count_sum(row_counts(after))) + " hit(s), "@ + dec_digits(after.len()) + " address(es)"@
                    })
                    &&& r == (if stop { WatchReaction::StopDebugger } else { WatchReaction::Continue })
                    &&& *final(self) == (CodeAccessDialog {
                        addresses: final(self).addresses,
                        selected: final(self).selected,
                        values: final(self).values,
                        status: final(self).status,
                        ..*old(self)
                    })
                },
                WatchEvent::CaptureLimitReached(limit) => {
                    &&& r == WatchReaction::Continue
                    &&& final(self).status@ == limit_status(limit, "First address captured \u{2014} debugger detached safely"@)
                    &&& *final(self) == (CodeAccessDialog { status: final(self).status, ..*old(self) })
                },
                WatchEvent::Error(e) => {
                    &&& r == WatchReaction::DebuggerEnded
                    &&& final(self).status@ == "Debugger stopped: "@ + e@
                    &&& *final(self) == (CodeAccessDialog { status: final(self).status, ..*old(self) })
                },
                WatchEvent::Stopped => {
                    &&& r == WatchReaction::DebuggerEnded
                    &&& final(self).status@ == "Debugger stopped"@
                    &&& *final(self) == (CodeAccessDialog { status: final(self).status, ..*old(self) })
                },
                WatchEvent::AddressHit { .. } => r == WatchReaction::Continue && *final(self) == *old(self),
            },
    {
        match event {
            WatchEvent::Started { armed_threads, total_threads } => {
                self.status = running_text(armed_threads, total_threads);
                WatchReaction::Continue
            },
            WatchEvent::AccessHit { data_address } => {
                assert(obeys_key_model::<usize>());
                let ghost before = self.addresses@;
                let selected_address = match self.selected {
                    Some(i) => if i < self.addresses.len() { Some(self.addresses[i].0) } else { None },
                    None => None,
                };
                let (p, found) = count_access(&mut self.addresses, data_address);
                proof {
                    if !found {
                        before.insert_ensures(p as int, (data_address, 1usize));
                    }
                }
                if let Some(t) = value_text {
                    self.values.insert(data_address, t);
                }
                self.selected = match selected_address {
                    Some(a) => position_of(&self.addresses, a),
                    None => None,
                };
                proof {
                    if let Some(i) = old(self).selected {
                        if i < before.len() {
                            let a = before[i as int].0;
                            if found || i < p {
                                assert(self.addresses@[i as int].0 == a);
                            } else {
                                assert(self.addresses@[i + 1].0 == a);
                            }
                        }
                    }
                    assert(row_addresses(self.addresses@).len() == self.addresses@.len());
                }
                let total = sum_counts(&row_counts_of(&self.addresses));
                if self.auto_stop_on_hit && active {
                    self.status = owned("First address captured \u{2014} debugger detached safely");
                    WatchReaction::StopDebugger
                } else {
                    let mut s = String::new();
                    push_dec_digits(&mut s, total as u64);
                    push_str(&mut s, " hit(s), ");
                    push_dec_digits(&mut s, self.addresses.len() as u64);
                    push_str(&mut s, " address(es)");
                    self.status = s;
                    WatchReaction::Continue
                }
            },
            WatchEvent::CaptureLimitReached(limit) => {
                self.status = limit_text(limit, "First address captured \u{2014} debugger detached safely");
                WatchReaction::Continue
            },
            WatchEvent::Error(e) => {
                let mut s = owned("Debugger stopped: ");
                push_str(&mut s, e.as_str());
                self.status = s;
                WatchReaction::DebuggerEnded
            },
            WatchEvent::Stopped => {
                self.status = owned("Debugger stopped");
                WatchReaction::DebuggerEnded
            },
            WatchEvent::AddressHit { .. } => WatchReaction::Continue,
        }
    }
}

/// The count of each row.
fn row_counts_of(rows: &Vec<(usize, usize)>) -> (r: Vec<usize>)
    ensures
        r@ == row_counts(rows@),
{
    let mut r: Vec<usize> = Vec::new();
    let mut i: usize = 0;
    while i < rows.len()
        invariant
            i <= rows@.len(),
            r@ == row_counts(rows@).subrange(0, i as int),
        decreases rows@.len() - i,
    {
        r.push(rows[i].1);
        assert(r@ =~= row_counts(rows@).subrange(0, i + 1));
        i = i + 1;
    }
    assert(r@ =~= row_counts(rows@));
    r
}

/// How many instructions an instruction watch lists.
pub const MAX_VISIBLE_INSTRUCTIONS: usize = 64;

/// The address and count of each caught instruction.
pub open spec fn hit_rows(h: Seq<InstructionHit>) -> Seq<(usize, usize)> {
    h.map_values(|x: InstructionHit| (x.address, x.count))
}

/// Whether `after` is `before` once the instruction at `address`, with text `instruction`
/// and `details`, accessed the watched address again: its row counted once more with the
/// new text and details; else a new row with one hit where its address puts it, when
/// fewer than 64 are listed; else unchanged.
pub open spec fn instruction_counted(
    before: Seq<InstructionHit>,
    after: Seq<InstructionHit>,
    address: usize,
    instruction: Seq<char>,
    details: Seq<char>,
) -> bool {
    match (choose|k: int| 0 <= k < before.len() && before[k].address == address) {
        k => if 0 <= k < before.len() && before[k].address == address {
            &&& after.len() == before.len()
            &&& forall|j: int| 0 <= j < before.len() && j != k ==> after[j] == before[j]
            &&& after[k].address == address
            &&& after[k].count == before[k].count + 1
            &&& after[k].instruction@ == instruction
            &&& after[k].details@ == details
        } else if before.len() < MAX_VISIBLE_INSTRUCTIONS {
            exists|p: int| #![trigger before.insert(p, after[p])]
                0 <= p <= before.len() && after == before.insert(p, after[p]) && after[p].address == address
                && after[p].count == 1 && after[p].instruction@ == instruction && after[p].details@ == details
        } else {
            after == before
        },
    }
}

/// The hit row holding `address`, in hits rising by address, or where one for it goes.
fn find_hit(hits: &Vec<InstructionHit>, address: usize) -> (r: (usize, bool))
    requires
        rising(hit_rows(hits@)),
    ensures
        r.0 <= hits@.len(),
        r.1 ==> r.0 < hits@.len() && hits@[r.0 as int].address == address,
        !r.1 ==> forall|k: int| 0 <= k < hits@.len() ==> (#[trigger] hits@[k]).address != address,
        !r.1 ==> forall|k: int| 0 <= k < r.0 ==> (#[trigger] hits@[k]).address < address,
        !r.1 ==> forall|k: int| r.0 <= k < hits@.len() ==> (#[trigger] hits@[k]).address > address,
{
    let mut i: usize = 0;
    while i < hits.len() && hits[i].address < address
        invariant
            i <= hits@.len(),
            forall|k: int| 0 <= k < i ==> (#[trigger] hits@[k]).address < address,
        decreases hits@.len() - i,
    {
        i = i + 1;
    }
    if i < hits.len() && hits[i].address == address {
        (i, true)
    } else {
        assert forall|k: int| i <= k < hits@.len() implies (#[trigger] hits@[k]).address > address by {
            if k > i {
                assert(hit_rows(hits@)[i as int].0 < hit_rows(hits@)[k].0);
            }
        }
        assert forall|k: int| 0 <= k < hits@.len() implies (#[trigger] hits@[k]).address != address by {
            if k < i {
            } else {
                if k > i {
                    assert(hit_rows(hits@)[i as int].0 < hit_rows(hits@)[k].0);
                }
            }
        }
        (i, false)
    }
}

/// Where the hit of `address` is.
fn hit_position(hits: &Vec<InstructionHit>, address: usize) -> (r: Option<usize>)
    ensures
        match r {
            Some(j) => j < hits@.len() && hits@[j as int].address == address,
            None => forall|k: int| 0 <= k < hits@.len() ==> (#[trigger] hits@[k]).address != address,
        },
{
    let mut i: usize = 0;
    while i < hits.len()
        invariant
            i <= hits@.len(),
            forall|k: int| 0 <= k < i ==> (#[trigger] hits@[k]).address != address,
        decreases hits@.len() - i,
    {
        if hits[i].address == address {
            return Some(i);
        }
        i = i + 1;
    }
    None
}


/// Counts one more hit of the instruction at `address`, in hits rising by address: its
/// row, with the new text and details (kind 0); else a new row where its address puts it,
/// while fewer than 64 are listed (kind 1); else nothing (kind 2).
fn count_instruction(hits: &mut Vec<InstructionHit>, address: usize, instruction: String, details: String) -> (r: (usize, u8))
    requires
        rising(hit_rows(old(hits)@)),
        count_sum(row_counts(hit_rows(old(hits)@))) < usize::MAX,
    ensures
        r.0 <= old(hits)@.len(),
        r.1 <= 2,
        r.1 == 0 ==> r.0 < old(hits)@.len() && final(hits)@.len() == old(hits)@.len()
            && forall|j: int| 0 <= j < old(hits)@.len() && j != r.0 ==> final(hits)@[j] == old(hits)@[j],
        r.1 == 0 ==> final(hits)@[r.0 as int].address == address,
        r.1 == 1 ==> r.0 < final(hits)@.len() && final(hits)@ == old(hits)@.insert(r.0 as int, final(hits)@[r.0 as int]),
        r.1 == 1 ==> final(hits)@[r.0 as int].address == address,
        r.1 == 2 ==> final(hits)@ == old(hits)@,
        rising(hit_rows(final(hits)@)),
        instruction_counted(old(hits)@, final(hits)@, address, instruction@, details@),
        count_sum(row_counts(hit_rows(final(hits)@))) <= count_sum(row_counts(hit_rows(old(hits)@))) + 1,
{
    let ghost before = hits@;
    let ghost ins = instruction@;
    let ghost det = details@;
    let (p, found) = find_hit(hits, address);
    assert(row_counts(hit_rows(before)).len() == before.len());
    if found {
        let c = hits[p].count;
        proof {
            let rc = row_counts(hit_rows(before));
            lemma_sum_prefix(rc, p as int + 1);
            assert(rc.subrange(0, p + 1).drop_last() == rc.subrange(0, p as int));
            assert(rc.subrange(0, p + 1).last() == c);
        }
        hits.set(p, InstructionHit { address, instruction, count: c + 1, details });
        proof {
            lemma_sum_update(row_counts(hit_rows(before)), p as int, (c + 1) as usize);
            assert(row_counts(hit_rows(hits@)) =~= row_counts(hit_rows(before)).update(p as int, (c + 1) as usize));
            let after = hit_rows(hits@);
            let b = hit_rows(before);
            assert forall|i: int, j: int| 0 <= i < j < after.len() implies (#[trigger] after[i]).0 < (#[trigger] after[j]).0 by {
                assert(b[i].0 < b[j].0);
            }
            let k = choose|k: int| 0 <= k < before.len() && before[k].address == address;
            assert(0 <= k < before.len() && before[k].address == address) by {
                assert(before[p as int].address == address);
            }
            if k != p {
                if k < p {
                    assert(b[k].0 < b[p as int].0);
                } else {
                    assert(b[p as int].0 < b[k].0);
                }
            }
            assert(hits@[p as int] == InstructionHit { address, instruction: hits@[p as int].instruction, count: (c + 1) as usize, details: hits@[p as int].details });
        }
        (p, 0)
    } else if hits.len() < MAX_VISIBLE_INSTRUCTIONS {
        let h = InstructionHit { address, instruction, count: 1, details };
        proof {
            before.insert_ensures(p as int, h);
        }
        hits.insert(p, h);
        proof {
            lemma_sum_insert(row_counts(hit_rows(before)), p as int, 1);
            assert(row_counts(hit_rows(hits@)) =~= row_counts(hit_rows(before)).insert(p as int, 1usize));
            let after = hit_rows(hits@);
            let b = hit_rows(before);
            assert forall|i: int, j: int| 0 <= i < j < after.len() implies (#[trigger] after[i]).0 < (#[trigger] after[j]).0 by {
                if j < p {
                    assert(b[i].0 < b[j].0);
                } else if j == p {
                    assert(before[i].address < address);
                } else if i < p {
                    assert(b[i].0 < b[j - 1].0);
                } else if i == p {
                    assert(before[j - 1].address > address);
                } else {
                    assert(b[i - 1].0 < b[j - 1].0);
                }
            }
            assert(hits@[p as int] == h);
            assert(before.insert(p as int, hits@[p as int]) == hits@);
            let k = choose|k: int| 0 <= k < before.len() && before[k].address == address;
            assert(!(0 <= k < before.len() && before[k].address == address));
        }
        (p, 1)
    } else {
        proof {
            let k = choose|k: int| 0 <= k < before.len() && before[k].address == address;
            assert(!(0 <= k < before.len() && before[k].address == address));
        }
        (p, 2)
    }
}

/// Whether a status reports a stop already.
pub open spec fn reports_stop(status: Seq<char>) -> bool {
    has_prefix(status, "Debugger stopped:"@) || has_prefix(status, "Debugger safely stopped"@)
}

impl InstructionWatchDialog {
    /// Takes an event of the dialog's watch; `active` is whether its debugger is held. An
    /// instruction that accessed the address is counted once more, or listed with one hit
    /// in order of address while fewer than 64 are listed; the selection stays on its
    /// instruction, and the status counts hits and instructions, or, when the first hit
    /// stops the debugger, says so. A stop keeps a status that already reports one.
    pub fn apply_instruction_event(&mut self, event: WatchEvent, active: bool) -> (r: WatchReaction)
        requires
            rising(hit_rows(old(self).hits@)),
            count_sum(row_counts(hit_rows(old(self).hits@))) < usize::MAX,
        ensures
            rising(hit_rows(final(self).hits@)),
            match event {
                WatchEvent::Started { armed_threads, total_threads } => {
                    &&& r == WatchReaction::Continue
                    &&& final(self).status@ == running_status(armed_threads, total_threads)
                    &&& *final(self) == (InstructionWatchDialog { status: final(self).status, ..*old(self) })
                },
                WatchEvent::AddressHit { instruction_address, instruction, details } => {
                    let after = final(self).hits@;
                    let total = count_sum(row_counts(hit_rows(after)));
                    let stop = old(self).auto_stop_on_hit && active;
                    &&& instruction_counted(old(self).hits@, after, instruction_address, instruction@, details@)
                    &&& selection_follows(old(self).selected, row_addresses(hit_rows(old(self).hits@)), final(self).selected,
                        row_addresses(hit_rows(after)))
                    &&& final(self).status@ == (if stop {
                        "First hit captured \u{2014} debugger detached safely"@
                    } else {
                        dec_digits(total) + " hit(s), "@ + dec_digits(after.len()) + " instruction(s)"@
                    })
                    &&& r == (if stop { WatchReaction::StopDebugger } else { WatchReaction::Continue })
                    &&& *final(self) == (InstructionWatchDialog {
                        hits: final(self).hits,
                        selected: final(self).selected,
                        status: final(self).status,
                        ..*old(self)
                    })
                },
                WatchEvent::CaptureLimitReached(limit) => {
                    &&& r == WatchReaction::Continue
                    &&& final(self).status@ == limit_status(limit, "First hit captured \u{2014} debugger detached safely"@)
                    &&& *final(self) == (InstructionWatchDialog { status: final(self).status, ..*old(self) })
                },
                WatchEvent::Error(e) => {
                    &&& r == WatchReaction::DebuggerEnded
                    &&& final(self).status@ == "Debugger stopped: "@ + e@
                    &&& *final(self) == (InstructionWatchDialog { status: final(self).status, ..*old(self) })
                },
                WatchEvent::Stopped => {
                    &&& r == WatchReaction::DebuggerEnded
                    &&& final(self).status@ == (if reports_stop(old(self).status@) {
                        old(self).status@
                    } else {
                        "Debugger stopped"@
                    })
                    &&& *final(self) == (InstructionWatchDialog { status: final(self).status, ..*old(self) })
                },
                WatchEvent::AccessHit { .. } => r == WatchReaction::Continue && *final(self) == *old(self),
            },
    {
        match event {
            WatchEvent::Started { armed_threads, total_threads } => {
                self.status = running_text(armed_threads, total_threads);
                WatchReaction::Continue
            },
            WatchEvent::AddressHit { instruction_address, instruction, details } => {
                let ghost before = self.hits@;
                let selected_address = match self.selected {
                    Some(i) => if i < self.hits.len() { Some(self.hits[i].address) } else { None },
                    None => None,
                };
                let (p, kind) = count_instruction(&mut self.hits, instruction_address, instruction, details);
                proof {
                    if kind == 1 {
                        before.insert_ensures(p as int, self.hits@[p as int]);
                    }
                }
                self.selected = match selected_address {
                    Some(a) => hit_position(&self.hits, a),
                    None => None,
                };
                proof {
                    if let Some(i) = old(self).selected {
                        if i < before.len() {
                            let a = before[i as int].address;
                            if kind != 1 || i < p {
                                assert(self.hits@[i as int].address == a);
                            } else {
                                assert(self.hits@[i + 1].address == a);
                            }
                        }
                    }
                    assert(row_addresses(hit_rows(self.hits@)).len() == self.hits@.len());
                }
                let counts = hit_counts_of(&self.hits);
                let total = sum_counts(&counts);
                if self.auto_stop_on_hit && active {
                    self.status = owned("First hit captured \u{2014} debugger detached safely");
                    WatchReaction::StopDebugger
                } else {
                    let mut s = String::new();
                    push_dec_digits(&mut s, total as u64);
                    push_str(&mut s, " hit(s), ");
                    push_dec_digits(&mut s, self.hits.len() as u64);
                    push_str(&mut s, " instruction(s)");
                    self.status = s;
                    WatchReaction::Continue
                }
            },
            WatchEvent::CaptureLimitReached(limit) => {
                self.status = limit_text(limit, "First hit captured \u{2014} debugger detached safely");
                WatchReaction::Continue
            },
            WatchEvent::Error(e) => {
                let mut s = owned("Debugger stopped: ");
                push_str(&mut s, e.as_str());
                self.status = s;
                WatchReaction::DebuggerEnded
            },
            WatchEvent::Stopped => {
                let v = chars_of(self.status.as_str());
                let a = chars_of("Debugger stopped:");
                let b = chars_of("Debugger safely stopped");
                if !(starts_with_chars(&v, &a) || starts_with_chars(&v, &b)) {
                    self.status = owned("Debugger stopped");
                }
                WatchReaction::DebuggerEnded
            },
            WatchEvent::AccessHit { .. } => WatchReaction::Continue,
        }
    }
}

/// Whether `v` begins with `p`.
fn starts_with_chars(v: &Vec<char>, p: &Vec<char>) -> (r: bool)
    ensures
        r == has_prefix(v@, p@),
{
    if p.len() > v.len() {
        return false;
    }
    let mut i: usize = 0;
    while i < p.len()
        invariant
            p@.len() <= v@.len(),
            i <= p@.len(),
            forall|k: int| 0 <= k < i ==> v@[k] == p@[k],
        decreases p@.len() - i,
    {
        if v[i] != p[i] {
            assert(v@.subrange(0, p@.len() as int)[i as int] != p@[i as int]);
            return false;
        }
        i = i + 1;
    }
    assert(v@.subrange(0, p@.len() as int) =~= p@);
    true
}

/// The count of each caught instruction.
fn hit_counts_of(hits: &Vec<InstructionHit>) -> (r: Vec<usize>)
    ensures
        r@ == row_counts(hit_rows(hits@)),
{
    let mut r: Vec<usize> = Vec::new();
    let mut i: usize = 0;
    while i < hits.len()
        invariant
            i <= hits@.len(),
            r@ == row_counts(hit_rows(hits@)).subrange(0, i as int),
        decreases hits@.len() - i,
    {
        r.push(hits[i].count);
        assert(r@ =~= row_counts(hit_rows(hits@)).subrange(0, i + 1));
        i = i + 1;
    }
    assert(r@ =~= row_counts(hit_rows(hits@)));
    r
}

} // verus!
