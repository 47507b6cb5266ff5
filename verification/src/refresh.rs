//! Refreshing what the panel shows from reads of the target process: live values of the
//! visible result rows, the read-back of recent writes, and the addresses and values of
//! saved rows.
use vstd::prelude::*;
use vstd::std_specs::hash::obeys_key_model;
use crate::scan::ScanValue;
use crate::saved::{PendingWriteCheck, SavedMemoryAddress};
use crate::panel::MemoryPanelState;
use crate::number::{dec_digits, push_dec_digits};
use crate::text::push_str;
use crate::library::string_opt;

verus! {

broadcast use vstd::std_specs::hash::group_hash_axioms;

/// The rows `[start, end)` of result table `which` whose live values are read again: the
/// rows drawn there in the last frame, cut to the current results, if any remain.
pub open spec fn live_range_spec(p: MemoryPanelState, which: int) -> Option<(usize, usize)> {
    match p.visible_scan_ranges@[which] {
        Some((start, end)) => {
            let end = if end < p.candidates@.len() { end } else { p.candidates@.len() as usize };
            if start < end { Some((start, end)) } else { None }
        },
        None => None,
    }
}

impl MemoryPanelState {
    /// The result rows of table `which` (0 or 1) whose live values are to be read again.
    pub fn live_refresh_range(&self, which: usize) -> (r: Option<(usize, usize)>)
        requires
            which < 2,
        ensures
            r == live_range_spec(*self, which as int),
    {
        match self.visible_scan_ranges[which] {
            Some((start, end)) => {
                let end = if end < self.candidates.len() { end } else { self.candidates.len() };
                if start < end { Some((start, end)) } else { None }
            },
            None => None,
        }
    }

    /// Records `values[k]` as the live value of result row `start + k`.
    pub fn store_live_values(&mut self, start: usize, values: &[ScanValue])
        requires
            start + values@.len() <= usize::MAX,
        ensures
            forall|i: usize| #[trigger] final(self).live_candidate_values@.contains_key(i) <==> (
                old(self).live_candidate_values@.contains_key(i) || (start <= i < start + values@.len())),
            forall|i: usize| start <= i < start + values@.len() ==> #[trigger] final(self).live_candidate_values@[i]
                == values@[i - start],
            forall|i: usize| !(start <= i < start + values@.len()) && old(self).live_candidate_values@.contains_key(i)
                ==> #[trigger] final(self).live_candidate_values@[i] == old(self).live_candidate_values@[i],
            *final(self) == (MemoryPanelState { live_candidate_values: final(self).live_candidate_values, ..*old(self) }),
    {
        let mut k: usize = 0;
        while k < values.len()
            invariant
                k <= values@.len(),
                start + values@.len() <= usize::MAX,
                forall|i: usize| #[trigger] self.live_candidate_values@.contains_key(i) <==> (
                    old(self).live_candidate_values@.contains_key(i) || (start <= i < start + k)),
                forall|i: usize| start <= i < start + k ==> #[trigger] self.live_candidate_values@[i] == values@[i - start],
                forall|i: usize| !(start <= i < start + k) && old(self).live_candidate_values@.contains_key(i)
                    ==> #[trigger] self.live_candidate_values@[i] == old(self).live_candidate_values@[i],
                *self == (MemoryPanelState { live_candidate_values: self.live_candidate_values, ..*old(self) }),
            decreases values@.len() - k,
        {
            assert(obeys_key_model::<usize>());
            self.live_candidate_values.insert(start + k, values[k]);
            k = k + 1;
        }
    }
}

/// What reading back the address of a pending write check gave.
pub enum WriteCheckRead {
    /// The check is not due yet and was not read.
    NotDue,
    /// The address could not be read.
    Unreadable,
    /// The value read at the address.
    Observed(ScanValue),
}

/// The checks among the first `n` whose read says they are not due yet, in order.
pub open spec fn checks_kept(checks: Seq<PendingWriteCheck>, reads: Seq<WriteCheckRead>, n: nat) -> Seq<PendingWriteCheck>
    decreases n,
{
    if n == 0 {
        seq![]
    } else {
        let rest = checks_kept(checks, reads, (n - 1) as nat);
        if reads[n - 1] is NotDue {
            rest.push(checks[n - 1])
        } else {
            rest
        }
    }
}

/// Among the first `n` checks, how many due ones read back the expected value (`.0`),
/// another value (`.1`), or nothing (`.2`).
pub open spec fn check_tally(checks: Seq<PendingWriteCheck>, reads: Seq<WriteCheckRead>, n: nat) -> (nat, nat, nat)
    decreases n,
{
    if n == 0 {
        (0, 0, 0)
    } else {
        let t = check_tally(checks, reads, (n - 1) as nat);
        match reads[n - 1] {
            WriteCheckRead::NotDue => t,
            WriteCheckRead::Unreadable => (t.0, t.1, t.2 + 1),
            WriteCheckRead::Observed(v) => if v == checks[n - 1].expected {
                (t.0 + 1, t.1, t.2)
            } else {
                (t.0, t.1 + 1, t.2)
            },
        }
    }
}

/// The status after write checks were settled: a warning when the game overwrote a value,
/// a confirmation once every check is settled and some held, else the status unchanged.
pub open spec fn settle_status(status: Seq<char>, verified: nat, overwritten: nat, unreadable: nat, none_pending: bool) -> Seq<char> {
    if overwritten > 0 {
        "Game overwrote "@ + dec_digits(overwritten)
            + " value(s) shortly after the write; freeze or find the authoritative address"@
    } else if verified > 0 && none_pending {
        if unreadable == 0 {
            "Write persisted at "@ + dec_digits(verified)
                + " address(es); if the game did not react, these are mirrored/render values"@
        } else {
            "Write verified at "@ + dec_digits(verified) + " address(es), "@ + dec_digits(unreadable) + " unreadable"@
        }
    } else {
        status
    }
}

proof fn lemma_tally_bound(checks: Seq<PendingWriteCheck>, reads: Seq<WriteCheckRead>, n: nat)
    ensures
        check_tally(checks, reads, n).0 + check_tally(checks, reads, n).1 + check_tally(checks, reads, n).2 <= n,
    decreases n,
{
    if n > 0 {
        lemma_tally_bound(checks, reads, (n - 1) as nat);
    }
}

/// `prefix` followed by the decimal digits of `n`.
fn with_count(prefix: &str, n: usize) -> (s: String)
    ensures
        s@ == prefix@ + dec_digits(n as nat),
{
    let mut s = String::new();
    push_str(&mut s, prefix);
    push_dec_digits(&mut s, n as u64);
    s
}

impl MemoryPanelState {
    /// Settles the write checks whose time has come: `reads[i]` is what reading the
    /// address of check `i` gave. Checks not due stay pending; the status reports
    /// overwritten values, or the writes that held once nothing is pending. Without a
    /// process nothing changes.
    pub fn settle_write_checks(&mut self, reads: &[WriteCheckRead])
        requires
            reads@.len() == old(self).pending_write_checks@.len(),
        ensures
            old(self).process_pid is None ==> *final(self) == *old(self),
            old(self).process_pid is Some ==> {
                let n = reads@.len();
                let t = check_tally(old(self).pending_write_checks@, reads@, n);
                let kept = checks_kept(old(self).pending_write_checks@, reads@, n);
                &&& final(self).pending_write_checks@ == kept
                &&& final(self).status@ == settle_status(old(self).status@, t.0, t.1, t.2, kept.len() == 0)
                &&& *final(self) == (MemoryPanelState {
                    pending_write_checks: final(self).pending_write_checks,
                    status: final(self).status,
                    ..*old(self)
                })
            },
    {
        if self.process_pid.is_none() {
            return;
        }
        let ghost checks = self.pending_write_checks@;
        let mut pending: Vec<PendingWriteCheck> = Vec::new();
        let mut verified: usize = 0;
        let mut overwritten: usize = 0;
        let mut unreadable: usize = 0;
        let mut i: usize = 0;
        while i < reads.len()
            invariant
                i <= reads@.len(),
                reads@.len() == checks.len(),
                checks == self.pending_write_checks@,
                pending@ == checks_kept(checks, reads@, i as nat),
                (verified as nat, overwritten as nat, unreadable as nat) == check_tally(checks, reads@, i as nat),
            decreases reads@.len() - i,
        {
            proof {
                lemma_tally_bound(checks, reads@, i as nat);
            }
            let check = &self.pending_write_checks[i];
            match &reads[i] {
                WriteCheckRead::NotDue => {
                    pending.push(PendingWriteCheck {
                        address: check.address,
                        value_type: check.value_type,
                        expected: check.expected,
                    });
                },
                WriteCheckRead::Unreadable => {
                    unreadable = unreadable + 1;
                },
                WriteCheckRead::Observed(v) => {
                    if *v == check.expected {
                        verified = verified + 1;
                    } else {
                        overwritten = overwritten + 1;
                    }
                },
            }
            i = i + 1;
        }
        let none_pending = pending.len() == 0;
        self.pending_write_checks = pending;
        if overwritten > 0 {
            let mut s = with_count("Game overwrote ", overwritten);
            push_str(&mut s, " value(s) shortly after the write; freeze or find the authoritative address");
            self.status = s;
        } else if verified > 0 && none_pending {
            if unreadable == 0 {
                let mut s = with_count("Write persisted at ", verified);
                push_str(&mut s, " address(es); if the game did not react, these are mirrored/render values");
                self.status = s;
            } else {
                let mut s = with_count("Write verified at ", verified);
                push_str(&mut s, " address(es), ");
                push_dec_digits(&mut s, unreadable as u64);
                push_str(&mut s, " unreadable");
                self.status = s;
            }
        }
    }
}

/// What was read for a saved row at its address: its value, or its text for a text row.
pub struct SavedRowRead {
    pub value: Option<ScanValue>,
    pub text: Option<String>,
}

/// Row `r` after its pointer resolved to `resolved` (when it has a pointer and that
/// resolved).
pub open spec fn row_resolved(r: SavedMemoryAddress, resolved: Option<usize>) -> SavedMemoryAddress {
    match (r.pointer, resolved) {
        (Some(_), Some(address)) => SavedMemoryAddress { address, ..r },
        _ => r,
    }
}

/// Whether panel `q` is `p` with each saved row that has a pointer moved to the address
/// `resolved` gives it, where it resolved.
pub open spec fn addresses_resolved(p: MemoryPanelState, q: MemoryPanelState, resolved: Seq<Option<usize>>) -> bool {
    &&& q.saved@.len() == p.saved@.len()
    &&& forall|i: int| 0 <= i < p.saved@.len() ==> #[trigger] q.saved@[i] == row_resolved(p.saved@[i], resolved[i])
    &&& q == (MemoryPanelState { saved: q.saved, ..p })
}

/// Whether panel `q` is `p` with what `reads` gave recorded in each saved row: a text
/// row the text and no value, another row the value and no text.
pub open spec fn values_recorded(p: MemoryPanelState, q: MemoryPanelState, reads: Seq<SavedRowRead>) -> bool {
    &&& q.saved@.len() == p.saved@.len()
    &&& forall|i: int| 0 <= i < p.saved@.len() ==> {
        let (r, s) = (p.saved@[i], #[trigger] q.saved@[i]);
        if r.text_encoding is Some {
            &&& s.current is None
            &&& string_opt(s.current_text) == string_opt(reads[i].text)
            &&& s == (SavedMemoryAddress { current: None, current_text: s.current_text, ..r })
        } else {
            &&& s.current_text is None
            &&& s == (SavedMemoryAddress { current: reads[i].value, current_text: None, ..r })
        }
    }
    &&& q == (MemoryPanelState { saved: q.saved, ..p })
}

/// A refresh settles every saved row: once the pointers are resolved and the values read,
/// one result per row each, every row keeps its pointer and type, a row whose pointer
/// resolved sits at that address, a text row holds no value and another row no text.
pub proof fn lemma_refresh_settles_rows(
    before: MemoryPanelState,
    resolved: Seq<Option<usize>>,
    mid: MemoryPanelState,
    reads: Seq<SavedRowRead>,
    after: MemoryPanelState,
)
    requires
        resolved.len() == before.saved@.len(),
        reads.len() == mid.saved@.len(),
        addresses_resolved(before, mid, resolved),
        values_recorded(mid, after, reads),
    ensures
        after.saved@.len() == before.saved@.len(),
        forall|i: int| 0 <= i < before.saved@.len() ==> {
            let (r, s) = (before.saved@[i], #[trigger] after.saved@[i]);
            &&& s.pointer == r.pointer
            &&& s.text_encoding == r.text_encoding
            &&& s.value_type == r.value_type
            &&& (s.text_encoding is Some ==> s.current is None)
            &&& (s.text_encoding is None ==> s.current_text is None)
            &&& (r.pointer is Some && resolved[i] is Some ==> s.address == resolved[i].unwrap())
            &&& (r.pointer is None || resolved[i] is None ==> s.address == r.address)
        },
{
    assert forall|i: int| 0 <= i < before.saved@.len() implies {
        let (r, s) = (before.saved@[i], #[trigger] after.saved@[i]);
        &&& s.pointer == r.pointer
        &&& s.text_encoding == r.text_encoding
        &&& s.value_type == r.value_type
        &&& (s.text_encoding is Some ==> s.current is None)
        &&& (s.text_encoding is None ==> s.current_text is None)
        &&& (r.pointer is Some && resolved[i] is Some ==> s.address == resolved[i].unwrap())
        &&& (r.pointer is None || resolved[i] is None ==> s.address == r.address)
    } by {
        assert(mid.saved@[i] == row_resolved(before.saved@[i], resolved[i]));
        let _ = after.saved@[i];
    }
}

impl MemoryPanelState {
    /// Moves each saved row that has a pointer to the address the pointer now resolves to:
    /// `resolved[i]` is that address for row `i`, or `None` where the pointer did not
    /// resolve. Without a process nothing changes.
    pub fn apply_resolved_saved_addresses(&mut self, resolved: &[Option<usize>])
        requires
            resolved@.len() == old(self).saved@.len(),
        ensures
            old(self).process_pid is None ==> *final(self) == *old(self),
            old(self).process_pid is Some ==> addresses_resolved(*old(self), *final(self), resolved@),
    {
        if self.process_pid.is_none() {
            return;
        }
        let mut i: usize = 0;
        while i < resolved.len()
            invariant
                i <= resolved@.len(),
                resolved@.len() == old(self).saved@.len(),
                self.saved@.len() == old(self).saved@.len(),
                forall|j: int| 0 <= j < i ==> #[trigger] self.saved@[j] == row_resolved(old(self).saved@[j], resolved@[j]),
                forall|j: int| i <= j < self.saved@.len() ==> #[trigger] self.saved@[j] == old(self).saved@[j],
                *self == (MemoryPanelState { saved: self.saved, ..*old(self) }),
            decreases resolved@.len() - i,
        {
            if self.saved[i].pointer.is_some() {
                if let Some(address) = resolved[i] {
                    self.saved[i].address = address;
                }
            }
            i = i + 1;
        }
    }

    /// Records what was read for each saved row: `reads[i]` was read at the address of row
    /// `i`. A text row keeps the text and no value; another row keeps the value and no
    /// text. Without a process nothing changes.
    pub fn refresh_memory_values(&mut self, reads: Vec<SavedRowRead>)
        requires
            reads@.len() == old(self).saved@.len(),
        ensures
            old(self).process_pid is None ==> *final(self) == *old(self),
            old(self).process_pid is Some ==> values_recorded(*old(self), *final(self), reads@),
    {
        if self.process_pid.is_none() {
            return;
        }
        let mut reads = reads;
        let ghost all = reads@;
        let n = self.saved.len();
        let mut i: usize = n;
        while i > 0
            invariant
                i <= n,
                n == old(self).saved@.len(),
                reads@ == all.subrange(0, i as int),
                all.len() == n,
                self.saved@.len() == n,
                forall|j: int| i <= j < n ==> {
                    let (r, s) = (old(self).saved@[j], #[trigger] self.saved@[j]);
                    if r.text_encoding is Some {
                        &&& s.current is None
                        &&& string_opt(s.current_text) == string_opt(all[j].text)
                        &&& s == (SavedMemoryAddress { current: None, current_text: s.current_text, ..r })
                    } else {
                        &&& s.current_text is None
                        &&& s == (SavedMemoryAddress { current: all[j].value, current_text: None, ..r })
                    }
                },
                forall|j: int| 0 <= j < i ==> #[trigger] self.saved@[j] == old(self).saved@[j],
                *self == (MemoryPanelState { saved: self.saved, ..*old(self) }),
            decreases i,
        {
            i = i - 1;
            let read = reads.pop().unwrap();
            assert(all.subrange(0, i as int) == all.subrange(0, i + 1).drop_last());
            if self.saved[i].text_encoding.is_some() {
                self.saved[i].current_text = read.text;
                self.saved[i].current = None;
            } else {
                self.saved[i].current = read.value;
                self.saved[i].current_text = None;
            }
        }
    }
}


/// Settling write checks accounts for every check: each one read back as written, read
/// back as another value, could not be read, or stays pending.
pub proof fn lemma_write_checks_partition(checks: Seq<PendingWriteCheck>, reads: Seq<WriteCheckRead>, n: nat)
    requires
        n <= reads.len(),
    ensures
        check_tally(checks, reads, n).0 + check_tally(checks, reads, n).1 + check_tally(checks, reads, n).2
            + checks_kept(checks, reads, n).len() == n,
    decreases n,
{
    if n > 0 {
        lemma_write_checks_partition(checks, reads, (n - 1) as nat);
    }
}

} // verus!
