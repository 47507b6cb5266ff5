//! The order of the rows of the debugger tables: the addresses an instruction accessed,
//! searched and ordered by hits, and the instructions that accessed an address, ordered
//! by instruction text or by hits.
use vstd::prelude::*;
use vstd::std_specs::hash::obeys_key_model;
use crate::code_access::{CodeAccessDialog, InstructionWatchDialog};
use crate::text::{ascii_lower_seq, chars_of, contains_chars, contains_seq, string_of, trim, trim_bounds};

verus! {

broadcast use vstd::std_specs::hash::group_hash_axioms;

/// Whether row `a` comes before row `b` when rows are ordered by their counts, rising or
/// (`descending`) falling, rows with equal counts keeping their order.
pub open spec fn count_before(counts: Seq<usize>, descending: bool, a: usize, b: usize) -> bool {
    if descending {
        counts[a as int] > counts[b as int] || (counts[a as int] == counts[b as int] && a < b)
    } else {
        counts[a as int] < counts[b as int] || (counts[a as int] == counts[b as int] && a < b)
    }
}

/// Whether the rows `r` are in the order `count_before` gives.
pub open spec fn sorted_by_count(r: Seq<usize>, counts: Seq<usize>, descending: bool) -> bool {
    forall|i: int, j: int| 0 <= i < j < r.len() ==> count_before(counts, descending, #[trigger] r[i], #[trigger] r[j])
}

/// Whether a count `a` goes before a count `b`, rising or (`descending`) falling.
fn count_precedes(a: usize, b: usize, descending: bool) -> (r: bool)
    ensures
        r == if descending { a > b } else { a < b },
{
    if descending {
        a > b
    } else {
        a < b
    }
}

/// Inserts row `x`, later than every row of `out`, where its count puts it.
fn insert_by_count(out: &mut Vec<usize>, x: usize, counts: &Vec<usize>, descending: bool)
    requires
        x < counts@.len(),
        forall|k: int| 0 <= k < old(out)@.len() ==> #[trigger] old(out)@[k] < x,
        sorted_by_count(old(out)@, counts@, descending),
    ensures
        sorted_by_count(final(out)@, counts@, descending),
        final(out)@.to_set() == old(out)@.to_set().insert(x),
        final(out)@.len() == old(out)@.len() + 1,
        forall|k: int| 0 <= k < final(out)@.len() ==> #[trigger] final(out)@[k] <= x,
{
    let cx = counts[x];
    let mut p: usize = 0;
    while p < out.len() && !count_precedes(cx, counts[out[p]], descending)
        invariant
            p <= out@.len(),
            x < counts@.len(),
            forall|k: int| 0 <= k < out@.len() ==> #[trigger] out@[k] < x,
            forall|k: int| 0 <= k < p ==> count_before(counts@, descending, #[trigger] out@[k], x),
            cx == counts@[x as int],
        decreases out@.len() - p,
    {
        assert(out@[p as int] < x);
        assert(count_before(counts@, descending, out@[p as int], x));
        p = p + 1;
    }
    let ghost before = out@;
    proof {
        before.insert_ensures(p as int, x);
    }
    out.insert(p, x);
    assert(out@ == before.insert(p as int, x));
    assert forall|i: int, j: int| 0 <= i < j < out@.len() implies count_before(counts@, descending, #[trigger] out@[i], #[trigger] out@[j]) by {
        if j < p {
            assert(out@[i] == before[i] && out@[j] == before[j]);
        } else if j == p {
            assert(out@[i] == before[i]);
        } else if i < p {
            assert(out@[i] == before[i] && out@[j] == before[j - 1]);
        } else if i == p {
            assert(out@[j] == before[j - 1]);
            assert(count_before(counts@, descending, x, before[p as int]));
            if j - 1 > p {
                assert(count_before(counts@, descending, before[p as int], before[j - 1]));
            }
        } else {
            assert(out@[i] == before[i - 1] && out@[j] == before[j - 1]);
        }
    }
    assert(out@.to_set() =~= before.to_set().insert(x)) by {
        assert forall|y: usize| out@.contains(y) <==> before.contains(y) || y == x by {
            if out@.contains(y) {
                let k = choose|k: int| 0 <= k < out@.len() && out@[k] == y;
                if k < p {
                    assert(before[k] == y);
                } else if k > p {
                    assert(before[k - 1] == y);
                }
            }
            if before.contains(y) {
                let k = choose|k: int| 0 <= k < before.len() && before[k] == y;
                if k < p {
                    assert(out@[k] == y);
                } else {
                    assert(out@[k + 1] == y);
                }
            }
            if y == x {
                assert(out@[p as int] == x);
            }
        }
    }
}

/// The value column of an address: the text read there, or `-`.
pub open spec fn displayed_value(values: Map<usize, String>, address: usize) -> Seq<char> {
    if values.contains_key(address) {
        values[address]@
    } else {
        "-"@
    }
}

/// Whether row `i` of the dialog's addresses is listed: its value text holds the trimmed
/// search text, and, when the range filter applies (`range_active`), its value is in the
/// range (`range_pass`).
pub open spec fn access_row_listed(d: CodeAccessDialog, i: int, range_active: bool, range_pass: Seq<bool>) -> bool {
    let f = trim(d.value_search@);
    &&& f.len() == 0 || contains_seq(displayed_value(d.values@, d.addresses@[i].0), f)
    &&& !range_active || range_pass[i]
}

/// The count of each address row.
pub open spec fn access_counts(d: CodeAccessDialog) -> Seq<usize> {
    d.addresses@.map_values(|a: (usize, usize)| a.1)
}

impl CodeAccessDialog {
    /// The rows the table lists, in the order it shows them: the rows the search and range
    /// filters keep, ordered by hits rising (sort 1) or falling (sort 2), rows with equal
    /// hits in capture order, or in capture order without a sort. `range_active` says
    /// whether the range filter applies and `range_pass` which rows' values lie in it.
    pub fn listed_rows(&self, range_active: bool, range_pass: &Vec<bool>) -> (r: Vec<usize>)
        requires
            range_active ==> range_pass@.len() == self.addresses@.len(),
        ensures
            r@.to_set() == Set::new(|i: usize| i < self.addresses@.len() && access_row_listed(*self, i as int, range_active, range_pass@)),
            forall|k: int| 0 <= k < r@.len() ==> #[trigger] r@[k] < self.addresses@.len(),
            if self.hits_sort == 1 || self.hits_sort == 2 {
                sorted_by_count(r@, access_counts(*self), self.hits_sort == 2)
            } else {
                forall|i: int, j: int| 0 <= i < j < r@.len() ==> #[trigger] r@[i] < #[trigger] r@[j]
            },
    {
        assert(obeys_key_model::<usize>());
        let v = chars_of(self.value_search.as_str());
        assert(v@.subrange(0, v@.len() as int) == v@);
        let (lo, hi) = trim_bounds(&v, 0, v.len());
        let f = string_of(&v, lo, hi);
        let fc = chars_of(f.as_str());
        let n = self.addresses.len();
        let mut counts: Vec<usize> = Vec::new();
        let mut i: usize = 0;
        while i < n
            invariant
                i <= n,
                n == self.addresses@.len(),
                counts@ == access_counts(*self).subrange(0, i as int),
            decreases n - i,
        {
            counts.push(self.addresses[i].1);
            assert(counts@ =~= access_counts(*self).subrange(0, i + 1));
            i = i + 1;
        }
        assert(counts@ =~= access_counts(*self));
        let sort = self.hits_sort == 1 || self.hits_sort == 2;
        let descending = self.hits_sort == 2;
        let mut r: Vec<usize> = Vec::new();
        let mut i: usize = 0;
        while i < n
            invariant
                i <= n,
                n == self.addresses@.len(),
                counts@ == access_counts(*self),
                fc@ == trim(self.value_search@),
                range_active ==> range_pass@.len() == n,
                r@.to_set() == Set::new(|k: usize| k < i && access_row_listed(*self, k as int, range_active, range_pass@)),
                forall|k: int| 0 <= k < r@.len() ==> #[trigger] r@[k] < i,
                sort ==> sorted_by_count(r@, counts@, descending),
                !sort ==> forall|a: int, b: int| 0 <= a < b < r@.len() ==> #[trigger] r@[a] < #[trigger] r@[b],
            decreases n - i,
        {
            let address = self.addresses[i].0;
            let shown = match self.values.get(&address) {
                Some(t) => fc.len() == 0 || contains_chars(&chars_of(t.as_str()), &fc),
                None => {
                    proof {
                        reveal_strlit("-");
                    }
                    let dash = chars_of("-");
                    fc.len() == 0 || contains_chars(&dash, &fc)
                },
            };
            let listed = shown && (!range_active || range_pass[i]);
            let ghost prev = r@;
            if listed {
                if sort {
                    insert_by_count(&mut r, i, &counts, descending);
                } else {
                    r.push(i);
                    proof {
                        prev.lemma_push_to_set_commute(i);
                    }
                }
            }
            assert(r@.to_set() =~= Set::new(|k: usize| k < i + 1 && access_row_listed(*self, k as int, range_active, range_pass@)));
            i = i + 1;
        }
        r
    }
}

/// An instruction a debugger caught accessing the watched address: where it is, its text,
/// how often it hit, and the details the debugger gave.
pub struct InstructionHit {
    pub address: usize,
    pub instruction: String,
    pub count: usize,
    pub details: String,
}

/// Whether text `a` comes before text `b`, character by character, a prefix first.
pub open spec fn text_less(a: Seq<char>, b: Seq<char>) -> bool
    decreases a.len(),
{
    if a.len() == 0 {
        b.len() > 0
    } else if b.len() == 0 {
        false
    } else if a[0] != b[0] {
        a[0] < b[0]
    } else {
        text_less(a.drop_first(), b.drop_first())
    }
}

/// Text order is transitive.
pub proof fn lemma_text_less_transitive(a: Seq<char>, b: Seq<char>, c: Seq<char>)
    requires
        text_less(a, b),
        text_less(b, c),
    ensures
        text_less(a, c),
    decreases a.len(),
{
    if a.len() > 0 && b.len() > 0 && c.len() > 0 && a[0] == b[0] && b[0] == c[0] {
        lemma_text_less_transitive(a.drop_first(), b.drop_first(), c.drop_first());
    }
}

/// Of two texts, one comes first, or they are equal.
pub proof fn lemma_text_less_total(a: Seq<char>, b: Seq<char>)
    ensures
        text_less(a, b) || text_less(b, a) || a == b,
        !(text_less(a, b) && text_less(b, a)),
    decreases a.len(),
{
    if a.len() > 0 && b.len() > 0 && a[0] == b[0] {
        lemma_text_less_total(a.drop_first(), b.drop_first());
        if a.drop_first() == b.drop_first() {
            assert(a =~= seq![a[0]] + a.drop_first());
            assert(b =~= seq![b[0]] + b.drop_first());
        }
    } else if a.len() == 0 && b.len() == 0 {
        assert(a =~= b);
    }
}

/// The sort key of a hit: its instruction lowered, then its address.
pub open spec fn hit_key_less(keys: Seq<Seq<char>>, addresses: Seq<usize>, a: usize, b: usize) -> bool {
    text_less(keys[a as int], keys[b as int]) || (keys[a as int] == keys[b as int] && addresses[a as int] < addresses[b as int])
}

/// Whether hit `a` comes before hit `b` when hits are ordered by their lowered
/// instruction and address, rising or (`descending`) falling, equal keys keeping their
/// order.
pub open spec fn text_before(keys: Seq<Seq<char>>, addresses: Seq<usize>, descending: bool, a: usize, b: usize) -> bool {
    let same = keys[a as int] == keys[b as int] && addresses[a as int] == addresses[b as int];
    if descending {
        hit_key_less(keys, addresses, b, a) || (same && a < b)
    } else {
        hit_key_less(keys, addresses, a, b) || (same && a < b)
    }
}

/// Whether the rows `r` are in the order `text_before` gives.
pub open spec fn sorted_by_text(r: Seq<usize>, keys: Seq<Seq<char>>, addresses: Seq<usize>, descending: bool) -> bool {
    forall|i: int, j: int| 0 <= i < j < r.len() ==> text_before(keys, addresses, descending, #[trigger] r[i], #[trigger] r[j])
}

/// Hit order is transitive.
proof fn lemma_text_before_transitive(keys: Seq<Seq<char>>, addresses: Seq<usize>, descending: bool, a: usize, b: usize, c: usize)
    requires
        text_before(keys, addresses, descending, a, b),
        text_before(keys, addresses, descending, b, c),
    ensures
        text_before(keys, addresses, descending, a, c),
{
    let (ka, kb, kc) = (keys[a as int], keys[b as int], keys[c as int]);
    if text_less(ka, kb) && text_less(kb, kc) {
        lemma_text_less_transitive(ka, kb, kc);
    }
    if text_less(kc, kb) && text_less(kb, ka) {
        lemma_text_less_transitive(kc, kb, ka);
    }
}

/// Whether text `a` comes before text `b`.
pub fn chars_less(a: &Vec<char>, b: &Vec<char>) -> (r: bool)
    ensures
        r == text_less(a@, b@),
{
    let mut i: usize = 0;
    assert(a@.subrange(0, a@.len() as int) == a@ && b@.subrange(0, b@.len() as int) == b@);
    while i < a.len() && i < b.len() && a[i] == b[i]
        invariant
            i <= a@.len(),
            i <= b@.len(),
            text_less(a@, b@) == text_less(a@.subrange(i as int, a@.len() as int), b@.subrange(i as int, b@.len() as int)),
        decreases a@.len() - i,
    {
        assert(a@.subrange(i as int, a@.len() as int).drop_first() == a@.subrange(i + 1, a@.len() as int));
        assert(b@.subrange(i as int, b@.len() as int).drop_first() == b@.subrange(i + 1, b@.len() as int));
        i = i + 1;
    }
    if i == a.len() {
        i < b.len()
    } else if i == b.len() {
        false
    } else {
        a[i] < b[i]
    }
}

/// Whether two texts are equal.
pub fn chars_equal(a: &Vec<char>, b: &Vec<char>) -> (r: bool)
    ensures
        r == (a@ == b@),
{
    if a.len() != b.len() {
        return false;
    }
    let mut i: usize = 0;
    while i < a.len()
        invariant
            a@.len() == b@.len(),
            i <= a@.len(),
            forall|k: int| 0 <= k < i ==> a@[k] == b@[k],
        decreases a@.len() - i,
    {
        if a[i] != b[i] {
            return false;
        }
        i = i + 1;
    }
    assert(a@ =~= b@);
    true
}

/// The texts held by `keys`.
pub open spec fn key_views(keys: Seq<Vec<char>>) -> Seq<Seq<char>> {
    keys.map_values(|k: Vec<char>| k@)
}

/// Whether hit `x` goes before hit `e`, an earlier hit, under the text order.
fn hit_precedes(keys: &Vec<Vec<char>>, addresses: &Vec<usize>, descending: bool, x: usize, e: usize) -> (r: bool)
    requires
        x < keys@.len(),
        e < keys@.len(),
        keys@.len() == addresses@.len(),
    ensures
        r == if descending {
            hit_key_less(key_views(keys@), addresses@, e, x)
        } else {
            hit_key_less(key_views(keys@), addresses@, x, e)
        },
{
    let ghost kv = key_views(keys@);
    assert(kv[x as int] == keys@[x as int]@ && kv[e as int] == keys@[e as int]@);
    let (first, second) = if descending { (e, x) } else { (x, e) };
    chars_less(&keys[first], &keys[second]) || (chars_equal(&keys[first], &keys[second]) && addresses[first] < addresses[second])
}

/// Inserts hit `x`, later than every hit of `out`, where its text puts it.
fn insert_by_text(out: &mut Vec<usize>, x: usize, keys: &Vec<Vec<char>>, addresses: &Vec<usize>, descending: bool)
    requires
        x < keys@.len(),
        keys@.len() == addresses@.len(),
        forall|k: int| 0 <= k < old(out)@.len() ==> #[trigger] old(out)@[k] < x,
        sorted_by_text(old(out)@, key_views(keys@), addresses@, descending),
    ensures
        sorted_by_text(final(out)@, key_views(keys@), addresses@, descending),
        final(out)@.to_set() == old(out)@.to_set().insert(x),
        final(out)@.len() == old(out)@.len() + 1,
        forall|k: int| 0 <= k < final(out)@.len() ==> #[trigger] final(out)@[k] <= x,
{
    let ghost kv = key_views(keys@);
    let mut p: usize = 0;
    while p < out.len() && !hit_precedes(keys, addresses, descending, x, out[p])
        invariant
            p <= out@.len(),
            x < keys@.len(),
            keys@.len() == addresses@.len(),
            kv == key_views(keys@),
            forall|k: int| 0 <= k < out@.len() ==> #[trigger] out@[k] < x,
            forall|k: int| 0 <= k < p ==> text_before(kv, addresses@, descending, #[trigger] out@[k], x),
        decreases out@.len() - p,
    {
        let e = out[p];
        proof {
            lemma_text_less_total(kv[e as int], kv[x as int]);
        }
        assert(text_before(kv, addresses@, descending, e, x));
        p = p + 1;
    }
    let ghost before = out@;
    proof {
        before.insert_ensures(p as int, x);
    }
    out.insert(p, x);
    assert(out@ == before.insert(p as int, x));
    assert forall|i: int, j: int| 0 <= i < j < out@.len() implies text_before(kv, addresses@, descending, #[trigger] out@[i], #[trigger] out@[j]) by {
        if j < p {
            assert(out@[i] == before[i] && out@[j] == before[j]);
        } else if j == p {
            assert(out@[i] == before[i]);
        } else if i < p {
            assert(out@[i] == before[i] && out@[j] == before[j - 1]);
        } else if i == p {
            assert(out@[j] == before[j - 1]);
            assert(text_before(kv, addresses@, descending, x, before[p as int]));
            if j - 1 > p {
                assert(text_before(kv, addresses@, descending, before[p as int], before[j - 1]));
                lemma_text_before_transitive(kv, addresses@, descending, x, before[p as int], before[j - 1]);
            }
        } else {
            assert(out@[i] == before[i - 1] && out@[j] == before[j - 1]);
        }
    }
    assert(out@.to_set() =~= before.to_set().insert(x)) by {
        assert forall|y: usize| out@.contains(y) <==> before.contains(y) || y == x by {
            if out@.contains(y) {
                let k = choose|k: int| 0 <= k < out@.len() && out@[k] == y;
                if k < p {
                    assert(before[k] == y);
                } else if k > p {
                    assert(before[k - 1] == y);
                }
            }
            if before.contains(y) {
                let k = choose|k: int| 0 <= k < before.len() && before[k] == y;
                if k < p {
                    assert(out@[k] == y);
                } else {
                    assert(out@[k + 1] == y);
                }
            }
            if y == x {
                assert(out@[p as int] == x);
            }
        }
    }
}

/// The lowered instruction of each hit.
pub open spec fn hit_keys(hits: Seq<InstructionHit>) -> Seq<Seq<char>> {
    hits.map_values(|h: InstructionHit| ascii_lower_seq(h.instruction@))
}

/// The address of each hit.
pub open spec fn hit_addresses(hits: Seq<InstructionHit>) -> Seq<usize> {
    hits.map_values(|h: InstructionHit| h.address)
}

/// The count of each hit.
pub open spec fn hit_counts(hits: Seq<InstructionHit>) -> Seq<usize> {
    hits.map_values(|h: InstructionHit| h.count)
}

/// The order the table of caught instructions shows the hits in: by lowered instruction
/// and address rising (`instruction_sort` 1) or falling (2); else by hits rising
/// (`hits_sort` 1) or falling (2); else in capture order. Equal keys keep capture order.
pub fn instruction_hit_order(hits: &Vec<InstructionHit>, instruction_sort: u8, hits_sort: u8) -> (r: Vec<usize>)
    ensures
        r@.len() == hits@.len(),
        r@.to_set() == Set::new(|i: usize| i < hits@.len()),
        if instruction_sort == 1 || instruction_sort == 2 {
            sorted_by_text(r@, hit_keys(hits@), hit_addresses(hits@), instruction_sort == 2)
        } else if hits_sort == 1 || hits_sort == 2 {
            sorted_by_count(r@, hit_counts(hits@), hits_sort == 2)
        } else {
            forall|i: int| 0 <= i < r@.len() ==> #[trigger] r@[i] == i
        },
{
    let n = hits.len();
    let mut keys: Vec<Vec<char>> = Vec::new();
    let mut addresses: Vec<usize> = Vec::new();
    let mut counts: Vec<usize> = Vec::new();
    let mut i: usize = 0;
    while i < n
        invariant
            i <= n,
            n == hits@.len(),
            keys@.len() == i,
            key_views(keys@) == hit_keys(hits@).subrange(0, i as int),
            addresses@ == hit_addresses(hits@).subrange(0, i as int),
            counts@ == hit_counts(hits@).subrange(0, i as int),
        decreases n - i,
    {
        let ghost pk = keys@;
        let lowered = crate::entity::lower_chars(hits[i].instruction.as_str());
        let ghost lv = lowered@;
        keys.push(lowered);
        addresses.push(hits[i].address);
        counts.push(hits[i].count);
        assert(key_views(keys@) =~= hit_keys(hits@).subrange(0, i + 1)) by {
            assert(keys@[i as int]@ == lv);
            assert forall|k: int| 0 <= k < i + 1 implies #[trigger] key_views(keys@)[k] == hit_keys(hits@).subrange(0, i + 1)[k] by {
                if k < i {
                    assert(keys@[k] == pk[k]);
                    assert(key_views(pk)[k] == hit_keys(hits@).subrange(0, i as int)[k]);
                }
            }
        }
        assert(addresses@ =~= hit_addresses(hits@).subrange(0, i + 1));
        assert(counts@ =~= hit_counts(hits@).subrange(0, i + 1));
        i = i + 1;
    }
    assert(key_views(keys@) =~= hit_keys(hits@));
    assert(addresses@ =~= hit_addresses(hits@));
    assert(counts@ =~= hit_counts(hits@));
    let by_text = instruction_sort == 1 || instruction_sort == 2;
    let by_count = hits_sort == 1 || hits_sort == 2;
    let mut r: Vec<usize> = Vec::new();
    let mut i: usize = 0;
    while i < n
        invariant
            i <= n,
            n == hits@.len(),
            n == keys@.len(),
            n == addresses@.len(),
            n == counts@.len(),
            key_views(keys@) == hit_keys(hits@),
            addresses@ == hit_addresses(hits@),
            counts@ == hit_counts(hits@),
            r@.len() == i,
            r@.to_set() == Set::new(|k: usize| k < i),
            forall|k: int| 0 <= k < r@.len() ==> #[trigger] r@[k] < i,
            by_text ==> sorted_by_text(r@, hit_keys(hits@), hit_addresses(hits@), instruction_sort == 2),
            !by_text && by_count ==> sorted_by_count(r@, hit_counts(hits@), hits_sort == 2),
            !by_text && !by_count ==> forall|k: int| 0 <= k < r@.len() ==> #[trigger] r@[k] == k,
        decreases n - i,
    {
        let ghost prev = r@;
        if by_text {
            insert_by_text(&mut r, i, &keys, &addresses, instruction_sort == 2);
        } else if by_count {
            insert_by_count(&mut r, i, &counts, hits_sort == 2);
        } else {
            r.push(i);
            proof {
                prev.lemma_push_to_set_commute(i);
            }
        }
        assert(r@.to_set() =~= Set::new(|k: usize| k < i + 1));
        i = i + 1;
    }
    r
}

/// The status after the caught instructions are cleared, while the debugger runs
/// (`active`) or not.
pub open spec fn cleared_status(active: bool) -> Seq<char> {
    if active {
        "Capture cleared; perform only the target action now"@
    } else {
        "Captured instructions cleared"@
    }
}

impl InstructionWatchDialog {
    /// Clears the caught instructions, while the debugger runs (`active`) or not: none is
    /// left or selected, and the status says so.
    pub fn clear_captured(&mut self, active: bool)
        ensures
            final(self).hits@.len() == 0,
            final(self).status@ == cleared_status(active),
            *final(self) == (InstructionWatchDialog {
                hits: final(self).hits,
                selected: None,
                status: final(self).status,
                ..*old(self)
            }),
    {
        self.hits = Vec::new();
        self.selected = None;
        self.status = if active {
            crate::text::owned("Capture cleared; perform only the target action now")
        } else {
            crate::text::owned("Captured instructions cleared")
        };
    }
}

} // verus!
