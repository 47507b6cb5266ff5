//! Memory address text: hexadecimal offsets, address arithmetic such as `0x1000+10-8`,
//! and the fixed-width address rendering used throughout the panel.
use vstd::prelude::*;
use crate::text::{
    is_ws,
    chars_of, has_hex_prefix, is_ascii_alpha, is_ascii_alpha_exec, push_char, push_chars,
    push_str, skip_hex_prefix, string_of, strip_hex_prefix, trim, trim_bounds,
};
use crate::number::{
    all_digits, digits_value, hex_char, lemma_hex_digits_value, lemma_hex_padded_value,
    format_hex, hex_digits, hex_padded, isize_radix, parse_isize_radix, parse_usize_radix,
    push_hex_digits, usize_radix,
};

verus! {

/// What `parse_hex_offset` gives for `t`: the trimmed text, without a `0x`/`0X` prefix,
/// read as a hexadecimal `usize`.
#[verifier::opaque]
pub open spec fn hex_offset_spec(t: Seq<char>) -> Option<int> {
    usize_radix(strip_hex_prefix(trim(t)), 16)
}

/// Whether `c` separates terms of an address expression.
pub open spec fn is_op(c: char) -> bool {
    c == '+' || c == '-'
}

/// The first index at or after `from` that holds `+` or `-`, or the length when none does.
pub open spec fn first_op(c: Seq<char>, from: int) -> int
    decreases c.len() - from,
{
    if from >= c.len() {
        c.len() as int
    } else if is_op(c[from]) {
        from
    } else {
        first_op(c, from + 1)
    }
}

/// The address text with surrounding whitespace trimmed and every space and `_` removed.
#[verifier::opaque]
pub open spec fn compact_spec(t: Seq<char>) -> Seq<char> {
    trim(t).filter(|c: char| c != ' ' && c != '_')
}

/// The radix that `parse_memory_address_term` reads `t` in when it has no `0x` prefix:
/// hexadecimal for eight or more characters or any ASCII letter, decimal otherwise.
pub open spec fn term_radix(t: Seq<char>) -> nat {
    if t.len() >= 8 || exists|i: int| 0 <= i < t.len() && is_ascii_alpha(#[trigger] t[i]) {
        16
    } else {
        10
    }
}

/// What `parse_memory_address_term` gives for `t`.
#[verifier::opaque]
pub open spec fn term_spec(t: Seq<char>) -> Option<int> {
    let first = if t.len() >= 2 && t[0] == '0' && (t[1] == 'x' || t[1] == 'X') {
        usize_radix(strip_hex_prefix(t), 16)
    } else {
        usize_radix(t, term_radix(t))
    };
    match first {
        Some(v) => Some(v),
        None => usize_radix(t, 16),
    }
}

/// Applies the `+offset` / `-offset` terms of `c` from index `p` on to `acc`.
pub open spec fn eval_tail(acc: int, c: Seq<char>, p: int) -> Option<int>
    decreases c.len() - p,
{
    if p < 0 || p >= c.len() {
        Some(acc)
    } else {
        let q = first_op(c, p + 1);
        match hex_offset_spec(c.subrange(p + 1, q)) {
            None => None,
            Some(off) => {
                let n = if c[p] == '+' {
                    acc + off
                } else {
                    acc - off
                };
                if 0 <= n && n <= usize::MAX && p < q <= c.len() {
                    eval_tail(n, c, q)
                } else {
                    None
                }
            },
        }
    }
}

/// What `parse_memory_address` gives for `t`: a first term, then hexadecimal offsets
/// added or subtracted in order, each step staying within `usize`.
pub open spec fn address_spec(t: Seq<char>) -> Option<int> {
    let c = compact_spec(t);
    let p = first_op(c, 1);
    if p >= c.len() {
        term_spec(c)
    } else {
        match term_spec(c.subrange(0, p)) {
            Some(a) => eval_tail(a, c, p),
            None => None,
        }
    }
}

pub proof fn lemma_first_op(c: Seq<char>, from: int)
    requires
        0 <= from,
    ensures
        from <= c.len() ==> from <= first_op(c, from) <= c.len(),
        from > c.len() ==> first_op(c, from) == c.len(),
        first_op(c, from) < c.len() ==> is_op(c[first_op(c, from)]),
        forall|k: int| from <= k < first_op(c, from) ==> !is_op(#[trigger] c[k]),
    decreases c.len() - from,
{
    if from < c.len() && !is_op(c[from]) {
        lemma_first_op(c, from + 1);
    }
}

/// The index of the first `+` or `-` in `c[from..hi]`, or `hi`.
fn find_op(c: &Vec<char>, from: usize, hi: usize) -> (r: usize)
    requires
        from <= hi,
        hi == c@.len(),
    ensures
        r == first_op(c@, from as int),
        from <= r <= hi,
{
    let mut i = from;
    while i < hi && !(c[i] == '+' || c[i] == '-')
        invariant
            from <= i <= hi,
            hi == c@.len(),
            first_op(c@, from as int) == first_op(c@, i as int),
        decreases hi - i,
    {
        i = i + 1;
    }
    proof {
        lemma_first_op(c@, from as int);
    }
    i
}

/// `usize::from_str_radix(text, 16)` after trimming and dropping a `0x`/`0X` prefix.
pub fn parse_hex_offset_range(v: &Vec<char>, lo: usize, hi: usize) -> (r: Option<usize>)
    requires
        lo <= hi <= v@.len(),
    ensures
        match r {
            Some(x) => hex_offset_spec(v@.subrange(lo as int, hi as int)) == Some(x as int),
            None => hex_offset_spec(v@.subrange(lo as int, hi as int)) is None,
        },
{
    reveal(hex_offset_spec);
    let (a, b) = trim_bounds(v, lo, hi);
    let d = skip_hex_prefix(v, a, b);
    parse_usize_radix(v, d, b, 16)
}

/// Reads a hexadecimal offset such as `48` or `0x48`, with surrounding whitespace allowed.
pub fn parse_hex_offset(text: &str) -> (r: Option<usize>)
    ensures
        match r {
            Some(x) => hex_offset_spec(text@) == Some(x as int),
            None => hex_offset_spec(text@) is None,
        },
{
    let v = chars_of(text);
    assert(v@.subrange(0, v@.len() as int) == v@);
    parse_hex_offset_range(&v, 0, v.len())
}

/// The magnitude text of a signed offset: trimmed, without a leading `-`, and without `0x`.
pub open spec fn signed_hex_digits(t: Seq<char>) -> Seq<char> {
    let tt = trim(t);
    if tt.len() > 0 && tt[0] == '-' {
        strip_hex_prefix(tt.drop_first())
    } else {
        strip_hex_prefix(tt)
    }
}

/// Whether `t` starts (after trimming) with `-`.
pub open spec fn signed_hex_negative(t: Seq<char>) -> bool {
    let tt = trim(t);
    tt.len() > 0 && tt[0] == '-'
}

/// What `parse_signed_hex_offset` gives for `t`.
pub open spec fn signed_hex_offset_spec(t: Seq<char>) -> Option<int> {
    match isize_radix(signed_hex_digits(t), 16) {
        Some(v) => Some(
            if signed_hex_negative(t) {
                -v
            } else {
                v
            },
        ),
        None => None,
    }
}

/// Reads a signed hexadecimal offset such as `C` or `-0x10`.
/// Text such as `--8000000000000000`, whose negation leaves `isize`, is outside its domain.
pub fn parse_signed_hex_offset(text: &str) -> (r: Option<isize>)
    requires
        match signed_hex_offset_spec(text@) {
            Some(v) => isize::MIN <= v <= isize::MAX,
            None => true,
        },
    ensures
        match r {
            Some(x) => signed_hex_offset_spec(text@) == Some(x as int),
            None => signed_hex_offset_spec(text@) is None,
        },
{
    let v = chars_of(text);
    assert(v@.subrange(0, v@.len() as int) == v@);
    let (a, b) = trim_bounds(&v, 0, v.len());
    let negative = a < b && v[a] == '-';
    let start = if negative {
        a + 1
    } else {
        a
    };
    if negative {
        assert(v@.subrange(a as int, b as int).drop_first() == v@.subrange(start as int, b as int));
    }
    let d = skip_hex_prefix(&v, start, b);
    match parse_isize_radix(&v, d, b, 16) {
        Some(x) => if negative {
            Some(-x)
        } else {
            Some(x)
        },
        None => None,
    }
}

/// Whether some character of `v[lo..hi]` is an ASCII letter.
fn any_alpha(v: &Vec<char>, lo: usize, hi: usize) -> (b: bool)
    requires
        lo <= hi <= v@.len(),
    ensures
        b == exists|i: int| 0 <= i < hi - lo && is_ascii_alpha(#[trigger] v@.subrange(lo as int, hi as int)[i]),
{
    let mut i = lo;
    while i < hi
        invariant
            lo <= i <= hi <= v@.len(),
            forall|k: int| 0 <= k < i - lo ==> !is_ascii_alpha(#[trigger] v@.subrange(lo as int, hi as int)[k]),
        decreases hi - i,
    {
        if is_ascii_alpha_exec(v[i]) {
            assert(is_ascii_alpha(v@.subrange(lo as int, hi as int)[i - lo]));
            return true;
        }
        i = i + 1;
    }
    false
}

/// `parse_memory_address_term` on `v[lo..hi]`.
pub fn parse_term_range(v: &Vec<char>, lo: usize, hi: usize) -> (r: Option<usize>)
    requires
        lo <= hi <= v@.len(),
    ensures
        match r {
            Some(x) => term_spec(v@.subrange(lo as int, hi as int)) == Some(x as int),
            None => term_spec(v@.subrange(lo as int, hi as int)) is None,
        },
{
    reveal(term_spec);
    let ghost t = v@.subrange(lo as int, hi as int);
    let first = if has_hex_prefix(v, lo, hi) {
        assert(t[0] == v@[lo as int] && t[1] == v@[lo + 1]);
        let d = skip_hex_prefix(v, lo, hi);
        parse_usize_radix(v, d, hi, 16)
    } else {
        if hi - lo >= 2 {
            assert(t[0] == v@[lo as int] && t[1] == v@[lo + 1]);
        }
        let radix: u32 = if hi - lo >= 8 || any_alpha(v, lo, hi) {
            16
        } else {
            10
        };
        parse_usize_radix(v, lo, hi, radix)
    };
    match first {
        Some(x) => Some(x),
        None => parse_usize_radix(v, lo, hi, 16),
    }
}

/// Reads one address term: `0x`-prefixed hexadecimal, or hexadecimal when the text has
/// eight or more characters or a letter, decimal otherwise, with a hexadecimal retry.
pub fn parse_memory_address_term(text: &str) -> (r: Option<usize>)
    ensures
        match r {
            Some(x) => term_spec(text@) == Some(x as int),
            None => term_spec(text@) is None,
        },
{
    let v = chars_of(text);
    assert(v@.subrange(0, v@.len() as int) == v@);
    parse_term_range(&v, 0, v.len())
}

/// The characters of `v[lo..hi]` without spaces and underscores.
fn compact_chars(v: &Vec<char>, lo: usize, hi: usize) -> (out: Vec<char>)
    requires
        lo <= hi <= v@.len(),
    ensures
        out@ == v@.subrange(lo as int, hi as int).filter(|c: char| c != ' ' && c != '_'),
{
    let ghost f = |c: char| c != ' ' && c != '_';
    let mut out: Vec<char> = Vec::new();
    let mut i = lo;
    while i < hi
        invariant
            lo <= i <= hi <= v@.len(),
            f == (|c: char| c != ' ' && c != '_'),
            out@ == v@.subrange(lo as int, i as int).filter(f),
        decreases hi - i,
    {
        let c = v[i];
        proof {
            let s = v@.subrange(lo as int, i + 1);
            assert(s.drop_last() == v@.subrange(lo as int, i as int));
            assert(s.last() == c);
            reveal_with_fuel(Seq::filter, 1);
        }
        if c != ' ' && c != '_' {
            out.push(c);
        }
        i = i + 1;
    }
    out
}

/// Reads an address such as `4096`, `0x1000`, `7FF6_ABCD` or `0x1000+10-8`: a first term,
/// then hexadecimal offsets added or subtracted in order.
pub fn parse_memory_address(text: &str) -> (r: Option<usize>)
    ensures
        match r {
            Some(x) => address_spec(text@) == Some(x as int),
            None => address_spec(text@) is None,
        },
{
    let v = chars_of(text);
    assert(v@.subrange(0, v@.len() as int) == v@);
    let (a, b) = trim_bounds(&v, 0, v.len());
    let c = compact_chars(&v, a, b);
    let ghost cs = c@;
    assert(cs == compact_spec(text@)) by {
        reveal(compact_spec);
    }
    let n = c.len();
    let p0 = if n == 0 {
        0
    } else {
        find_op(&c, 1, n)
    };
    assert(p0 == first_op(cs, 1));
    if p0 >= n {
        assert(c@.subrange(0, n as int) == c@);
        return parse_term_range(&c, 0, n);
    }
    let mut address = match parse_term_range(&c, 0, p0) {
        Some(x) => x,
        None => return None,
    };
    let mut position = p0;
    proof {
        lemma_first_op(cs, 1);
    }
    while position < n
        invariant
            n == c@.len(),
            cs == c@,
            1 <= position <= n,
            position < n ==> is_op(c@[position as int]),
            address_spec(text@) == eval_tail(address as int, cs, position as int),
        decreases n - position,
    {
        let operation = c[position];
        let start = position + 1;
        let next = find_op(&c, start, n);
        proof {
            lemma_first_op(cs, start as int);
        }
        let offset = match parse_hex_offset_range(&c, start, next) {
            Some(o) => o,
            None => return None,
        };
        let r = if operation == '+' {
            address.checked_add(offset)
        } else {
            address.checked_sub(offset)
        };
        match r {
            Some(x) => {
                address = x;
            },
            None => return None,
        }
        position = next;
    }
    Some(address)
}

/// What `parse_address_edit` gives for `current` and `t`: text starting with `+` or `-`
/// is an offset from `current`; anything else is a new address.
pub open spec fn address_edit_spec(current: int, t: Seq<char>) -> Option<int> {
    let tt = trim(t);
    if tt.len() > 0 && is_op(tt[0]) {
        address_spec(seq!['0', 'x'] + hex_digits(current as nat) + tt)
    } else {
        address_spec(tt)
    }
}

/// Reads an edited address: `+18` or `-1040` move from `current`, other text is absolute.
pub fn parse_address_edit(current: usize, text: &str) -> (r: Option<usize>)
    ensures
        match r {
            Some(x) => address_edit_spec(current as int, text@) == Some(x as int),
            None => address_edit_spec(current as int, text@) is None,
        },
{
    let v = chars_of(text);
    assert(v@.subrange(0, v@.len() as int) == v@);
    let (a, b) = trim_bounds(&v, 0, v.len());
    let t = string_of(&v, a, b);
    if a < b && (v[a] == '+' || v[a] == '-') {
        assert(t@[0] == v@[a as int]);
        let mut s = String::new();
        push_char(&mut s, '0');
        push_char(&mut s, 'x');
        push_hex_digits(&mut s, current as u64);
        push_chars(&mut s, &v, a, b);
        assert(s@ =~= seq!['0', 'x'] + hex_digits(current as nat) + t@);
        parse_memory_address(s.as_str())
    } else {
        parse_memory_address(t.as_str())
    }
}

/// An address as eight or more uppercase hexadecimal digits, as `{:08X}` writes it.
pub fn format_memory_address(address: usize) -> (s: String)
    ensures
        s@ == hex_padded(address as nat, 8),
{
    format_hex(address as u64, 8)
}

/// An address as `0x` followed by `format_memory_address`.
pub fn format_prefixed_memory_address(address: usize) -> (s: String)
    ensures
        s@ == seq!['0', 'x'] + hex_padded(address as nat, 8),
{
    let body = format_memory_address(address);
    let mut s = String::new();
    push_char(&mut s, '0');
    push_char(&mut s, 'x');
    push_str(&mut s, body.as_str());
    assert(s@ =~= seq!['0', 'x'] + hex_padded(address as nat, 8));
    s
}

/// Trimming leaves text alone when neither end is whitespace.
pub proof fn lemma_trim_noop(s: Seq<char>)
    requires
        s.len() > 0 ==> !is_ws(s[0]) && !is_ws(s.last()),
    ensures
        trim(s) == s,
{
}

/// Dropping spaces and underscores leaves text without them alone.
pub proof fn lemma_compact_filter_noop(s: Seq<char>)
    requires
        forall|i: int| 0 <= i < s.len() ==> #[trigger] s[i] != ' ' && s[i] != '_',
    ensures
        s.filter(|c: char| c != ' ' && c != '_') == s,
    decreases s.len(),
{
    reveal_with_fuel(Seq::filter, 1);
    if s.len() > 0 {
        let d = s.drop_last();
        assert forall|i: int| 0 <= i < d.len() implies #[trigger] d[i] != ' ' && d[i] != '_' by {
            assert(d[i] == s[i]);
        }
        lemma_compact_filter_noop(d);
        assert(s.last() == s[s.len() - 1]);
        assert(d.push(s.last()) == s);
    }
}

/// Hexadecimal digit characters are neither whitespace, separators, nor operators.
pub open spec fn plain_hex_char(c: char) -> bool {
    ('0' <= c && c <= '9') || ('A' <= c && c <= 'F')
}

pub proof fn lemma_hex_digits_plain(n: nat)
    ensures
        forall|i: int| 0 <= i < hex_digits(n).len() ==> plain_hex_char(#[trigger] hex_digits(n)[i]),
    decreases n,
{
    if n >= 16 {
        lemma_hex_digits_plain(n / 16);
        let p = hex_digits(n / 16);
        assert forall|i: int| 0 <= i < p.push(hex_char((n % 16) as nat)).len() implies plain_hex_char(
            #[trigger] p.push(hex_char((n % 16) as nat))[i],
        ) by {
            if i < p.len() {
                assert(p.push(hex_char((n % 16) as nat))[i] == p[i]);
            }
        }
    }
}

pub proof fn lemma_hex_padded_plain(n: nat, w: nat)
    ensures
        forall|i: int| 0 <= i < hex_padded(n, w).len() ==> plain_hex_char(#[trigger] hex_padded(n, w)[i]),
{
    lemma_hex_digits_plain(n);
    let h = hex_digits(n);
    if h.len() < w {
        let z = Seq::new((w - h.len()) as nat, |i: int| '0');
        assert forall|i: int| 0 <= i < (z + h).len() implies plain_hex_char(#[trigger] (z + h)[i]) by {
            if i < z.len() {
                assert((z + h)[i] == '0');
            } else {
                assert((z + h)[i] == h[i - z.len()]);
            }
        }
    }
}

/// Plain hexadecimal text reads back as the number it spells.
proof fn lemma_plain_usize_radix(s: Seq<char>, n: nat)
    requires
        s.len() >= 1,
        forall|i: int| 0 <= i < s.len() ==> plain_hex_char(#[trigger] s[i]),
        all_digits(s, 16),
        digits_value(s, 16) == n,
        n <= usize::MAX,
    ensures
        usize_radix(s, 16) == Some(n as int),
{
    assert(plain_hex_char(s[0]));
}

/// `parse_hex_offset` reads back what `format_memory_address` writes.
pub proof fn lemma_hex_offset_roundtrip(address: usize)
    ensures
        hex_offset_spec(hex_padded(address as nat, 8)) == Some(address as int),
{
    let s = hex_padded(address as nat, 8);
    lemma_hex_padded_value(address as nat, 8);
    lemma_hex_padded_plain(address as nat, 8);
    assert(plain_hex_char(s[0]) && plain_hex_char(s.last()));
    lemma_trim_noop(s);
    assert(s.len() >= 8);
    assert(plain_hex_char(s[1]));
    assert(strip_hex_prefix(s) == s);
    lemma_plain_usize_radix(s, address as nat);
    reveal(hex_offset_spec);
}

/// `parse_memory_address` reads back what `format_memory_address` writes: eight or more
/// hexadecimal digits without a prefix.
pub proof fn lemma_plain_address_roundtrip(address: usize)
    ensures
        address_spec(hex_padded(address as nat, 8)) == Some(address as int),
{
    let h = hex_padded(address as nat, 8);
    lemma_hex_padded_value(address as nat, 8);
    lemma_hex_padded_plain(address as nat, 8);
    assert(h.len() >= 8);
    assert forall|i: int| 0 <= i < h.len() implies plain_addr_char(#[trigger] h[i]) && !is_op(h[i]) by {
        assert(plain_hex_char(h[i]));
    }
    lemma_compact_plain(h);
    lemma_first_op_none(h, 1);
    assert(plain_hex_char(h[1]));
    assert(term_radix(h) == 16);
    lemma_plain_usize_radix(h, address as nat);
    reveal(term_spec);
}

/// `parse_memory_address` reads back what `format_prefixed_memory_address` writes.
pub proof fn lemma_prefixed_address_roundtrip(address: usize)
    ensures
        address_spec(seq!['0', 'x'] + hex_padded(address as nat, 8)) == Some(address as int),
{
    let h = hex_padded(address as nat, 8);
    let s = seq!['0', 'x'] + h;
    lemma_hex_padded_value(address as nat, 8);
    lemma_hex_padded_plain(address as nat, 8);
    lemma_prefixed_plain(h, s);
    lemma_compact_plain(s);
    lemma_first_op_none(s, 1);
    assert(strip_hex_prefix(s) == h);
    lemma_plain_usize_radix(h, address as nat);
    reveal(term_spec);
}

proof fn lemma_prefixed_plain(h: Seq<char>, s: Seq<char>)
    requires
        forall|i: int| 0 <= i < h.len() ==> plain_hex_char(#[trigger] h[i]),
        s == seq!['0', 'x'] + h,
    ensures
        forall|i: int| 0 <= i < s.len() ==> plain_addr_char(#[trigger] s[i]),
        forall|k: int| 1 <= k < s.len() ==> !is_op(#[trigger] s[k]),
{
    assert forall|i: int| 0 <= i < s.len() implies plain_addr_char(#[trigger] s[i]) && !is_op(s[i]) by {
        if i >= 2 {
            assert(s[i] == h[i - 2]);
            assert(plain_hex_char(h[i - 2]));
        }
    }
}

proof fn lemma_first_op_none(c: Seq<char>, from: int)
    requires
        0 <= from <= c.len(),
        forall|k: int| from <= k < c.len() ==> !is_op(#[trigger] c[k]),
    ensures
        first_op(c, from) == c.len(),
    decreases c.len() - from,
{
    if from < c.len() {
        lemma_first_op_none(c, from + 1);
    }
}

/// Characters that address text built by the panel consists of.
pub open spec fn plain_addr_char(c: char) -> bool {
    plain_hex_char(c) || c == 'x' || is_op(c)
}

/// Text made only of hexadecimal digits, `x`, `+` and `-` is left alone by compaction.
proof fn lemma_compact_plain(s: Seq<char>)
    requires
        s.len() > 0,
        forall|i: int| 0 <= i < s.len() ==> plain_addr_char(#[trigger] s[i]),
    ensures
        compact_spec(s) == s,
{
    reveal(compact_spec);
    assert(plain_addr_char(s[0]));
    assert(plain_addr_char(s[s.len() - 1]));
    lemma_trim_noop(s);
    assert forall|i: int| 0 <= i < s.len() implies #[trigger] s[i] != ' ' && s[i] != '_' by {
        assert(plain_addr_char(s[i]));
    }
    lemma_compact_filter_noop(s);
}

/// The pieces of the text `0x<h><op><d>`.
proof fn lemma_edit_text_index(h: Seq<char>, d: Seq<char>, op: char, i: int)
    requires
        0 <= i < 3 + h.len() + d.len(),
    ensures
        ({
            let s = seq!['0', 'x'] + h + seq![op] + d;
            let hl = h.len() as int;
            &&& s.len() == 3 + hl + d.len()
            &&& i == 0 ==> s[i] == '0'
            &&& i == 1 ==> s[i] == 'x'
            &&& 2 <= i < 2 + hl ==> s[i] == h[i - 2]
            &&& i == 2 + hl ==> s[i] == op
            &&& 3 + hl <= i ==> s[i] == d[i - 3 - hl]
        }),
{
}

proof fn lemma_edit_text_plain(h: Seq<char>, d: Seq<char>, op: char)
    requires
        is_op(op),
        forall|i: int| 0 <= i < h.len() ==> plain_hex_char(#[trigger] h[i]),
        forall|i: int| 0 <= i < d.len() ==> plain_hex_char(#[trigger] d[i]),
    ensures
        ({
            let s = seq!['0', 'x'] + h + seq![op] + d;
            let hl = h.len() as int;
            &&& forall|i: int| 0 <= i < s.len() ==> plain_addr_char(#[trigger] s[i])
            &&& forall|k: int| 1 <= k < 2 + hl ==> !is_op(#[trigger] s[k])
            &&& forall|k: int| 3 + hl <= k < s.len() ==> !is_op(#[trigger] s[k])
        }),
{
    let s = seq!['0', 'x'] + h + seq![op] + d;
    let hl = h.len() as int;
    assert forall|i: int| 0 <= i < s.len() implies plain_addr_char(#[trigger] s[i]) && (1 <= i < 2 + hl ==> !is_op(s[i])) && (3 + hl <= i ==> !is_op(s[i])) by {
        lemma_edit_text_index(h, d, op, i);
        if 2 <= i < 2 + hl {
            assert(plain_hex_char(h[i - 2]));
        } else if 3 + hl <= i {
            assert(plain_hex_char(d[i - 3 - hl]));
        }
    }
}

/// The text `0x<h><op><d>` built from hexadecimal digit runs `h` and `d`.
proof fn lemma_edit_text_shape(h: Seq<char>, d: Seq<char>, op: char)
    requires
        h.len() >= 1,
        d.len() >= 1,
        is_op(op),
        forall|i: int| 0 <= i < h.len() ==> plain_hex_char(#[trigger] h[i]),
        forall|i: int| 0 <= i < d.len() ==> plain_hex_char(#[trigger] d[i]),
    ensures
        ({
            let s = seq!['0', 'x'] + h + seq![op] + d;
            let hl = h.len() as int;
            &&& compact_spec(s) == s
            &&& first_op(s, 1) == 2 + hl
            &&& first_op(s, 3 + hl) == s.len()
            &&& s.subrange(0, 2 + hl) == seq!['0', 'x'] + h
            &&& s.subrange(3 + hl, s.len() as int) == d
            &&& s[2 + hl] == op
        }),
{
    let s = seq!['0', 'x'] + h + seq![op] + d;
    let hl = h.len() as int;
    lemma_edit_text_plain(h, d, op);
    lemma_edit_text_index(h, d, op, 2 + hl);
    lemma_compact_plain(s);
    lemma_first_op_found(s, 1, 2 + hl);
    lemma_first_op_none(s, 3 + hl);
    assert(s.subrange(0, 2 + hl) =~= seq!['0', 'x'] + h);
    assert(s.subrange(3 + hl, s.len() as int) =~= d);
}

/// The hexadecimal digits of `n` read as an offset give `n`.
pub proof fn lemma_hex_digits_offset(n: usize)
    ensures
        hex_offset_spec(hex_digits(n as nat)) == Some(n as int),
        term_spec(seq!['0', 'x'] + hex_digits(n as nat)) == Some(n as int),
{
    let d = hex_digits(n as nat);
    lemma_hex_digits_value(n as nat);
    lemma_hex_digits_plain(n as nat);
    assert(plain_hex_char(d[0]) && plain_hex_char(d.last()));
    lemma_trim_noop(d);
    if d.len() >= 2 {
        assert(plain_hex_char(d[1]));
    }
    assert(strip_hex_prefix(d) == d);
    lemma_plain_usize_radix(d, n as nat);
    let pre = seq!['0', 'x'] + d;
    assert(strip_hex_prefix(pre) =~= d);
    reveal(hex_offset_spec);
    reveal(term_spec);
}

/// Editing with `+` and a hexadecimal offset moves forward from the current address,
/// and with `-` moves back, whenever the result is a valid address.
#[verifier::rlimit(50)]
pub proof fn lemma_address_edit_relative(current: usize, delta: usize, forward: bool)
    requires
        forward ==> current + delta <= usize::MAX,
        !forward ==> delta <= current,
    ensures
        address_edit_spec(
            current as int,
            seq![if forward { '+' } else { '-' }] + hex_digits(delta as nat),
        ) == Some(if forward { current + delta } else { current - delta }),
{
    let op = if forward { '+' } else { '-' };
    let d = hex_digits(delta as nat);
    let t = seq![op] + d;
    let h = hex_digits(current as nat);
    lemma_hex_digits_value(delta as nat);
    lemma_hex_digits_plain(delta as nat);
    lemma_hex_digits_value(current as nat);
    lemma_hex_digits_plain(current as nat);
    assert(t.last() == d.last());
    assert(plain_hex_char(d.last()));
    lemma_trim_noop(t);
    assert(seq!['0', 'x'] + h + t == seq!['0', 'x'] + h + seq![op] + d);
    lemma_edit_text_shape(h, d, op);
    lemma_hex_digits_offset(current);
    lemma_hex_digits_offset(delta);
    let s = seq!['0', 'x'] + h + seq![op] + d;
    let r = if forward { current + delta } else { current - delta };
    assert(eval_tail(r as int, s, s.len() as int) == Some(r as int));
    assert(eval_tail(current as int, s, 2 + h.len() as int) == Some(r as int));
}

proof fn lemma_first_op_found(c: Seq<char>, from: int, at: int)
    requires
        0 <= from <= at < c.len(),
        is_op(c[at]),
        forall|k: int| from <= k < at ==> !is_op(#[trigger] c[k]),
    ensures
        first_op(c, from) == at,
    decreases at - from,
{
    if from < at {
        lemma_first_op_found(c, from + 1, at);
    }
}

} // verus!
