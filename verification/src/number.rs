//! Integer text in a radix: the rules of `from_str_radix`, and hexadecimal and decimal rendering.
use vstd::prelude::*;

verus! {

/// The value of `c` as a digit in `radix` (2 to 36), as `char::to_digit` gives it.
pub open spec fn digit_val(c: char, radix: nat) -> Option<nat> {
    let v: nat = if '0' <= c && c <= '9' {
        (c as nat - '0' as nat) as nat
    } else if 'a' <= c && c <= 'z' {
        (c as nat - 'a' as nat + 10) as nat
    } else if 'A' <= c && c <= 'Z' {
        (c as nat - 'A' as nat + 10) as nat
    } else {
        99
    };
    if v < radix {
        Some(v)
    } else {
        None
    }
}

/// Whether every character of `s` is a digit in `radix`.
pub open spec fn all_digits(s: Seq<char>, radix: nat) -> bool {
    forall|i: int| 0 <= i < s.len() ==> (#[trigger] digit_val(s[i], radix)) is Some
}

/// The number that the digits `s` denote in `radix` (most significant first).
pub open spec fn digits_value(s: Seq<char>, radix: nat) -> nat
    decreases s.len(),
{
    if s.len() == 0 {
        0
    } else {
        digits_value(s.drop_last(), radix) * radix + digit_val(s.last(), radix).unwrap_or(0)
    }
}

/// The value of `s` read by `from_str_radix` without a range limit: an optional sign
/// (`-` only where `signed`) followed by at least one digit.
pub open spec fn radix_int(s: Seq<char>, radix: nat, signed: bool) -> Option<int> {
    if s.len() == 0 {
        None
    } else {
        let negative = signed && s[0] == '-';
        let has_sign = s[0] == '+' || negative;
        let body = if has_sign {
            s.drop_first()
        } else {
            s
        };
        if body.len() == 0 || !all_digits(body, radix) {
            None
        } else if negative {
            Some(-(digits_value(body, radix) as int))
        } else {
            Some(digits_value(body, radix) as int)
        }
    }
}

/// What `from_str_radix` returns for `s` in a type whose values are `min..=max`.
pub open spec fn from_str_radix_spec(s: Seq<char>, radix: nat, signed: bool, min: int, max: int) -> Option<int> {
    match radix_int(s, radix, signed) {
        Some(v) => if min <= v && v <= max {
            Some(v)
        } else {
            None
        },
        None => None,
    }
}

pub open spec fn usize_radix(s: Seq<char>, radix: nat) -> Option<int> {
    from_str_radix_spec(s, radix, false, 0, usize::MAX as int)
}

pub open spec fn u64_radix(s: Seq<char>, radix: nat) -> Option<int> {
    from_str_radix_spec(s, radix, false, 0, u64::MAX as int)
}

pub open spec fn isize_radix(s: Seq<char>, radix: nat) -> Option<int> {
    from_str_radix_spec(s, radix, true, isize::MIN as int, isize::MAX as int)
}

pub open spec fn i64_radix(s: Seq<char>, radix: nat) -> Option<int> {
    from_str_radix_spec(s, radix, true, i64::MIN as int, i64::MAX as int)
}

/// The uppercase hexadecimal digit for `d` below 16.
pub open spec fn hex_char(d: nat) -> char {
    if d < 10 {
        (d + '0' as nat) as char
    } else {
        (d - 10 + 'A' as nat) as char
    }
}

/// The decimal digit for `d` below 10.
pub open spec fn dec_char(d: nat) -> char {
    (d + '0' as nat) as char
}

/// The uppercase hexadecimal digits of `n` without leading zeros, as `{:X}` writes them.
pub open spec fn hex_digits(n: nat) -> Seq<char>
    decreases n,
{
    if n < 16 {
        seq![hex_char(n)]
    } else {
        hex_digits(n / 16).push(hex_char(n % 16))
    }
}

/// The decimal digits of `n` without leading zeros, as `to_string` writes them.
pub open spec fn dec_digits(n: nat) -> Seq<char>
    decreases n,
{
    if n < 10 {
        seq![dec_char(n)]
    } else {
        dec_digits(n / 10).push(dec_char(n % 10))
    }
}

/// The decimal text of a signed value, with `-` for negatives.
pub open spec fn signed_dec(v: int) -> Seq<char> {
    if v < 0 {
        seq!['-'] + dec_digits((-v) as nat)
    } else {
        dec_digits(v as nat)
    }
}

/// `s` padded on the left with `0` to at least `width` characters, as `{:0width$}` does.
pub open spec fn zero_pad(s: Seq<char>, width: nat) -> Seq<char> {
    if s.len() >= width {
        s
    } else {
        Seq::new((width - s.len()) as nat, |i: int| '0') + s
    }
}

/// The hexadecimal text `{:0width$X}` of `n`.
pub open spec fn hex_padded(n: nat, width: nat) -> Seq<char> {
    zero_pad(hex_digits(n), width)
}

proof fn lemma_digits_value_push(s: Seq<char>, c: char, radix: nat)
    ensures
        digits_value(s.push(c), radix) == digits_value(s, radix) * radix + digit_val(c, radix).unwrap_or(0),
{
    assert(s.push(c).drop_last() == s);
}

/// Appending digits never lowers the value.
proof fn lemma_digits_value_grows(s: Seq<char>, k: int, radix: nat)
    requires
        0 <= k <= s.len(),
        radix >= 1,
    ensures
        digits_value(s.subrange(0, k), radix) <= digits_value(s, radix),
    decreases s.len() - k,
{
    if k < s.len() {
        lemma_digits_value_grows(s, k + 1, radix);
        let p = s.subrange(0, k + 1);
        assert(p.drop_last() == s.subrange(0, k));
        assert(digits_value(p, radix) == digits_value(s.subrange(0, k), radix) * radix + digit_val(
            p.last(),
            radix,
        ).unwrap_or(0));
        assert(digits_value(s.subrange(0, k), radix) * radix >= digits_value(s.subrange(0, k), radix)) by (nonlinear_arith)
            requires radix >= 1;
    } else {
        assert(s.subrange(0, k) == s);
    }
}

/// The largest magnitude that `parse_digits` keeps: `2^64`.
pub open spec fn digit_cap() -> int {
    0x1_0000_0000_0000_0000
}

/// The value of the digits `v[lo..hi]` in `radix`, when they are all digits and
/// denote at most `2^64`; `None` otherwise.
pub fn parse_digits(v: &Vec<char>, lo: usize, hi: usize, radix: u32) -> (r: Option<u128>)
    requires
        lo <= hi <= v@.len(),
        2 <= radix <= 36,
    ensures
        match r {
            Some(x) => all_digits(v@.subrange(lo as int, hi as int), radix as nat) && x as int
                == digits_value(v@.subrange(lo as int, hi as int), radix as nat) && x as int
                <= digit_cap(),
            None => !all_digits(v@.subrange(lo as int, hi as int), radix as nat) || digits_value(
                v@.subrange(lo as int, hi as int),
                radix as nat,
            ) > digit_cap(),
        },
{
    let ghost s = v@.subrange(lo as int, hi as int);
    let mut acc: u128 = 0;
    let mut i = lo;
    while i < hi
        invariant
            lo <= i <= hi <= v@.len(),
            2 <= radix <= 36,
            s == v@.subrange(lo as int, hi as int),
            all_digits(v@.subrange(lo as int, i as int), radix as nat),
            acc as int == digits_value(v@.subrange(lo as int, i as int), radix as nat),
            acc as int <= digit_cap(),
        decreases hi - i,
    {
        let c = v[i];
        let d = digit_exec(c, radix);
        let ghost prefix = v@.subrange(lo as int, i as int);
        assert(v@.subrange(lo as int, i + 1) == prefix.push(c));
        match d {
            None => {
                assert(s[i - lo] == c);
                assert(digit_val(s[i - lo], radix as nat) is None);
                return None;
            },
            Some(dv) => {
                proof {
                    lemma_digits_value_push(prefix, c, radix as nat);
                }
                assert(acc * (radix as u128) <= 0x1_0000_0000_0000_0000u128 * 36) by (nonlinear_arith)
                    requires acc <= 0x1_0000_0000_0000_0000u128, radix <= 36;
                let next: u128 = acc * (radix as u128) + (dv as u128);
                assert forall|k: int| 0 <= k < i + 1 - lo implies (#[trigger] digit_val(
                    v@.subrange(lo as int, i + 1)[k],
                    radix as nat,
                )) is Some by {
                    if k < i - lo {
                        assert(v@.subrange(lo as int, i + 1)[k] == prefix[k]);
                    }
                }
                if next > 0x1_0000_0000_0000_0000u128 {
                    proof {
                        assert(s.subrange(0, i + 1 - lo) == v@.subrange(lo as int, i + 1));
                        lemma_digits_value_grows(s, i + 1 - lo, radix as nat);
                    }
                    return None;
                }
                acc = next;
            },
        }
        i = i + 1;
    }
    assert(v@.subrange(lo as int, i as int) == s);
    Some(acc)
}

/// The value of `c` as a digit in `radix`.
pub fn digit_exec(c: char, radix: u32) -> (r: Option<u32>)
    requires
        2 <= radix <= 36,
    ensures
        match r {
            Some(d) => digit_val(c, radix as nat) == Some(d as nat),
            None => digit_val(c, radix as nat) is None,
        },
{
    let v: u32 = if '0' <= c && c <= '9' {
        (c as u32) - ('0' as u32)
    } else if 'a' <= c && c <= 'z' {
        (c as u32) - ('a' as u32) + 10
    } else if 'A' <= c && c <= 'Z' {
        (c as u32) - ('A' as u32) + 10
    } else {
        99
    };
    if v < radix {
        Some(v)
    } else {
        None
    }
}

/// `from_str_radix` read of `v[lo..hi]` without a range limit, in `[-2^64, 2^64]`.
pub fn parse_radix(v: &Vec<char>, lo: usize, hi: usize, radix: u32, signed: bool) -> (r: Option<i128>)
    requires
        lo <= hi <= v@.len(),
        2 <= radix <= 36,
    ensures
        match r {
            Some(x) => radix_int(v@.subrange(lo as int, hi as int), radix as nat, signed) == Some(
                x as int,
            ) && -digit_cap() <= x <= digit_cap(),
            None => match radix_int(v@.subrange(lo as int, hi as int), radix as nat, signed) {
                Some(y) => y > digit_cap() || y < -digit_cap(),
                None => true,
            },
        },
{
    let ghost s = v@.subrange(lo as int, hi as int);
    if lo == hi {
        return None;
    }
    let negative = signed && v[lo] == '-';
    let has_sign = v[lo] == '+' || negative;
    let start = if has_sign {
        lo + 1
    } else {
        lo
    };
    assert(s[0] == v@[lo as int]);
    if has_sign {
        assert(s.drop_first() == v@.subrange(start as int, hi as int));
    }
    if start == hi {
        return None;
    }
    match parse_digits(v, start, hi, radix) {
        None => None,
        Some(m) => {
            let mi: i128 = m as i128;
            if negative {
                Some(-mi)
            } else {
                Some(mi)
            }
        },
    }
}

/// `usize::from_str_radix` on `v[lo..hi]`.
pub fn parse_usize_radix(v: &Vec<char>, lo: usize, hi: usize, radix: u32) -> (r: Option<usize>)
    requires
        lo <= hi <= v@.len(),
        2 <= radix <= 36,
    ensures
        match r {
            Some(x) => usize_radix(v@.subrange(lo as int, hi as int), radix as nat) == Some(x as int),
            None => usize_radix(v@.subrange(lo as int, hi as int), radix as nat) is None,
        },
{
    match parse_radix(v, lo, hi, radix, false) {
        Some(x) => if 0 <= x && x <= usize::MAX as i128 {
            Some(x as usize)
        } else {
            None
        },
        None => None,
    }
}

/// `u64::from_str_radix` on `v[lo..hi]`.
pub fn parse_u64_radix(v: &Vec<char>, lo: usize, hi: usize, radix: u32) -> (r: Option<u64>)
    requires
        lo <= hi <= v@.len(),
        2 <= radix <= 36,
    ensures
        match r {
            Some(x) => u64_radix(v@.subrange(lo as int, hi as int), radix as nat) == Some(x as int),
            None => u64_radix(v@.subrange(lo as int, hi as int), radix as nat) is None,
        },
{
    match parse_radix(v, lo, hi, radix, false) {
        Some(x) => if 0 <= x && x <= u64::MAX as i128 {
            Some(x as u64)
        } else {
            None
        },
        None => None,
    }
}

/// A signed `from_str_radix` on `v[lo..hi]` for a type with values `min..=max`.
pub fn parse_signed_radix(v: &Vec<char>, lo: usize, hi: usize, radix: u32, min: i64, max: i64) -> (r: Option<i64>)
    requires
        lo <= hi <= v@.len(),
        2 <= radix <= 36,
        min <= max,
    ensures
        match r {
            Some(x) => from_str_radix_spec(v@.subrange(lo as int, hi as int), radix as nat, true, min as int, max as int) == Some(x as int),
            None => from_str_radix_spec(v@.subrange(lo as int, hi as int), radix as nat, true, min as int, max as int) is None,
        },
{
    match parse_radix(v, lo, hi, radix, true) {
        Some(x) => if min as i128 <= x && x <= max as i128 {
            Some(x as i64)
        } else {
            None
        },
        None => None,
    }
}

/// `isize::from_str_radix` on `v[lo..hi]`.
pub fn parse_isize_radix(v: &Vec<char>, lo: usize, hi: usize, radix: u32) -> (r: Option<isize>)
    requires
        lo <= hi <= v@.len(),
        2 <= radix <= 36,
    ensures
        match r {
            Some(x) => isize_radix(v@.subrange(lo as int, hi as int), radix as nat) == Some(x as int),
            None => isize_radix(v@.subrange(lo as int, hi as int), radix as nat) is None,
        },
{
    match parse_radix(v, lo, hi, radix, true) {
        Some(x) => if isize::MIN as i128 <= x && x <= isize::MAX as i128 {
            Some(x as isize)
        } else {
            None
        },
        None => None,
    }
}

fn hex_char_exec(d: u64) -> (c: char)
    requires
        d < 16,
    ensures
        c == hex_char(d as nat),
{
    if d < 10 {
        let b: u8 = (d as u8) + 48;
        b as char
    } else {
        let b: u8 = (d as u8) - 10 + 65;
        b as char
    }
}

/// Appends `hex_digits(n)` to `out`.
pub fn push_hex_digits(out: &mut String, n: u64)
    ensures
        final(out)@ == old(out)@ + hex_digits(n as nat),
    decreases n,
{
    if n >= 16 {
        push_hex_digits(out, n / 16);
    }
    crate::text::push_char(out, hex_char_exec(n % 16));
    assert(hex_digits(n as nat) == if n < 16 { seq![hex_char(n as nat)] } else { hex_digits((n / 16) as nat).push(hex_char((n % 16) as nat)) });
}

/// Appends `hex_digits(n)` to `out`, for a 128-bit `n`.
pub fn push_hex_digits_wide(out: &mut String, n: u128)
    ensures
        final(out)@ == old(out)@ + hex_digits(n as nat),
    decreases n,
{
    if n >= 16 {
        push_hex_digits_wide(out, n / 16);
    }
    crate::text::push_char(out, hex_char_exec((n % 16) as u64));
    assert(hex_digits(n as nat) == if n < 16 { seq![hex_char(n as nat)] } else { hex_digits((n / 16) as nat).push(hex_char((n % 16) as nat)) });
}

/// Appends `dec_digits(n)` to `out`.
pub fn push_dec_digits(out: &mut String, n: u64)
    ensures
        final(out)@ == old(out)@ + dec_digits(n as nat),
    decreases n,
{
    if n >= 10 {
        push_dec_digits(out, n / 10);
    }
    let b: u8 = ((n % 10) as u8) + 48;
    crate::text::push_char(out, b as char);
}

/// The hexadecimal text `{:0width$X}` of `n`.
pub fn format_hex(n: u64, width: usize) -> (s: String)
    ensures
        s@ == hex_padded(n as nat, width as nat),
{
    let mut digits = String::new();
    push_hex_digits(&mut digits, n);
    let mut out = String::new();
    let len = digits_len_hex(n);
    let mut k: usize = len;
    while k < width
        invariant
            len <= k <= if width > len { width } else { len },
            len == hex_digits(n as nat).len(),
            out@ == Seq::new((k - len) as nat, |i: int| '0'),
        decreases width - k,
    {
        crate::text::push_char(&mut out, '0');
        assert(out@ =~= Seq::new((k + 1 - len) as nat, |i: int| '0'));
        k = k + 1;
    }
    let ghost pad = out@;
    let dv = crate::text::chars_of(digits.as_str());
    crate::text::push_chars(&mut out, &dv, 0, dv.len());
    assert(dv@.subrange(0, dv@.len() as int) == dv@);
    if len >= width {
        assert(out@ =~= hex_digits(n as nat));
    } else {
        assert(out@ =~= Seq::new((width - len) as nat, |i: int| '0') + hex_digits(n as nat));
    }
    out
}

/// The number of hexadecimal digits of `n`.
fn digits_len_hex(n: u64) -> (l: usize)
    ensures
        l == hex_digits(n as nat).len(),
        1 <= l <= 16,
    decreases n,
{
    if n < 16 {
        1
    } else {
        let l = digits_len_hex(n / 16);
        proof {
            lemma_hex_digits_len_bound(n as nat);
        }
        l + 1
    }
}

proof fn lemma_hex_digits_len_bound(n: nat)
    ensures
        hex_digits(n).len() >= 1,
        n <= u64::MAX ==> hex_digits(n).len() <= 16,
{
    lemma_hex_digits_len_pow(n, 16);
    reveal_with_fuel(pow16, 17);
    assert(pow16(16) == 0x1_0000_0000_0000_0000);
}

/// `16` to the power `k`.
pub open spec fn pow16(k: nat) -> nat
    decreases k,
{
    if k == 0 {
        1
    } else {
        16 * pow16((k - 1) as nat)
    }
}

proof fn lemma_hex_digits_len_pow(n: nat, k: nat)
    ensures
        hex_digits(n).len() >= 1,
        k >= 1 && n < pow16(k) ==> hex_digits(n).len() <= k,
    decreases n,
{
    if n >= 16 {
        if k >= 2 {
            lemma_hex_digits_len_pow(n / 16, (k - 1) as nat);
            if n < pow16(k) {
                assert(n / 16 < pow16((k - 1) as nat)) by (nonlinear_arith)
                    requires n < 16 * pow16((k - 1) as nat);
            }
        } else {
            lemma_hex_digits_len_pow(n / 16, k);
        }
        lemma_hex_len_inner(n);
    }
}

proof fn lemma_hex_len_inner(n: nat)
    requires
        n >= 16,
    ensures
        hex_digits(n).len() == hex_digits(n / 16).len() + 1,
{
}

/// The decimal text of `n`, as `to_string` writes it.
pub fn format_u64_dec(n: u64) -> (s: String)
    ensures
        s@ == dec_digits(n as nat),
{
    let mut s = String::new();
    push_dec_digits(&mut s, n);
    s
}

/// The decimal text of `v`, as `to_string` writes it.
pub fn format_i64_dec(v: i64) -> (s: String)
    ensures
        s@ == signed_dec(v as int),
{
    let mut s = String::new();
    if v < 0 {
        crate::text::push_char(&mut s, '-');
        let m: u64 = if v == i64::MIN {
            0x8000_0000_0000_0000u64
        } else {
            (-v) as u64
        };
        push_dec_digits(&mut s, m);
    } else {
        push_dec_digits(&mut s, v as u64);
    }
    s
}

/// The hexadecimal digits of `n` read back give `n`.
pub proof fn lemma_hex_digits_value(n: nat)
    ensures
        all_digits(hex_digits(n), 16),
        digits_value(hex_digits(n), 16) == n,
        hex_digits(n).len() >= 1,
    decreases n,
{
    if n < 16 {
        let s = hex_digits(n);
        assert(s.drop_last() =~= Seq::<char>::empty());
        assert(s.last() == hex_char(n));
        assert(digit_val(hex_char(n), 16) == Some(n));
        assert(digits_value(s.drop_last(), 16) == 0);
        assert(digits_value(s, 16) == 0 * 16 + n);
    } else {
        lemma_hex_digits_value(n / 16);
        let p = hex_digits(n / 16);
        let c = hex_char(n % 16);
        assert(digit_val(c, 16) == Some(n % 16));
        lemma_digits_value_push(p, c, 16);
        assert forall|i: int| 0 <= i < p.push(c).len() implies (#[trigger] digit_val(p.push(c)[i], 16)) is Some by {
            if i < p.len() {
                assert(p.push(c)[i] == p[i]);
            }
        }
        assert((n / 16) * 16 + n % 16 == n) by (nonlinear_arith);
    }
}

/// Leading zeros do not change the value of digits.
pub proof fn lemma_zero_pad_value(s: Seq<char>, k: nat, radix: nat)
    requires
        radix >= 2,
        all_digits(s, radix),
    ensures
        all_digits(Seq::new(k, |i: int| '0') + s, radix),
        digits_value(Seq::new(k, |i: int| '0') + s, radix) == digits_value(s, radix),
    decreases s.len(),
{
    let z = Seq::new(k, |i: int| '0');
    assert(digit_val('0', radix) == Some(0nat));
    assert forall|i: int| 0 <= i < (z + s).len() implies (#[trigger] digit_val((z + s)[i], radix)) is Some by {
        if i < k {
            assert((z + s)[i] == '0');
        } else {
            assert((z + s)[i] == s[i - k]);
        }
    }
    if s.len() == 0 {
        lemma_zeros_value(k, radix);
        assert(z + s == z);
    } else {
        lemma_zero_pad_value(s.drop_last(), k, radix);
        assert((z + s).drop_last() == z + s.drop_last());
        assert((z + s).last() == s.last());
    }
}

proof fn lemma_zeros_value(k: nat, radix: nat)
    requires
        radix >= 2,
    ensures
        digits_value(Seq::new(k, |i: int| '0'), radix) == 0,
    decreases k,
{
    if k > 0 {
        let z = Seq::new(k, |i: int| '0');
        assert(z.drop_last() == Seq::new((k - 1) as nat, |i: int| '0'));
        lemma_zeros_value((k - 1) as nat, radix);
        assert(digit_val('0', radix) == Some(0nat));
        assert(z.last() == '0');
        assert(0 * radix == 0);
    }
}

/// Reading the padded hexadecimal text of `n` gives `n`.
pub proof fn lemma_hex_padded_value(n: nat, width: nat)
    ensures
        all_digits(hex_padded(n, width), 16),
        digits_value(hex_padded(n, width), 16) == n,
        hex_padded(n, width).len() >= 1,
{
    lemma_hex_digits_value(n);
    let h = hex_digits(n);
    if h.len() < width {
        lemma_zero_pad_value(h, (width - h.len()) as nat, 16);
    }
}

/// The decimal digits of `n` read back give `n`, and are all ASCII digits.
pub proof fn lemma_dec_digits_value(n: nat)
    ensures
        all_digits(dec_digits(n), 10),
        digits_value(dec_digits(n), 10) == n,
        dec_digits(n).len() >= 1,
        forall|i: int| 0 <= i < dec_digits(n).len() ==> '0' <= #[trigger] dec_digits(n)[i] <= '9',
    decreases n,
{
    if n < 10 {
        let s = dec_digits(n);
        assert(s.drop_last() =~= Seq::<char>::empty());
        assert(s.last() == dec_char(n));
        assert(digit_val(dec_char(n), 10) == Some(n));
        assert(digits_value(s.drop_last(), 10) == 0);
        assert(digits_value(s, 10) == 0 * 10 + n);
    } else {
        lemma_dec_digits_value(n / 10);
        let p = dec_digits(n / 10);
        let c = dec_char(n % 10);
        assert(digit_val(c, 10) == Some(n % 10));
        lemma_digits_value_push(p, c, 10);
        assert forall|i: int| 0 <= i < p.push(c).len() implies (#[trigger] digit_val(p.push(c)[i], 10)) is Some
            && '0' <= p.push(c)[i] <= '9' by {
            if i < p.len() {
                assert(p.push(c)[i] == p[i]);
            }
        }
        assert((n / 10) * 10 + n % 10 == n) by (nonlinear_arith);
    }
}

} // verus!
