//! Pointer chains written as `module+offset [o1, o2, ...]`: reading them from pasted text,
//! writing them for display, and the displacement of an instruction's memory operand.
use vstd::prelude::*;
use crate::text::{
    chars_of, first_sep, has_suffix, is_ws, join_with, last_index, lemma_first_sep_at, lemma_last_index_at,
    lemma_split_join, no_sep, push_char, push_chars, push_str, split_fields, split_ranges, string_of,
    strip_hex_prefix, trim, trim_bounds,
};
use crate::number::{hex_digits, isize_radix, parse_isize_radix, push_hex_digits};
use crate::address::{format_prefixed_memory_address, hex_offset_spec, parse_hex_offset_range};

verus! {

/// A pointer path found by a scan: a module-relative root and a chain of offsets.
pub struct PointerPath {
    pub module: String,
    pub module_offset: usize,
    pub offsets: Vec<usize>,
}

/// What a pointer path holds.
pub struct PointerPathView {
    pub module: Seq<char>,
    pub module_offset: usize,
    pub offsets: Seq<usize>,
}

impl View for PointerPath {
    type V = PointerPathView;

    open spec fn view(&self) -> PointerPathView {
        PointerPathView { module: self.module@, module_offset: self.module_offset, offsets: self.offsets@ }
    }
}

impl PointerPath {
    /// A copy of the path.
    pub fn duplicate(&self) -> (r: PointerPath)
        ensures
            r@ == self@,
    {
        PointerPath { module: self.module.clone(), module_offset: self.module_offset, offsets: copy_offsets(&self.offsets) }
    }
}

/// A saved pointer: an absolute base or a module-relative root, then offsets to follow.
pub struct PointerSpec {
    pub base: usize,
    pub module: Option<(String, usize)>,
    pub offsets: Vec<usize>,
}

/// What a saved pointer holds: its base, its module root, and its offsets.
pub struct PointerModel {
    pub base: usize,
    pub module: Option<(Seq<char>, usize)>,
    pub offsets: Seq<usize>,
}

impl View for PointerSpec {
    type V = PointerModel;

    open spec fn view(&self) -> PointerModel {
        PointerModel {
            base: self.base,
            module: match self.module {
                Some((m, o)) => Some((m@, o)),
                None => None,
            },
            offsets: self.offsets@,
        }
    }
}

/// A copy of `v`.
pub fn copy_offsets(v: &Vec<usize>) -> (r: Vec<usize>)
    ensures
        r@ == v@,
{
    let mut r: Vec<usize> = Vec::new();
    let mut i: usize = 0;
    while i < v.len()
        invariant
            i <= v@.len(),
            r@ == v@.subrange(0, i as int),
        decreases v@.len() - i,
    {
        r.push(v[i]);
        assert(r@ =~= v@.subrange(0, i + 1));
        i = i + 1;
    }
    assert(v@.subrange(0, v@.len() as int) == v@);
    r
}

impl PointerSpec {
    /// A copy of this pointer.
    pub fn duplicate(&self) -> (r: PointerSpec)
        ensures
            r@ == self@,
    {
        let module = match &self.module {
            Some((m, o)) => Some((m.clone(), *o)),
            None => None,
        };
        PointerSpec { base: self.base, module, offsets: copy_offsets(&self.offsets) }
    }
}

/// Whether every field reads as a hexadecimal offset.
pub open spec fn offsets_ok(fields: Seq<Seq<char>>) -> bool {
    forall|k: int| 0 <= k < fields.len() ==> (#[trigger] hex_offset_spec(fields[k])) is Some
}

/// The offsets that the fields read as.
pub open spec fn offsets_value(fields: Seq<Seq<char>>) -> Seq<usize> {
    Seq::new(fields.len(), |k: int| hex_offset_spec(fields[k]).unwrap() as usize)
}

/// The separators of offset lists in pasted pointer text.
pub open spec fn list_seps() -> Seq<char> {
    seq![',', ';']
}

/// What `parse_pointer_expression` gives for `text`: the module, its offset, and the
/// offsets inside the trailing `[...]`.
pub open spec fn pointer_expression_spec(text: Seq<char>) -> Option<(Seq<char>, usize, Seq<usize>)> {
    let t = trim(text);
    match last_index(t, '[') {
        None => None,
        Some(ob) => {
            let inner = t.subrange(ob + 1, t.len() as int);
            if !has_suffix(inner, seq![']']) {
                None
            } else {
                let fields = split_fields(inner.drop_last(), list_seps());
                let head = trim(t.subrange(0, ob));
                match last_index(head, '+') {
                    None => None,
                    Some(plus) => {
                        let module = trim(head.subrange(0, plus));
                        let module_offset = hex_offset_spec(head.subrange(plus + 1, head.len() as int));
                        if module.len() == 0 || !offsets_ok(fields) || fields.len() == 0 {
                            None
                        } else {
                            match module_offset {
                                None => None,
                                Some(mo) => Some((module, mo as usize, offsets_value(fields))),
                            }
                        }
                    },
                }
            }
        },
    }
}

/// The index of the last `c` in `v[lo..hi]`.
pub fn rfind_char(v: &Vec<char>, lo: usize, hi: usize, c: char) -> (r: Option<usize>)
    requires
        lo <= hi <= v@.len(),
    ensures
        match r {
            Some(i) => lo <= i < hi && last_index(v@.subrange(lo as int, hi as int), c) == Some(i - lo),
            None => last_index(v@.subrange(lo as int, hi as int), c) is None,
        },
{
    let mut j = hi;
    while j > lo
        invariant
            lo <= j <= hi <= v@.len(),
            last_index(v@.subrange(lo as int, hi as int), c) == last_index(v@.subrange(lo as int, j as int), c),
        decreases j - lo,
    {
        let ghost s = v@.subrange(lo as int, j as int);
        assert(s.last() == v@[j - 1]);
        if v[j - 1] == c {
            return Some(j - 1);
        }
        assert(s.drop_last() == v@.subrange(lo as int, j - 1));
        j = j - 1;
    }
    None
}

/// Reads every field range as a hexadecimal offset.
fn parse_offset_fields(v: &Vec<char>, ranges: &Vec<(usize, usize)>, fields: Ghost<Seq<Seq<char>>>) -> (r: Option<Vec<usize>>)
    requires
        ranges@.len() == fields@.len(),
        forall|k: int| 0 <= k < ranges@.len() ==> (#[trigger] ranges@[k]).0 <= ranges@[k].1 <= v@.len()
            && v@.subrange(ranges@[k].0 as int, ranges@[k].1 as int) == fields@[k],
    ensures
        match r {
            Some(o) => offsets_ok(fields@) && o@ == offsets_value(fields@),
            None => !offsets_ok(fields@),
        },
{
    let mut out: Vec<usize> = Vec::new();
    let mut k: usize = 0;
    while k < ranges.len()
        invariant
            ranges@.len() == fields@.len(),
            forall|j: int| 0 <= j < ranges@.len() ==> (#[trigger] ranges@[j]).0 <= ranges@[j].1 <= v@.len()
                && v@.subrange(ranges@[j].0 as int, ranges@[j].1 as int) == fields@[j],
            k <= ranges@.len(),
            out@.len() == k,
            forall|j: int| 0 <= j < k ==> (#[trigger] hex_offset_spec(fields@[j])) is Some
                && out@[j] == hex_offset_spec(fields@[j]).unwrap() as usize,
        decreases ranges@.len() - k,
    {
        let (a, b) = ranges[k];
        assert(ranges@[k as int] == (a, b));
        match parse_hex_offset_range(v, a, b) {
            Some(x) => {
                out.push(x);
            },
            None => {
                return None;
            },
        }
        k = k + 1;
    }
    assert(out@ =~= offsets_value(fields@));
    Some(out)
}

/// Reads pasted pointer text such as `game.exe+6389C60 [258, 180, 354]` into its module,
/// module offset and offsets.
pub fn parse_pointer_expression(text: &str) -> (r: Option<(String, usize, Vec<usize>)>)
    ensures
        match r {
            Some((m, o, offs)) => pointer_expression_spec(text@) == Some((m@, o, offs@)),
            None => pointer_expression_spec(text@) is None,
        },
{
    let v = chars_of(text);
    assert(v@.subrange(0, v@.len() as int) == v@);
    let (a, b) = trim_bounds(&v, 0, v.len());
    let ghost t = v@.subrange(a as int, b as int);
    let ob = match rfind_char(&v, a, b, '[') {
        Some(i) => i,
        None => return None,
    };
    assert(t.subrange(ob + 1 - a, t.len() as int) == v@.subrange(ob + 1, b as int));
    if !(ob + 1 < b && v[b - 1] == ']') {
        assert(!has_suffix(v@.subrange(ob + 1, b as int), seq![']'])) by {
            if ob + 1 < b {
                assert(v@.subrange(ob + 1, b as int).subrange(b - ob - 2, b - ob - 1)[0] == v@[b - 1]);
            }
        }
        return None;
    }
    assert(has_suffix(v@.subrange(ob + 1, b as int), seq![']'])) by {
        assert(v@.subrange(ob + 1, b as int).subrange(b - ob - 2, b - ob - 1) =~= seq![']']);
    }
    assert(v@.subrange(ob + 1, b as int).drop_last() == v@.subrange(ob + 1, b - 1));
    let mut seps: Vec<char> = Vec::new();
    seps.push(',');
    seps.push(';');
    assert(seps@ == list_seps());
    let ranges = split_ranges(&v, ob + 1, b - 1, &seps);
    let ghost fields = split_fields(v@.subrange(ob + 1, b - 1), list_seps());
    let (ha, hb) = trim_bounds(&v, a, ob);
    assert(t.subrange(0, ob - a) == v@.subrange(a as int, ob as int));
    let plus = match rfind_char(&v, ha, hb, '+') {
        Some(i) => i,
        None => return None,
    };
    let ghost head = v@.subrange(ha as int, hb as int);
    assert(head.subrange(0, plus - ha) == v@.subrange(ha as int, plus as int));
    assert(head.subrange(plus + 1 - ha, head.len() as int) == v@.subrange(plus + 1, hb as int));
    let (ma, mb) = trim_bounds(&v, ha, plus);
    let offsets = parse_offset_fields(&v, &ranges, Ghost(fields));
    let module_offset = parse_hex_offset_range(&v, plus + 1, hb);
    if ma == mb {
        return None;
    }
    let offsets = match offsets {
        Some(o) => o,
        None => return None,
    };
    if offsets.len() == 0 {
        return None;
    }
    match module_offset {
        Some(mo) => {
            let module = string_of(&v, ma, mb);
            Some((module, mo, offsets))
        },
        None => None,
    }
}

/// Appends `root`, then ` [o1, o2, ...]` in hexadecimal when `offsets` is not empty.
pub open spec fn with_offsets(root: Seq<char>, offsets: Seq<usize>) -> Seq<char> {
    if offsets.len() == 0 {
        root
    } else {
        root + seq![' ', '['] + join_hex(offsets) + seq![']']
    }
}

/// The offsets in hexadecimal, separated by `, `.
pub open spec fn join_hex(offsets: Seq<usize>) -> Seq<char>
    decreases offsets.len(),
{
    if offsets.len() == 0 {
        Seq::empty()
    } else if offsets.len() == 1 {
        hex_digits(offsets[0] as nat)
    } else {
        join_hex(offsets.drop_last()) + seq![',', ' '] + hex_digits(offsets.last() as nat)
    }
}

/// Appends `join_hex(offsets)` to `s`.
pub fn push_join_hex(s: &mut String, offsets: &Vec<usize>)
    ensures
        final(s)@ == old(s)@ + join_hex(offsets@),
{
    let mut i: usize = 0;
    while i < offsets.len()
        invariant
            i <= offsets@.len(),
            s@ == old(s)@ + join_hex(offsets@.subrange(0, i as int)),
        decreases offsets@.len() - i,
    {
        let ghost pre = offsets@.subrange(0, i + 1);
        assert(pre.drop_last() == offsets@.subrange(0, i as int));
        assert(pre.last() == offsets@[i as int]);
        if i > 0 {
            push_char(s, ',');
            push_char(s, ' ');
        }
        push_hex_digits(s, offsets[i] as u64);
        i = i + 1;
    }
    assert(offsets@.subrange(0, offsets@.len() as int) == offsets@);
}

/// Appends the offset list of a pointer, when it has offsets.
fn push_offset_list(s: &mut String, offsets: &Vec<usize>)
    ensures
        final(s)@ == with_offsets(old(s)@, offsets@),
{
    if offsets.len() > 0 {
        push_char(s, ' ');
        push_char(s, '[');
        push_join_hex(s, offsets);
        push_char(s, ']');
        assert(s@ =~= old(s)@ + seq![' ', '['] + join_hex(offsets@) + seq![']']);
    }
}

/// A pointer path as `module+OFFSET [O1, O2, ...]`.
pub fn format_pointer_path(path: &PointerPath) -> (s: String)
    ensures
        s@ == with_offsets(path.module@ + seq!['+'] + hex_digits(path.module_offset as nat), path.offsets@),
{
    let mut s = String::new();
    push_str(&mut s, path.module.as_str());
    push_char(&mut s, '+');
    push_hex_digits(&mut s, path.module_offset as u64);
    assert(s@ =~= path.module@ + seq!['+'] + hex_digits(path.module_offset as nat));
    push_offset_list(&mut s, &path.offsets);
    s
}

/// The root of a saved pointer as text: `module+OFFSET`, or the base as `0x` and eight or
/// more hexadecimal digits.
pub open spec fn pointer_root_text(pointer: PointerSpec) -> Seq<char> {
    match pointer.module {
        Some((m, o)) => m@ + seq!['+'] + hex_digits(o as nat),
        None => seq!['0', 'x'] + crate::number::hex_padded(pointer.base as nat, 8),
    }
}

/// A saved pointer as `root [O1, O2, ...]`.
pub fn format_pointer_expression(pointer: &PointerSpec) -> (s: String)
    ensures
        s@ == with_offsets(pointer_root_text(*pointer), pointer.offsets@),
{
    let mut s = match &pointer.module {
        Some((module, offset)) => {
            let mut s = String::new();
            push_str(&mut s, module.as_str());
            push_char(&mut s, '+');
            push_hex_digits(&mut s, *offset as u64);
            assert(s@ =~= module@ + seq!['+'] + hex_digits(*offset as nat));
            s
        },
        None => format_prefixed_memory_address(pointer.base),
    };
    push_offset_list(&mut s, &pointer.offsets);
    s
}

/// The index of the last `+` or `-` in `s`.
pub open spec fn last_op_index(s: Seq<char>) -> Option<int>
    decreases s.len(),
{
    if s.len() == 0 {
        None
    } else if s.last() == '+' || s.last() == '-' {
        Some(s.len() - 1)
    } else {
        last_op_index(s.drop_last())
    }
}

/// The text with one trailing `h` or `H` removed, when it has one.
pub open spec fn strip_h_suffix(s: Seq<char>) -> Seq<char> {
    if s.len() > 0 && (s.last() == 'h' || s.last() == 'H') {
        s.drop_last()
    } else {
        s
    }
}

/// What `instruction_memory_displacement` gives for an instruction's text: the signed
/// hexadecimal displacement after the last `+` or `-` inside the first `[...]`, or 0.
pub open spec fn displacement_spec(s: Seq<char>) -> int {
    let open = first_sep(s, seq!['['], 0);
    if open >= s.len() {
        0
    } else {
        let rest = s.subrange(open + 1, s.len() as int);
        let close = first_sep(rest, seq![']'], 0);
        if close >= rest.len() {
            0
        } else {
            expr_displacement(rest.subrange(0, close))
        }
    }
}

/// The signed hexadecimal displacement after the last `+` or `-` of a memory operand, or 0.
pub open spec fn expr_displacement(expr: Seq<char>) -> int {
    match last_op_index(expr) {
        None => 0,
        Some(i) => {
            let digits = strip_hex_prefix(
                strip_h_suffix(trim(expr.subrange(i + 1, expr.len() as int))),
            );
            match isize_radix(digits, 16) {
                None => 0,
                Some(v) => if expr[i] == '-' {
                    -v
                } else {
                    v
                },
            }
        },
    }
}

/// The index of the first `c` in `v[lo..hi]`, or `hi`.
fn find_char(v: &Vec<char>, lo: usize, hi: usize, c: char) -> (r: usize)
    requires
        lo <= hi <= v@.len(),
    ensures
        lo <= r <= hi,
        r - lo == first_sep(v@.subrange(lo as int, hi as int), seq![c], 0),
{
    let mut i = lo;
    while i < hi && v[i] != c
        invariant
            lo <= i <= hi <= v@.len(),
            forall|k: int| lo <= k < i ==> v@[k] != c,
        decreases hi - i,
    {
        i = i + 1;
    }
    proof {
        let s = v@.subrange(lo as int, hi as int);
        assert forall|k: int| 0 <= k < i - lo implies !seq![c].contains(#[trigger] s[k]) by {
            assert(s[k] == v@[lo + k]);
            if seq![c].contains(s[k]) {
                assert(seq![c][0] == c);
            }
        }
        if i < hi {
            assert(s[i - lo] == c);
            assert(seq![c][0] == c);
        }
        lemma_first_sep_at(s, seq![c], 0, i - lo);
    }
    i
}

/// Reads the memory displacement of an instruction such as `mov [rdi+288h], xmm0` (`0x288`),
/// giving 0 when the instruction has none.
pub fn instruction_memory_displacement(instruction: &str) -> (d: isize)
    ensures
        d as int == displacement_spec(instruction@),
{
    let v = chars_of(instruction);
    let n = v.len();
    assert(v@.subrange(0, n as int) == v@);
    let open = find_char(&v, 0, n, '[');
    if open >= n {
        return 0;
    }
    assert(v@.subrange(open + 1, n as int) == v@.subrange(0, n as int).subrange(open + 1, n as int));
    let close = find_char(&v, open + 1, n, ']');
    if close >= n {
        return 0;
    }
    assert(v@.subrange(open + 1, close as int) == v@.subrange(open + 1, n as int).subrange(0, close - open - 1));
    displacement_in_range(&v, open + 1, close)
}

/// `expr_displacement` of `v[lo..hi]`.
fn displacement_in_range(v: &Vec<char>, lo: usize, hi: usize) -> (d: isize)
    requires
        lo <= hi <= v@.len(),
    ensures
        d as int == expr_displacement(v@.subrange(lo as int, hi as int)),
{
    let ghost expr = v@.subrange(lo as int, hi as int);
    let mut j = hi;
    while j > lo && !(v[j - 1] == '+' || v[j - 1] == '-')
        invariant
            lo <= j <= hi <= v@.len(),
            expr == v@.subrange(lo as int, hi as int),
            last_op_index(expr) == last_op_index(v@.subrange(lo as int, j as int)),
        decreases j,
    {
        assert(v@.subrange(lo as int, j as int).drop_last() == v@.subrange(lo as int, j - 1));
        j = j - 1;
    }
    if j == lo {
        assert(v@.subrange(lo as int, j as int).len() == 0);
        return 0;
    }
    let i = j - 1;
    assert(v@.subrange(lo as int, j as int).last() == v@[i as int]);
    assert(last_op_index(expr) == Some(i - lo));
    let negative = v[i] == '-';
    assert(expr[i - lo] == v@[i as int]);
    assert(expr.subrange(i - lo + 1, expr.len() as int) == v@.subrange(i + 1, hi as int));
    let (a, b) = trim_bounds(v, i + 1, hi);
    let b2 = if a < b && (v[b - 1] == 'h' || v[b - 1] == 'H') {
        assert(v@.subrange(a as int, b as int).last() == v@[b - 1]);
        assert(v@.subrange(a as int, b as int).drop_last() == v@.subrange(a as int, b - 1));
        b - 1
    } else {
        if a < b {
            assert(v@.subrange(a as int, b as int).last() == v@[b - 1]);
        }
        b
    };
    let d = crate::text::skip_hex_prefix(v, a, b2);
    proof {
        let digits = v@.subrange(d as int, b2 as int);
        if digits.len() > 0 {
            assert(digits[0] == v@[d as int]);
            assert(v@[d as int] == expr[d - lo]);
            lemma_last_op_after(expr, i - lo, d - lo);
        }
    }
    match parse_isize_radix(v, d, b2, 16) {
        None => 0,
        Some(x) => {
            if negative {
                -x
            } else {
                x
            }
        },
    }
}

/// Characters after the last `+` or `-` are neither.
proof fn lemma_last_op_after(s: Seq<char>, i: int, k: int)
    requires
        last_op_index(s) == Some(i),
        0 <= i < k < s.len(),
    ensures
        s[k] != '+' && s[k] != '-',
    decreases s.len(),
{
    if s.last() == '+' || s.last() == '-' {
    } else {
        if k < s.len() - 1 {
            assert(s.drop_last()[k] == s[k]);
            lemma_last_op_after(s.drop_last(), i, k);
        } else {
            assert(s.last() == s[k]);
        }
    }
}

/// The fields of an offset list written by `join_hex`, as it splits at commas.
pub open spec fn hex_parts(os: Seq<usize>) -> Seq<Seq<char>> {
    Seq::new(os.len(), |i: int| if i == 0 {
        hex_digits(os[0] as nat)
    } else {
        seq![' '] + hex_digits(os[i] as nat)
    })
}

/// An offset list is its fields joined by commas.
proof fn lemma_join_hex_parts(os: Seq<usize>)
    ensures
        join_hex(os) == join_with(hex_parts(os), seq![',']),
    decreases os.len(),
{
    if os.len() >= 2 {
        let d = os.drop_last();
        lemma_join_hex_parts(d);
        assert(hex_parts(os).drop_last() =~= hex_parts(d));
        assert(hex_parts(os).last() == seq![' '] + hex_digits(os.last() as nat));
        assert(join_hex(os) =~= join_with(hex_parts(os), seq![',']));
    } else if os.len() == 1 {
        assert(hex_parts(os)[0] == hex_digits(os[0] as nat));
    }
}

/// A field of an offset list reads as its offset.
pub proof fn lemma_offset_field(o: usize, spaced: bool)
    ensures
        trim(if spaced {
            seq![' '] + hex_digits(o as nat)
        } else {
            hex_digits(o as nat)
        }) == hex_digits(o as nat),
        hex_offset_spec(if spaced {
            seq![' '] + hex_digits(o as nat)
        } else {
            hex_digits(o as nat)
        }) == Some(o as int),
        no_sep(if spaced {
            seq![' '] + hex_digits(o as nat)
        } else {
            hex_digits(o as nat)
        }, list_seps()),
{
    let h = hex_digits(o as nat);
    crate::address::lemma_hex_digits_offset(o);
    crate::address::lemma_hex_digits_plain(o as nat);
    crate::number::lemma_hex_digits_value(o as nat);
    assert(crate::address::plain_hex_char(h[0]) && crate::address::plain_hex_char(h.last()));
    crate::address::lemma_trim_noop(h);
    let sp = seq![' '] + h;
    assert(sp.drop_first() == h);
    assert(crate::text::trim_start(sp) == crate::text::trim_start(h));
    assert(trim(sp) == trim(h));
    reveal(hex_offset_spec);
    assert forall|k: int| 0 <= k < sp.len() implies !list_seps().contains(#[trigger] sp[k]) by {
        if k > 0 {
            assert(sp[k] == h[k - 1]);
            assert(crate::address::plain_hex_char(h[k - 1]));
        }
        if list_seps().contains(sp[k]) {
            let j = choose|j: int| 0 <= j < list_seps().len() && list_seps()[j] == sp[k];
        }
    }
    assert forall|k: int| 0 <= k < h.len() implies !list_seps().contains(#[trigger] h[k]) by {
        assert(crate::address::plain_hex_char(h[k]));
        if list_seps().contains(h[k]) {
            let j = choose|j: int| 0 <= j < list_seps().len() && list_seps()[j] == h[k];
        }
    }
}

/// The characters of an offset list are hexadecimal digits, commas and spaces.
pub proof fn lemma_join_hex_chars(os: Seq<usize>)
    ensures
        forall|k: int| 0 <= k < join_hex(os).len() ==> (crate::address::plain_hex_char(#[trigger] join_hex(os)[k])
            || join_hex(os)[k] == ',' || join_hex(os)[k] == ' '),
    decreases os.len(),
{
    if os.len() == 1 {
        crate::address::lemma_hex_digits_plain(os[0] as nat);
    } else if os.len() >= 2 {
        let d = os.drop_last();
        lemma_join_hex_chars(d);
        crate::address::lemma_hex_digits_plain(os.last() as nat);
        let a = join_hex(d);
        let h = hex_digits(os.last() as nat);
        let j = join_hex(os);
        assert(j == a + seq![',', ' '] + h);
        assert forall|k: int| 0 <= k < j.len() implies (crate::address::plain_hex_char(#[trigger] j[k]) || j[k] == ',' || j[k] == ' ') by {
            if k < a.len() {
                assert(j[k] == a[k]);
            } else if k >= a.len() + 2 {
                assert(j[k] == h[k - a.len() - 2]);
            }
        }
    }
}

/// The offsets of a list read back from the fields it splits into.
pub proof fn lemma_offset_list_reads_back(os: Seq<usize>)
    requires
        os.len() > 0,
    ensures
        split_fields(join_hex(os), list_seps()) == hex_parts(os),
        offsets_ok(hex_parts(os)),
        offsets_value(hex_parts(os)) == os,
{
    let parts = hex_parts(os);
    assert forall|i: int| 0 <= i < parts.len() implies no_sep(#[trigger] parts[i], list_seps())
        && hex_offset_spec(parts[i]) == Some(os[i] as int) by {
        lemma_offset_field(os[i], i != 0);
    }
    assert(list_seps().contains(',')) by {
        assert(list_seps()[0] == ',');
    }
    lemma_join_hex_parts(os);
    lemma_split_join(parts, ',', list_seps());
    assert(offsets_value(parts) =~= os);
}

/// The text that `format_pointer_path` writes reads back, through
/// `parse_pointer_expression`, as the same module, module offset and offsets, when the
/// module name is not empty and does not begin or end with whitespace and there is at
/// least one offset.
pub proof fn lemma_pointer_path_reads_back(module: Seq<char>, module_offset: usize, offsets: Seq<usize>)
    requires
        module.len() > 0,
        !is_ws(module[0]),
        !is_ws(module.last()),
        offsets.len() > 0,
    ensures
        pointer_expression_spec(with_offsets(module + seq!['+'] + hex_digits(module_offset as nat), offsets))
            == Some((module, module_offset, offsets)),
{
    let h = hex_digits(module_offset as nat);
    let j = join_hex(offsets);
    let x = module + seq!['+'] + h;
    let text = x + seq![' ', '['] + j + seq![']'];
    assert(with_offsets(x, offsets) == text);
    crate::number::lemma_hex_digits_value(module_offset as nat);
    crate::address::lemma_hex_digits_plain(module_offset as nat);
    lemma_join_hex_chars(offsets);
    let ml = module.len() as int;
    let hl = h.len() as int;
    assert forall|k: int| 0 <= k < hl implies #[trigger] x[ml + 1 + k] == h[k] by {}
    assert(crate::address::plain_hex_char(h.last()));
    assert(x.last() == h.last());
    // The whole text is already trimmed.
    assert(text[0] == module[0]);
    crate::address::lemma_trim_noop(text);
    // The offset list opens at the last `[`.
    let ob: int = x.len() + 1int;
    assert(text[ob] == '[');
    assert forall|k: int| ob < k < text.len() implies #[trigger] text[k] != '[' by {
        if k < text.len() - 1 {
            assert(text[k] == j[k - ob - 1]);
        }
    }
    lemma_last_index_at(text, '[', ob);
    let inner = text.subrange(ob + 1, text.len() as int);
    assert(inner == j + seq![']']);
    assert(inner.subrange(inner.len() - 1, inner.len() as int) =~= seq![']']);
    assert(inner.drop_last() == j);
    lemma_offset_list_reads_back(offsets);
    // The head before ` [` trims to `module+OFFSET`.
    let head_raw = text.subrange(0, ob);
    assert(head_raw == x.push(' '));
    assert(crate::text::trim_start(head_raw) == head_raw);
    assert(x.push(' ').drop_last() == x);
    assert(crate::text::trim_end(head_raw) == crate::text::trim_end(x));
    assert(crate::text::trim_end(x) == x);
    let head = trim(head_raw);
    assert(head == x);
    assert(x[ml] == '+');
    assert forall|k: int| ml < k < x.len() implies #[trigger] x[k] != '+' by {
        assert(x[k] == h[k - ml - 1]);
        assert(crate::address::plain_hex_char(h[k - ml - 1]));
    }
    lemma_last_index_at(x, '+', ml);
    assert(x.subrange(0, ml) == module);
    crate::address::lemma_trim_noop(module);
    assert(x.subrange(ml + 1, x.len() as int) == h);
    crate::address::lemma_hex_digits_offset(module_offset);
}

} // verus!
