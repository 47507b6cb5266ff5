//! Scan value types, scan actions and their configuration keys, and the integer side of
//! reading and writing scan values.
use vstd::prelude::*;
use crate::text::{chars_of, has_hex_prefix, is_ascii_digit, is_ascii_ws, push_char, push_str, range_eq, string_of, strip_hex_prefix, trim, trim_bounds};
use crate::number::{
    dec_digits, format_hex, format_i64_dec, from_str_radix_spec, hex_padded, i64_radix,
    parse_signed_radix, parse_u64_radix, signed_dec, u64_radix,
};

verus! {

/// The type of a value that a memory scan looks for.
#[derive(Clone, Copy, Debug, PartialEq, Eq, Structural)]
pub enum ScanValueType {
    I8,
    I16,
    I32,
    F32,
    I64,
    F64,
}

/// A scanned value. Floating-point values are held as their IEEE-754 bit patterns.
#[derive(Clone, Copy, Debug, PartialEq, Eq, Structural)]
pub enum ScanValue {
    I8(i8),
    I16(i16),
    I32(i32),
    /// The bits of an `f32`.
    F32(u32),
    I64(i64),
    /// The bits of an `f64`.
    F64(u64),
}

/// How a follow-up scan compares new values with previous ones.
#[derive(Clone, Copy, Debug, PartialEq, Eq, Structural)]
pub enum ScanComparison {
    Exact,
    Increased,
    Decreased,
    Changed,
    Unchanged,
    Less,
    Greater,
    Between,
}

/// A scan action offered by the panel.
#[derive(Clone, Copy, Debug, PartialEq, Eq, Structural)]
pub enum MemoryScanAction {
    FirstScan,
    Unknown,
    Exact,
    Increased,
    Decreased,
    Changed,
    Unchanged,
    Less,
    Greater,
    Between,
}

/// The configuration key under which an action's hotkey is stored.
pub open spec fn action_key(a: MemoryScanAction) -> Seq<char> {
    match a {
        MemoryScanAction::FirstScan => "first_scan"@,
        MemoryScanAction::Unknown => "unknown"@,
        MemoryScanAction::Exact => "exact"@,
        MemoryScanAction::Increased => "increased"@,
        MemoryScanAction::Decreased => "decreased"@,
        MemoryScanAction::Changed => "changed"@,
        MemoryScanAction::Unchanged => "unchanged"@,
        MemoryScanAction::Less => "less"@,
        MemoryScanAction::Greater => "greater"@,
        MemoryScanAction::Between => "between"@,
    }
}

/// The action whose configuration key is `key`.
pub open spec fn action_from_key(key: Seq<char>) -> Option<MemoryScanAction> {
    if key == "first_scan"@ {
        Some(MemoryScanAction::FirstScan)
    } else if key == "unknown"@ {
        Some(MemoryScanAction::Unknown)
    } else if key == "exact"@ {
        Some(MemoryScanAction::Exact)
    } else if key == "increased"@ {
        Some(MemoryScanAction::Increased)
    } else if key == "decreased"@ {
        Some(MemoryScanAction::Decreased)
    } else if key == "changed"@ {
        Some(MemoryScanAction::Changed)
    } else if key == "unchanged"@ {
        Some(MemoryScanAction::Unchanged)
    } else if key == "less"@ {
        Some(MemoryScanAction::Less)
    } else if key == "greater"@ {
        Some(MemoryScanAction::Greater)
    } else if key == "between"@ {
        Some(MemoryScanAction::Between)
    } else {
        None
    }
}

/// The comparison a follow-up action performs, if it is one.
pub open spec fn action_comparison(a: MemoryScanAction) -> Option<ScanComparison> {
    match a {
        MemoryScanAction::Exact => Some(ScanComparison::Exact),
        MemoryScanAction::Increased => Some(ScanComparison::Increased),
        MemoryScanAction::Decreased => Some(ScanComparison::Decreased),
        MemoryScanAction::Changed => Some(ScanComparison::Changed),
        MemoryScanAction::Unchanged => Some(ScanComparison::Unchanged),
        MemoryScanAction::Less => Some(ScanComparison::Less),
        MemoryScanAction::Greater => Some(ScanComparison::Greater),
        MemoryScanAction::Between => Some(ScanComparison::Between),
        MemoryScanAction::FirstScan | MemoryScanAction::Unknown => None,
    }
}

/// Whether two strings hold the same characters.
pub fn str_eq(a: &str, b: &str) -> (r: bool)
    ensures
        r == (a@ == b@),
{
    let va = chars_of(a);
    let vb = chars_of(b);
    assert(va@.subrange(0, va@.len() as int) == va@);
    range_eq(&va, 0, va.len(), &vb)
}

/// The button label of an action.
pub open spec fn action_label(a: MemoryScanAction) -> Seq<char> {
    match a {
        MemoryScanAction::FirstScan => "First scan"@,
        MemoryScanAction::Unknown => "Unknown"@,
        MemoryScanAction::Exact => "New value"@,
        MemoryScanAction::Increased => "Increased"@,
        MemoryScanAction::Decreased => "Decreased"@,
        MemoryScanAction::Changed => "Changed"@,
        MemoryScanAction::Unchanged => "Unchanged"@,
        MemoryScanAction::Less => "Less than"@,
        MemoryScanAction::Greater => "Greater than"@,
        MemoryScanAction::Between => "Between"@,
    }
}

impl MemoryScanAction {
    /// The button label of the action.
    pub fn label(self) -> (s: &'static str)
        ensures
            s@ == action_label(self),
            s@ == (match self {
                MemoryScanAction::FirstScan => "First scan"@,
                MemoryScanAction::Unknown => "Unknown"@,
                MemoryScanAction::Exact => "New value"@,
                MemoryScanAction::Increased => "Increased"@,
                MemoryScanAction::Decreased => "Decreased"@,
                MemoryScanAction::Changed => "Changed"@,
                MemoryScanAction::Unchanged => "Unchanged"@,
                MemoryScanAction::Less => "Less than"@,
                MemoryScanAction::Greater => "Greater than"@,
                MemoryScanAction::Between => "Between"@,
            }),
    {
        match self {
            MemoryScanAction::FirstScan => "First scan",
            MemoryScanAction::Unknown => "Unknown",
            MemoryScanAction::Exact => "New value",
            MemoryScanAction::Increased => "Increased",
            MemoryScanAction::Decreased => "Decreased",
            MemoryScanAction::Changed => "Changed",
            MemoryScanAction::Unchanged => "Unchanged",
            MemoryScanAction::Less => "Less than",
            MemoryScanAction::Greater => "Greater than",
            MemoryScanAction::Between => "Between",
        }
    }

    /// The comparison of a follow-up scan; first and unknown-value scans have none.
    pub fn comparison(self) -> (c: Option<ScanComparison>)
        ensures
            c == action_comparison(self),
    {
        match self {
            MemoryScanAction::Exact => Some(ScanComparison::Exact),
            MemoryScanAction::Increased => Some(ScanComparison::Increased),
            MemoryScanAction::Decreased => Some(ScanComparison::Decreased),
            MemoryScanAction::Changed => Some(ScanComparison::Changed),
            MemoryScanAction::Unchanged => Some(ScanComparison::Unchanged),
            MemoryScanAction::Less => Some(ScanComparison::Less),
            MemoryScanAction::Greater => Some(ScanComparison::Greater),
            MemoryScanAction::Between => Some(ScanComparison::Between),
            MemoryScanAction::FirstScan | MemoryScanAction::Unknown => None,
        }
    }

    /// The key under which the action's hotkey is stored.
    pub fn config_key(self) -> (s: &'static str)
        ensures
            s@ == action_key(self),
    {
        match self {
            MemoryScanAction::FirstScan => "first_scan",
            MemoryScanAction::Unknown => "unknown",
            MemoryScanAction::Exact => "exact",
            MemoryScanAction::Increased => "increased",
            MemoryScanAction::Decreased => "decreased",
            MemoryScanAction::Changed => "changed",
            MemoryScanAction::Unchanged => "unchanged",
            MemoryScanAction::Less => "less",
            MemoryScanAction::Greater => "greater",
            MemoryScanAction::Between => "between",
        }
    }

    /// The action stored under `key`, if any.
    pub fn from_config_key(key: &str) -> (a: Option<MemoryScanAction>)
        ensures
            a == action_from_key(key@),
    {
        if str_eq(key, "first_scan") {
            Some(MemoryScanAction::FirstScan)
        } else if str_eq(key, "unknown") {
            Some(MemoryScanAction::Unknown)
        } else if str_eq(key, "exact") {
            Some(MemoryScanAction::Exact)
        } else if str_eq(key, "increased") {
            Some(MemoryScanAction::Increased)
        } else if str_eq(key, "decreased") {
            Some(MemoryScanAction::Decreased)
        } else if str_eq(key, "changed") {
            Some(MemoryScanAction::Changed)
        } else if str_eq(key, "unchanged") {
            Some(MemoryScanAction::Unchanged)
        } else if str_eq(key, "less") {
            Some(MemoryScanAction::Less)
        } else if str_eq(key, "greater") {
            Some(MemoryScanAction::Greater)
        } else if str_eq(key, "between") {
            Some(MemoryScanAction::Between)
        } else {
            None
        }
    }
}

/// Every action's configuration key reads back as that action.
pub proof fn lemma_action_key_roundtrip(a: MemoryScanAction)
    ensures
        action_from_key(action_key(a)) == Some(a),
{
    reveal_strlit("first_scan");
    reveal_strlit("unknown");
    reveal_strlit("exact");
    reveal_strlit("increased");
    reveal_strlit("decreased");
    reveal_strlit("changed");
    reveal_strlit("unchanged");
    reveal_strlit("less");
    reveal_strlit("greater");
    reveal_strlit("between");
    assert("first_scan"@.len() == 10 && "first_scan"@[0] == 'f');
    assert("unknown"@.len() == 7 && "unknown"@[0] == 'u');
    assert("exact"@.len() == 5 && "exact"@[0] == 'e');
    assert("increased"@.len() == 9 && "increased"@[0] == 'i');
    assert("decreased"@.len() == 9 && "decreased"@[0] == 'd');
    assert("changed"@.len() == 7 && "changed"@[0] == 'c');
    assert("unchanged"@.len() == 9 && "unchanged"@[0] == 'u');
    assert("less"@.len() == 4 && "less"@[0] == 'l');
    assert("greater"@.len() == 7 && "greater"@[0] == 'g');
    assert("between"@.len() == 7 && "between"@[0] == 'b');
}

/// Distinct actions have distinct configuration keys.
pub proof fn lemma_action_keys_distinct(a: MemoryScanAction, b: MemoryScanAction)
    requires
        a != b,
    ensures
        action_key(a) != action_key(b),
{
    lemma_action_key_roundtrip(a);
    lemma_action_key_roundtrip(b);
}

/// The configuration text of a value type.
pub open spec fn type_config(t: ScanValueType) -> Seq<char> {
    match t {
        ScanValueType::I8 => "i8"@,
        ScanValueType::I16 => "i16"@,
        ScanValueType::I32 => "i32"@,
        ScanValueType::F32 => "f32"@,
        ScanValueType::I64 => "i64"@,
        ScanValueType::F64 => "f64"@,
    }
}

/// The value type stored as `s`.
pub open spec fn type_from_config(s: Seq<char>) -> Option<ScanValueType> {
    if s == "i8"@ {
        Some(ScanValueType::I8)
    } else if s == "i16"@ {
        Some(ScanValueType::I16)
    } else if s == "i32"@ {
        Some(ScanValueType::I32)
    } else if s == "f32"@ {
        Some(ScanValueType::F32)
    } else if s == "i64"@ {
        Some(ScanValueType::I64)
    } else if s == "f64"@ {
        Some(ScanValueType::F64)
    } else {
        None
    }
}

/// The label of a value type in the type selector.
pub open spec fn type_label(t: ScanValueType) -> Seq<char> {
    match t {
        ScanValueType::I8 => "Byte"@,
        ScanValueType::I16 => "2 Bytes"@,
        ScanValueType::I32 => "4 Bytes"@,
        ScanValueType::F32 => "Float"@,
        ScanValueType::I64 => "8 Bytes"@,
        ScanValueType::F64 => "Double"@,
    }
}

/// The label of a value type in the type selector.
pub fn memory_type_label(value_type: ScanValueType) -> (s: &'static str)
    ensures
        s@ == type_label(value_type),
{
    match value_type {
        ScanValueType::I8 => "Byte",
        ScanValueType::I16 => "2 Bytes",
        ScanValueType::I32 => "4 Bytes",
        ScanValueType::F32 => "Float",
        ScanValueType::I64 => "8 Bytes",
        ScanValueType::F64 => "Double",
    }
}

/// The value types in selector order, each with its label.
pub fn memory_value_types() -> (r: [(ScanValueType, &'static str); 6])
    ensures
        r@.len() == 6,
        r@[0].0 == ScanValueType::I8 && r@[1].0 == ScanValueType::I16 && r@[2].0
            == ScanValueType::I32 && r@[3].0 == ScanValueType::I64 && r@[4].0 == ScanValueType::F32
            && r@[5].0 == ScanValueType::F64,
        forall|i: int| 0 <= i < 6 ==> (#[trigger] r@[i]).1@ == type_label(r@[i].0),
{
    [
        (ScanValueType::I8, "Byte"),
        (ScanValueType::I16, "2 Bytes"),
        (ScanValueType::I32, "4 Bytes"),
        (ScanValueType::I64, "8 Bytes"),
        (ScanValueType::F32, "Float"),
        (ScanValueType::F64, "Double"),
    ]
}

/// The text under which a value type is stored.
pub fn memory_type_config(value_type: ScanValueType) -> (s: &'static str)
    ensures
        s@ == type_config(value_type),
{
    match value_type {
        ScanValueType::I8 => "i8",
        ScanValueType::I16 => "i16",
        ScanValueType::I32 => "i32",
        ScanValueType::F32 => "f32",
        ScanValueType::I64 => "i64",
        ScanValueType::F64 => "f64",
    }
}

/// The value type stored as `value_type`, if it names one.
pub fn memory_type_from_config(value_type: &str) -> (r: Option<ScanValueType>)
    ensures
        r == type_from_config(value_type@),
{
    if str_eq(value_type, "i8") {
        Some(ScanValueType::I8)
    } else if str_eq(value_type, "i16") {
        Some(ScanValueType::I16)
    } else if str_eq(value_type, "i32") {
        Some(ScanValueType::I32)
    } else if str_eq(value_type, "f32") {
        Some(ScanValueType::F32)
    } else if str_eq(value_type, "i64") {
        Some(ScanValueType::I64)
    } else if str_eq(value_type, "f64") {
        Some(ScanValueType::F64)
    } else {
        None
    }
}

/// Every value type's configuration text reads back as that type.
pub proof fn lemma_type_config_roundtrip(t: ScanValueType)
    ensures
        type_from_config(type_config(t)) == Some(t),
{
    reveal_strlit("i8");
    reveal_strlit("i16");
    reveal_strlit("i32");
    reveal_strlit("f32");
    reveal_strlit("i64");
    reveal_strlit("f64");
    assert("i8"@.len() == 2 && "i8"@[0] == 'i' && "i8"@[1] == '8');
    assert("i16"@.len() == 3 && "i16"@[0] == 'i' && "i16"@[1] == '1');
    assert("i32"@.len() == 3 && "i32"@[0] == 'i' && "i32"@[1] == '3');
    assert("f32"@.len() == 3 && "f32"@[0] == 'f' && "f32"@[1] == '3');
    assert("i64"@.len() == 3 && "i64"@[0] == 'i' && "i64"@[1] == '6');
    assert("f64"@.len() == 3 && "f64"@[0] == 'f' && "f64"@[1] == '6');
}

/// `2` to the power `n`.
pub open spec fn two_pow(n: nat) -> nat
    decreases n,
{
    if n == 0 {
        1
    } else {
        2 * two_pow((n - 1) as nat)
    }
}

/// The low `bits` bits of `u` read as a two's-complement number.
pub open spec fn sign_extend(u: nat, bits: nat) -> int {
    let m = u % two_pow(bits);
    if bits > 0 && m >= two_pow((bits - 1) as nat) {
        m - two_pow(bits)
    } else {
        m as int
    }
}

/// The text of `parse_hex_signed` once a `0x`/`0X` prefix is dropped.
pub open spec fn hex_signed_body(t: Seq<char>) -> Seq<char> {
    strip_hex_prefix(t)
}

/// What `parse_hex_signed` gives for `t` and `bits`: a `-` followed by a hexadecimal `i64`
/// is negated; otherwise a hexadecimal `u64` whose low `bits` bits are sign-extended.
pub open spec fn hex_signed_spec(t: Seq<char>, bits: nat) -> Option<int> {
    let body = hex_signed_body(t);
    if body.len() > 0 && body[0] == '-' {
        match i64_radix(body.drop_first(), 16) {
            Some(v) => if v == i64::MIN {
                None
            } else {
                Some(-v)
            },
            None => None,
        }
    } else {
        match u64_radix(body, 16) {
            Some(u) => if bits > 64 {
                None
            } else {
                Some(sign_extend(u as nat, bits))
            },
            None => None,
        }
    }
}

/// Whether `parse_hex_signed` shifts by the full width on `t`, which `0` bits asks for.
pub open spec fn hex_signed_shift_overflows(t: Seq<char>, bits: nat) -> bool {
    let body = hex_signed_body(t);
    bits == 0 && !(body.len() > 0 && body[0] == '-') && u64_radix(body, 16) is Some
}

proof fn lemma_two_pow_facts(n: nat)
    requires
        1 <= n <= 64,
    ensures
        two_pow(n) <= 0x1_0000_0000_0000_0000,
        two_pow(n) == 2 * two_pow((n - 1) as nat),
        two_pow((n - 1) as nat) >= 1,
{
    lemma_two_pow_mono(n, 64);
    lemma_two_pow_64();
    lemma_two_pow_mono(0, (n - 1) as nat);
}

proof fn lemma_two_pow_plus8(n: nat)
    ensures
        two_pow(n + 8) == 256 * two_pow(n),
{
    reveal_with_fuel(two_pow, 9);
}

proof fn lemma_two_pow_64()
    ensures
        two_pow(64) == 0x1_0000_0000_0000_0000,
{
    reveal_with_fuel(two_pow, 2);
    lemma_two_pow_plus8(0);
    lemma_two_pow_plus8(8);
    lemma_two_pow_plus8(16);
    lemma_two_pow_plus8(24);
    lemma_two_pow_plus8(32);
    lemma_two_pow_plus8(40);
    lemma_two_pow_plus8(48);
    lemma_two_pow_plus8(56);
}

/// `2^n` is at most `2^56` for `n <= 56`.
pub proof fn lemma_two_pow_le_56(n: nat)
    requires
        n <= 56,
    ensures
        two_pow(n) <= 0x100_0000_0000_0000,
{
    lemma_two_pow_mono(n, 56);
    reveal_with_fuel(two_pow, 2);
    lemma_two_pow_plus8(0);
    lemma_two_pow_plus8(8);
    lemma_two_pow_plus8(16);
    lemma_two_pow_plus8(24);
    lemma_two_pow_plus8(32);
    lemma_two_pow_plus8(40);
    lemma_two_pow_plus8(48);
}

proof fn lemma_two_pow_mono(n: nat, m: nat)
    requires
        n <= m,
    ensures
        two_pow(n) <= two_pow(m),
    decreases m,
{
    if n < m {
        lemma_two_pow_mono(n, (m - 1) as nat);
    }
}

/// Sign-extends the low `bits` bits of `u`.
fn sign_extend_exec(u: u64, bits: u32) -> (r: i64)
    requires
        1 <= bits <= 64,
    ensures
        r as int == sign_extend(u as nat, bits as nat),
{
    let mut p: u128 = 1;
    let mut i: u32 = 0;
    while i < bits
        invariant
            i <= bits <= 64,
            p as nat == two_pow(i as nat),
            p <= 0x1_0000_0000_0000_0000,
        decreases bits - i,
    {
        proof {
            lemma_two_pow_facts((i + 1) as nat);
        }
        p = p * 2;
        i = i + 1;
    }
    proof {
        lemma_two_pow_facts(bits as nat);
    }
    let m: u128 = (u as u128) % p;
    let half: u128 = p / 2;
    if m >= half {
        let r: i128 = (m as i128) - (p as i128);
        r as i64
    } else {
        assert(m < 0x8000_0000_0000_0000);
        m as i64
    }
}

/// Reads hexadecimal text as a signed value of `bits` bits: `FFFFFFFF` with 32 bits is -1,
/// and `-10` is -16.
pub fn parse_hex_signed(text: &str, bits: u32) -> (r: Option<i64>)
    requires
        !hex_signed_shift_overflows(text@, bits as nat),
    ensures
        match r {
            Some(x) => hex_signed_spec(text@, bits as nat) == Some(x as int),
            None => hex_signed_spec(text@, bits as nat) is None,
        },
{
    let v = chars_of(text);
    assert(v@.subrange(0, v@.len() as int) == v@);
    let n = v.len();
    let start = crate::text::skip_hex_prefix(&v, 0, n);
    let ghost body = v@.subrange(start as int, n as int);
    if start < n && v[start] == '-' {
        assert(body[0] == v@[start as int]);
        assert(body.drop_first() == v@.subrange(start + 1, n as int));
        let x = match parse_signed_radix(&v, start + 1, n, 16, i64::MIN, i64::MAX) {
            Some(x) => x,
            None => return None,
        };
        if x == i64::MIN {
            return None;
        }
        return Some(-x);
    }
    if start < n {
        assert(body[0] == v@[start as int]);
    }
    let unsigned = match parse_u64_radix(&v, start, n, 16) {
        Some(u) => u,
        None => return None,
    };
    if bits > 64 {
        return None;
    }
    Some(sign_extend_exec(unsigned, bits))
}

/// A scan value read straight from text.
pub open spec fn int_value(t: ScanValueType, v: int) -> ScanValue {
    match t {
        ScanValueType::I8 => ScanValue::I8(v as i8),
        ScanValueType::I16 => ScanValue::I16(v as i16),
        ScanValueType::I32 => ScanValue::I32(v as i32),
        ScanValueType::I64 => ScanValue::I64(v as i64),
        ScanValueType::F32 => ScanValue::F32(0),
        ScanValueType::F64 => ScanValue::F64(0),
    }
}

/// The width in bits of an integer value type.
pub open spec fn int_bits(t: ScanValueType) -> nat {
    match t {
        ScanValueType::I8 => 8,
        ScanValueType::I16 => 16,
        ScanValueType::I32 => 32,
        _ => 64,
    }
}

/// The range of an integer value type.
pub open spec fn int_min(t: ScanValueType) -> int {
    match t {
        ScanValueType::I8 => i8::MIN as int,
        ScanValueType::I16 => i16::MIN as int,
        ScanValueType::I32 => i32::MIN as int,
        _ => i64::MIN as int,
    }
}

pub open spec fn int_max(t: ScanValueType) -> int {
    match t {
        ScanValueType::I8 => i8::MAX as int,
        ScanValueType::I16 => i16::MAX as int,
        ScanValueType::I32 => i32::MAX as int,
        _ => i64::MAX as int,
    }
}

pub open spec fn is_float_type(t: ScanValueType) -> bool {
    t == ScanValueType::F32 || t == ScanValueType::F64
}

/// The characters allowed in a math expression typed as a scan value.
pub open spec fn is_expression_char(c: char) -> bool {
    is_ascii_digit(c) || is_ascii_ws(c) || c == '.' || is_operator_char(c)
}

/// The operator characters of a math expression.
pub open spec fn is_operator_char(c: char) -> bool {
    c == '+' || c == '-' || c == '*' || c == '/' || c == '^' || c == '(' || c == ')'
}

/// Whether `t` is a math expression: it uses an operator and nothing but digits,
/// ASCII whitespace, `.` and operators.
pub open spec fn is_math_expression(t: Seq<char>) -> bool {
    (exists|i: int| 0 <= i < t.len() && is_operator_char(#[trigger] t[i]))
        && (forall|i: int| 0 <= i < t.len() ==> is_expression_char(#[trigger] t[i]))
}

/// The scan-value text with surrounding whitespace trimmed and every `_` removed.
pub open spec fn scan_text(t: Seq<char>) -> Seq<char> {
    trim(t).filter(|c: char| c != '_')
}

/// The outcome of reading typed scan-value text.
#[derive(Debug, PartialEq, Eq)]
pub enum ScanParse {
    /// The text is the value.
    Parsed(ScanValue),
    /// The text is not a value of the type.
    Invalid,
    /// The text is a math expression for an integer type; its floating-point result,
    /// truncated, is the value when it lies in the type's range.
    Evaluate(String),
    /// The type is floating point: the text is read as a float, and, when that fails and
    /// `expression` is set, evaluated as a math expression.
    Float { text: String, expression: bool },
}

/// What `parse_scan_value` decides for text `t` of type `vt`.
pub open spec fn scan_parse_spec(t: Seq<char>, vt: ScanValueType, hex: bool) -> ScanParseModel {
    let c = scan_text(t);
    if is_float_type(vt) {
        ScanParseModel::Float(c, !hex && is_math_expression(c))
    } else {
        let direct = if hex {
            match hex_signed_spec(c, int_bits(vt)) {
                Some(v) => Some(int_value(vt, v)),
                None => None,
            }
        } else {
            match from_str_radix_spec(c, 10, true, int_min(vt), int_max(vt)) {
                Some(v) => Some(int_value(vt, v)),
                None => None,
            }
        };
        match direct {
            Some(v) => ScanParseModel::Parsed(v),
            None => if hex || !is_math_expression(c) {
                ScanParseModel::Invalid
            } else {
                ScanParseModel::Evaluate(c)
            },
        }
    }
}

/// `ScanParse` with its strings as character sequences.
pub enum ScanParseModel {
    Parsed(ScanValue),
    Invalid,
    Evaluate(Seq<char>),
    Float(Seq<char>, bool),
}

impl ScanParse {
    pub open spec fn model(&self) -> ScanParseModel {
        match self {
            ScanParse::Parsed(v) => ScanParseModel::Parsed(*v),
            ScanParse::Invalid => ScanParseModel::Invalid,
            ScanParse::Evaluate(s) => ScanParseModel::Evaluate(s@),
            ScanParse::Float { text, expression } => ScanParseModel::Float(text@, *expression),
        }
    }
}

/// The characters of `v[lo..hi]` without underscores.
fn drop_underscores(v: &Vec<char>, lo: usize, hi: usize) -> (out: Vec<char>)
    requires
        lo <= hi <= v@.len(),
    ensures
        out@ == v@.subrange(lo as int, hi as int).filter(|c: char| c != '_'),
{
    let ghost f = |c: char| c != '_';
    let mut out: Vec<char> = Vec::new();
    let mut i = lo;
    while i < hi
        invariant
            lo <= i <= hi <= v@.len(),
            f == (|c: char| c != '_'),
            out@ == v@.subrange(lo as int, i as int).filter(f),
        decreases hi - i,
    {
        let c = v[i];
        proof {
            let s = v@.subrange(lo as int, i + 1);
            assert(s.drop_last() == v@.subrange(lo as int, i as int));
            assert(s.last() == c);
            reveal_with_fuel(Seq::filter, 1);
        }
        if c != '_' {
            out.push(c);
        }
        i = i + 1;
    }
    out
}

/// Whether `c` is a math-expression operator.
fn is_operator_exec(c: char) -> (b: bool)
    ensures
        b == is_operator_char(c),
{
    c == '+' || c == '-' || c == '*' || c == '/' || c == '^' || c == '(' || c == ')'
}

/// Whether `v` is a math expression.
fn is_math_expression_exec(v: &Vec<char>) -> (b: bool)
    ensures
        b == is_math_expression(v@),
{
    let mut any_op = false;
    let mut i: usize = 0;
    while i < v.len()
        invariant
            i <= v@.len(),
            any_op == exists|k: int| 0 <= k < i && is_operator_char(#[trigger] v@[k]),
            forall|k: int| 0 <= k < i ==> is_expression_char(#[trigger] v@[k]),
        decreases v@.len() - i,
    {
        let c = v[i];
        let ok = ('0' <= c && c <= '9') || c == ' ' || c == '\t' || c == '\n' || c == '\u{c}' || c
            == '\r' || c == '.' || is_operator_exec(c);
        if !ok {
            assert(!is_expression_char(v@[i as int]));
            return false;
        }
        if is_operator_exec(c) {
            any_op = true;
        }
        i = i + 1;
    }
    any_op
}

/// Decides what typed scan-value text is: a value read directly (decimal, or hexadecimal
/// when `hex` is set), a math expression to evaluate, text for floating-point reading,
/// or invalid.
pub fn parse_scan_value(text: &str, value_type: ScanValueType, hex: bool) -> (r: ScanParse)
    ensures
        r.model() == scan_parse_spec(text@, value_type, hex),
{
    let v = chars_of(text);
    assert(v@.subrange(0, v@.len() as int) == v@);
    let (a, b) = trim_bounds(&v, 0, v.len());
    let c = drop_underscores(&v, a, b);
    assert(c@ == scan_text(text@));
    let n = c.len();
    assert(c@.subrange(0, n as int) == c@);
    match value_type {
        ScanValueType::F32 | ScanValueType::F64 => {
            let expression = !hex && is_math_expression_exec(&c);
            let s = string_of(&c, 0, n);
            return ScanParse::Float { text: s, expression };
        },
        _ => {},
    }
    let direct: Option<ScanValue> = if hex {
        let s = string_of(&c, 0, n);
        let bits: u32 = match value_type {
            ScanValueType::I8 => 8,
            ScanValueType::I16 => 16,
            ScanValueType::I32 => 32,
            _ => 64,
        };
        match parse_hex_signed(s.as_str(), bits) {
            Some(x) => Some(
                match value_type {
                    ScanValueType::I8 => ScanValue::I8(x as i8),
                    ScanValueType::I16 => ScanValue::I16(x as i16),
                    ScanValueType::I32 => ScanValue::I32(x as i32),
                    _ => ScanValue::I64(x),
                },
            ),
            None => None,
        }
    } else {
        let (min, max): (i64, i64) = match value_type {
            ScanValueType::I8 => (-128, 127),
            ScanValueType::I16 => (-32768, 32767),
            ScanValueType::I32 => (-2147483648, 2147483647),
            _ => (i64::MIN, i64::MAX),
        };
        match parse_signed_radix(&c, 0, n, 10, min, max) {
            Some(x) => Some(
                match value_type {
                    ScanValueType::I8 => ScanValue::I8(x as i8),
                    ScanValueType::I16 => ScanValue::I16(x as i16),
                    ScanValueType::I32 => ScanValue::I32(x as i32),
                    _ => ScanValue::I64(x),
                },
            ),
            None => None,
        }
    };
    match direct {
        Some(x) => ScanParse::Parsed(x),
        None => {
            if hex || !is_math_expression_exec(&c) {
                ScanParse::Invalid
            } else {
                ScanParse::Evaluate(string_of(&c, 0, n))
            }
        },
    }
}

/// The sign, exponent and fraction fields of an `f32` bit pattern.
pub open spec fn f32_is_nan(b: u32) -> bool {
    (b / 0x80_0000) % 0x100 == 0xFF && b % 0x80_0000 != 0
}

pub open spec fn f64_is_nan(b: u64) -> bool {
    (b / 0x10_0000_0000_0000) % 0x800 == 0x7FF && b % 0x10_0000_0000_0000 != 0
}

/// `a <= b` for floating-point values given by their sign bit and magnitude bits.
pub open spec fn float_le(a_neg: bool, a_mag: nat, b_neg: bool, b_mag: nat) -> bool {
    if !a_neg && !b_neg {
        a_mag <= b_mag
    } else if a_neg && b_neg {
        b_mag <= a_mag
    } else if a_neg {
        true
    } else {
        a_mag == 0 && b_mag == 0
    }
}

/// `a <= b` for two `f32` values given by their bits: false when either is NaN.
pub open spec fn f32_le(a: u32, b: u32) -> bool {
    !f32_is_nan(a) && !f32_is_nan(b) && float_le(
        a >= 0x8000_0000,
        (a % 0x8000_0000) as nat,
        b >= 0x8000_0000,
        (b % 0x8000_0000) as nat,
    )
}

/// `a <= b` for two `f64` values given by their bits: false when either is NaN.
pub open spec fn f64_le(a: u64, b: u64) -> bool {
    !f64_is_nan(a) && !f64_is_nan(b) && float_le(
        a >= 0x8000_0000_0000_0000,
        (a % 0x8000_0000_0000_0000) as nat,
        b >= 0x8000_0000_0000_0000,
        (b % 0x8000_0000_0000_0000) as nat,
    )
}

/// Whether `min <= max` for bounds of a `Between` scan: both of one type, and ordered.
pub open spec fn bounds_ordered(min: ScanValue, max: ScanValue) -> bool {
    match (min, max) {
        (ScanValue::I8(a), ScanValue::I8(b)) => a <= b,
        (ScanValue::I16(a), ScanValue::I16(b)) => a <= b,
        (ScanValue::I32(a), ScanValue::I32(b)) => a <= b,
        (ScanValue::F32(a), ScanValue::F32(b)) => f32_le(a, b),
        (ScanValue::I64(a), ScanValue::I64(b)) => a <= b,
        (ScanValue::F64(a), ScanValue::F64(b)) => f64_le(a, b),
        _ => false,
    }
}

fn float_le_exec(a_neg: bool, a_mag: u64, b_neg: bool, b_mag: u64) -> (r: bool)
    ensures
        r == float_le(a_neg, a_mag as nat, b_neg, b_mag as nat),
{
    if !a_neg && !b_neg {
        a_mag <= b_mag
    } else if a_neg && b_neg {
        b_mag <= a_mag
    } else if a_neg {
        true
    } else {
        a_mag == 0 && b_mag == 0
    }
}

/// Whether the bounds of a `Between` scan are ordered (`min <= max`) and of one type.
pub fn scan_bounds_are_ordered(min: ScanValue, max: ScanValue) -> (r: bool)
    ensures
        r == bounds_ordered(min, max),
{
    match (min, max) {
        (ScanValue::I8(a), ScanValue::I8(b)) => a <= b,
        (ScanValue::I16(a), ScanValue::I16(b)) => a <= b,
        (ScanValue::I32(a), ScanValue::I32(b)) => a <= b,
        (ScanValue::F32(a), ScanValue::F32(b)) => {
            let a_nan = (a / 0x80_0000) % 0x100 == 0xFF && a % 0x80_0000 != 0;
            let b_nan = (b / 0x80_0000) % 0x100 == 0xFF && b % 0x80_0000 != 0;
            !a_nan && !b_nan && float_le_exec(
                a >= 0x8000_0000,
                (a % 0x8000_0000) as u64,
                b >= 0x8000_0000,
                (b % 0x8000_0000) as u64,
            )
        },
        (ScanValue::I64(a), ScanValue::I64(b)) => a <= b,
        (ScanValue::F64(a), ScanValue::F64(b)) => {
            let a_nan = (a / 0x10_0000_0000_0000) % 0x800 == 0x7FF && a % 0x10_0000_0000_0000 != 0;
            let b_nan = (b / 0x10_0000_0000_0000) % 0x800 == 0x7FF && b % 0x10_0000_0000_0000 != 0;
            !a_nan && !b_nan && float_le_exec(
                a >= 0x8000_0000_0000_0000,
                a % 0x8000_0000_0000_0000,
                b >= 0x8000_0000_0000_0000,
                b % 0x8000_0000_0000_0000,
            )
        },
        _ => false,
    }
}

/// The hexadecimal text of a scan value: `0x` and the two's-complement (or IEEE-754) bits
/// padded to the type's width.
pub open spec fn scan_hex_text(v: ScanValue) -> Seq<char> {
    match v {
        ScanValue::I8(x) => seq!['0', 'x'] + hex_padded((x as u8) as nat, 2),
        ScanValue::I16(x) => seq!['0', 'x'] + hex_padded((x as u16) as nat, 4),
        ScanValue::I32(x) => seq!['0', 'x'] + hex_padded((x as u32) as nat, 8),
        ScanValue::I64(x) => seq!['0', 'x'] + hex_padded((x as u64) as nat, 16),
        ScanValue::F32(b) => seq!['0', 'x'] + hex_padded(b as nat, 8),
        ScanValue::F64(b) => seq!['0', 'x'] + hex_padded(b as nat, 16),
    }
}

/// What `format_scan_value` writes: hexadecimal text when `hex` is set, decimal text for
/// integers otherwise, and `None` for a float in decimal, whose compact rendering the
/// caller does in floating point.
pub open spec fn scan_text_spec(v: ScanValue, hex: bool) -> Option<Seq<char>> {
    if hex {
        Some(scan_hex_text(v))
    } else {
        match v {
            ScanValue::I8(x) => Some(signed_dec(x as int)),
            ScanValue::I16(x) => Some(signed_dec(x as int)),
            ScanValue::I32(x) => Some(signed_dec(x as int)),
            ScanValue::I64(x) => Some(signed_dec(x as int)),
            _ => None,
        }
    }
}

fn prefixed_hex(n: u64, width: usize) -> (s: String)
    ensures
        s@ == seq!['0', 'x'] + hex_padded(n as nat, width as nat),
{
    let body = format_hex(n, width);
    let mut s = String::new();
    push_char(&mut s, '0');
    push_char(&mut s, 'x');
    push_str(&mut s, body.as_str());
    assert(s@ =~= seq!['0', 'x'] + hex_padded(n as nat, width as nat));
    s
}

/// Writes a scan value as text; a float in decimal gives `None`.
pub fn format_scan_value(value: ScanValue, hex: bool) -> (r: Option<String>)
    ensures
        match r {
            Some(s) => scan_text_spec(value, hex) == Some(s@),
            None => scan_text_spec(value, hex) is None,
        },
{
    if hex {
        Some(
            match value {
                ScanValue::I8(x) => prefixed_hex((x as u8) as u64, 2),
                ScanValue::I16(x) => prefixed_hex((x as u16) as u64, 4),
                ScanValue::I32(x) => prefixed_hex((x as u32) as u64, 8),
                ScanValue::I64(x) => prefixed_hex(x as u64, 16),
                ScanValue::F32(b) => prefixed_hex(b as u64, 8),
                ScanValue::F64(b) => prefixed_hex(b, 16),
            },
        )
    } else {
        match value {
            ScanValue::I8(x) => Some(format_i64_dec(x as i64)),
            ScanValue::I16(x) => Some(format_i64_dec(x as i64)),
            ScanValue::I32(x) => Some(format_i64_dec(x as i64)),
            ScanValue::I64(x) => Some(format_i64_dec(x)),
            _ => None,
        }
    }
}

/// The formatted value without its `0x` prefix.
pub open spec fn editable_text_spec(v: ScanValue, hex: bool) -> Option<Seq<char>> {
    match scan_text_spec(v, hex) {
        Some(s) => Some(if s.len() >= 2 && s[0] == '0' && s[1] == 'x' {
            s.subrange(2, s.len() as int)
        } else {
            s
        }),
        None => None,
    }
}

/// The value as text for editing: the formatted value without its `0x` prefix.
pub fn editable_scan_value(value: ScanValue, hex: bool) -> (r: Option<String>)
    ensures
        match r {
            Some(s) => editable_text_spec(value, hex) == Some(s@),
            None => editable_text_spec(value, hex) is None,
        },
{
    match format_scan_value(value, hex) {
        None => None,
        Some(s) => {
            let v = chars_of(s.as_str());
            let n = v.len();
            if n >= 2 && v[0] == '0' && v[1] == 'x' {
                Some(string_of(&v, 2, n))
            } else {
                assert(v@.subrange(0, n as int) == v@);
                Some(string_of(&v, 0, n))
            }
        },
    }
}

/// The value type of a scan value.
pub open spec fn value_type_of(v: ScanValue) -> ScanValueType {
    match v {
        ScanValue::I8(_) => ScanValueType::I8,
        ScanValue::I16(_) => ScanValueType::I16,
        ScanValue::I32(_) => ScanValueType::I32,
        ScanValue::F32(_) => ScanValueType::F32,
        ScanValue::I64(_) => ScanValueType::I64,
        ScanValue::F64(_) => ScanValueType::F64,
    }
}

/// The integer an integer scan value holds.
pub open spec fn int_of(v: ScanValue) -> int {
    match v {
        ScanValue::I8(x) => x as int,
        ScanValue::I16(x) => x as int,
        ScanValue::I32(x) => x as int,
        ScanValue::I64(x) => x as int,
        _ => 0,
    }
}

/// Dropping underscores leaves text without them alone.
proof fn lemma_underscore_filter_noop(s: Seq<char>)
    requires
        forall|i: int| 0 <= i < s.len() ==> #[trigger] s[i] != '_',
    ensures
        s.filter(|c: char| c != '_') == s,
    decreases s.len(),
{
    reveal_with_fuel(Seq::filter, 1);
    if s.len() > 0 {
        let d = s.drop_last();
        assert forall|i: int| 0 <= i < d.len() implies #[trigger] d[i] != '_' by {
            assert(d[i] == s[i]);
        }
        lemma_underscore_filter_noop(d);
        assert(s.last() == s[s.len() - 1]);
        assert(d.push(s.last()) == s);
    }
}

/// Text made of hexadecimal digits, `-` and decimal digits is its own scan text.
proof fn lemma_scan_text_noop(s: Seq<char>)
    requires
        s.len() > 0,
        forall|i: int| 0 <= i < s.len() ==> (#[trigger] s[i] == '-' || crate::address::plain_hex_char(s[i])),
    ensures
        scan_text(s) == s,
{
    crate::address::lemma_trim_noop(s);
    assert(s[s.len() - 1] == s.last());
    assert forall|i: int| 0 <= i < s.len() implies #[trigger] s[i] != '_' by {}
    lemma_underscore_filter_noop(s);
}

/// The decimal text of an integer reads back as that integer.
proof fn lemma_signed_dec_reads_back(x: int, min: int, max: int)
    requires
        min <= x <= max,
    ensures
        from_str_radix_spec(signed_dec(x), 10, true, min, max) == Some(x),
        signed_dec(x).len() > 0,
        forall|i: int| 0 <= i < signed_dec(x).len() ==> (#[trigger] signed_dec(x)[i] == '-' || crate::address::plain_hex_char(signed_dec(x)[i])),
{
    let t = signed_dec(x);
    if x < 0 {
        let d = dec_digits((-x) as nat);
        crate::number::lemma_dec_digits_value((-x) as nat);
        assert(t.drop_first() == d);
        assert forall|i: int| 0 <= i < t.len() implies (#[trigger] t[i] == '-' || crate::address::plain_hex_char(t[i])) by {
            if i > 0 {
                assert(t[i] == d[i - 1]);
            }
        }
    } else {
        crate::number::lemma_dec_digits_value(x as nat);
        assert('0' <= t[0] <= '9');
    }
}

/// The low `bits` bits of a value of a `bits`-wide integer type, sign-extended, give the
/// value back.
proof fn lemma_sign_extend_wrapped(x: int, u: nat, bits: nat)
    requires
        1 <= bits <= 64,
        -(two_pow((bits - 1) as nat) as int) <= x < two_pow((bits - 1) as nat),
        u == (if x < 0 {
            x + two_pow(bits)
        } else {
            x
        }),
    ensures
        sign_extend(u, bits) == x,
{
    lemma_two_pow_facts(bits);
    assert(0 <= u < two_pow(bits));
    assert(u % two_pow(bits) == u) by {
        vstd::arithmetic::div_mod::lemma_small_mod(u, two_pow(bits));
    }
}

/// The hexadecimal text of a scan value's bits, read back, gives the value.
proof fn lemma_hex_text_reads_back(v: ScanValue)
    requires
        !is_float_type(value_type_of(v)),
    ensures
        ({
            let t = scan_hex_text(v).subrange(2, scan_hex_text(v).len() as int);
            &&& hex_signed_spec(t, int_bits(value_type_of(v))) == Some(int_of(v))
            &&& hex_signed_spec(scan_hex_text(v), int_bits(value_type_of(v))) == Some(int_of(v))
            &&& t.len() > 0
            &&& forall|i: int| 0 <= i < t.len() ==> crate::address::plain_hex_char(#[trigger] t[i])
        }),
{
    let (u, w, bits): (nat, nat, nat) = match v {
        ScanValue::I8(x) => ((x as u8) as nat, 2, 8),
        ScanValue::I16(x) => ((x as u16) as nat, 4, 16),
        ScanValue::I32(x) => ((x as u32) as nat, 8, 32),
        _ => (((int_of(v)) as i64 as u64) as nat, 16, 64),
    };
    let x = int_of(v);
    let h = crate::number::hex_padded(u, w);
    assert(scan_hex_text(v) == seq!['0', 'x'] + h);
    assert(scan_hex_text(v).subrange(2, scan_hex_text(v).len() as int) == h);
    crate::number::lemma_hex_padded_value(u, w);
    crate::address::lemma_hex_padded_plain(u, w);
    reveal_with_fuel(two_pow, 9);
    lemma_two_pow_facts(16);
    lemma_two_pow_facts(32);
    lemma_two_pow_facts(64);
    lemma_two_pow_plus8(8);
    lemma_two_pow_plus8(16);
    lemma_two_pow_plus8(24);
    lemma_two_pow_64();
    lemma_two_pow_plus8(48);
    lemma_two_pow_plus8(56);
    match v {
        ScanValue::I8(y) => {
            assert((y as u8) as int == if y < 0 { y + 256 } else { y as int }) by (bit_vector);
            lemma_sign_extend_wrapped(x, u, 8);
        },
        ScanValue::I16(y) => {
            assert((y as u16) as int == if y < 0 { y + 65536 } else { y as int }) by (bit_vector);
            lemma_sign_extend_wrapped(x, u, 16);
        },
        ScanValue::I32(y) => {
            assert((y as u32) as int == if y < 0 { y + 0x1_0000_0000 } else { y as int }) by (bit_vector);
            lemma_sign_extend_wrapped(x, u, 32);
        },
        ScanValue::I64(y) => {
            assert((y as u64) as int == if y < 0 { y + 0x1_0000_0000_0000_0000 } else { y as int }) by (bit_vector);
            lemma_sign_extend_wrapped(x, u, 64);
        },
        _ => {},
    }
    assert(h[0] != '-');
    assert(crate::address::plain_hex_char(h[1]) || h.len() < 2);
    assert(hex_signed_body(h) == h);
    assert(hex_signed_body(seq!['0', 'x'] + h) == h) by {
        assert((seq!['0', 'x'] + h).subrange(2, h.len() + 2int) == h);
    }
    assert(u64_radix(h, 16) == Some(u as int)) by {
        assert(crate::address::plain_hex_char(h[0]));
    }
}

/// An integer value is the value its type gives its integer.
proof fn lemma_int_value_of(v: ScanValue)
    requires
        !is_float_type(value_type_of(v)),
    ensures
        int_value(value_type_of(v), int_of(v)) == v,
{
}

/// Hexadecimal text that reads as the integer of `v` in hexadecimal mode parses to `v`.
proof fn lemma_hex_parse(v: ScanValue, t: Seq<char>)
    requires
        !is_float_type(value_type_of(v)),
        scan_text(t) == t,
        hex_signed_spec(t, int_bits(value_type_of(v))) == Some(int_of(v)),
    ensures
        scan_parse_spec(t, value_type_of(v), true) == ScanParseModel::Parsed(v),
{
    lemma_int_value_of(v);
}

/// The hexadecimal texts of an integer value read back in hexadecimal mode.
proof fn lemma_edit_hex_reads_back(v: ScanValue)
    requires
        !is_float_type(value_type_of(v)),
    ensures
        scan_parse_spec(scan_hex_text(v), value_type_of(v), true) == ScanParseModel::Parsed(v),
        scan_parse_spec(scan_hex_text(v).subrange(2, scan_hex_text(v).len() as int), value_type_of(v), true) == ScanParseModel::Parsed(v),
{
    lemma_hex_text_reads_back(v);
    let full = scan_hex_text(v);
    let t = full.subrange(2, full.len() as int);
    lemma_scan_text_noop(t);
    lemma_hex_parse(v, t);
    assert(full == seq!['0', 'x'] + t);
    crate::address::lemma_trim_noop(full);
    assert forall|i: int| 0 <= i < full.len() implies #[trigger] full[i] != '_' by {
        if i >= 2 {
            assert(full[i] == t[i - 2]);
        }
    }
    lemma_underscore_filter_noop(full);
    lemma_hex_parse(v, full);
}

/// The decimal text of an integer value reads back in decimal mode.
proof fn lemma_edit_dec_reads_back(v: ScanValue)
    requires
        !is_float_type(value_type_of(v)),
    ensures
        scan_parse_spec(signed_dec(int_of(v)), value_type_of(v), false) == ScanParseModel::Parsed(v),
{
    let vt = value_type_of(v);
    let x = int_of(v);
    lemma_signed_dec_reads_back(x, int_min(vt), int_max(vt));
    lemma_scan_text_noop(signed_dec(x));
}

/// What the value editor shows for an integer value reads back as that value, and so
/// does the value as displayed: in decimal, or in hexadecimal with or without `0x`.
pub proof fn lemma_edit_text_reads_back(v: ScanValue, hex: bool)
    requires
        !is_float_type(value_type_of(v)),
    ensures
        editable_text_spec(v, hex) is Some,
        scan_parse_spec(editable_text_spec(v, hex).unwrap(), value_type_of(v), hex) == ScanParseModel::Parsed(v),
        scan_text_spec(v, hex) is Some,
        scan_parse_spec(scan_text_spec(v, hex).unwrap(), value_type_of(v), hex) == ScanParseModel::Parsed(v),
{
    if hex {
        lemma_edit_hex_reads_back(v);
        let full = scan_hex_text(v);
        assert(full[0] == '0' && full[1] == 'x');
    } else {
        lemma_edit_dec_reads_back(v);
        lemma_signed_dec_reads_back(int_of(v), int_min(value_type_of(v)), int_max(value_type_of(v)));
        let t = signed_dec(int_of(v));
        if t.len() >= 2 && t[0] == '0' {
            assert(t[1] != 'x');
        }
    }
}

/// The place of a non-NaN `f32`, given by its bits, on the number line as an integer:
/// the magnitude bits grow with the magnitude, a negative value lies below zero, and both
/// zeros lie at 0.
pub open spec fn f32_rank(b: u32) -> int {
    if b >= 0x8000_0000 {
        0 - (b - 0x8000_0000)
    } else {
        b as int
    }
}

/// The place of a non-NaN `f64`, given by its bits, on the number line as an integer.
pub open spec fn f64_rank(b: u64) -> int {
    if b >= 0x8000_0000_0000_0000 {
        0 - (b - 0x8000_0000_0000_0000)
    } else {
        b as int
    }
}

/// Float `Between` bounds are ordered exactly when the lower bound's value is at most the
/// upper bound's: two negative bounds order by falling magnitude, a negative bound lies
/// below a positive one, and the two zeros are equal.
pub proof fn lemma_float_bounds_follow_value_order(a: u32, b: u32, c: u64, d: u64)
    requires
        !f32_is_nan(a),
        !f32_is_nan(b),
        !f64_is_nan(c),
        !f64_is_nan(d),
    ensures
        bounds_ordered(ScanValue::F32(a), ScanValue::F32(b)) <==> f32_rank(a) <= f32_rank(b),
        bounds_ordered(ScanValue::F64(c), ScanValue::F64(d)) <==> f64_rank(c) <= f64_rank(d),
{
}

} // verus!
