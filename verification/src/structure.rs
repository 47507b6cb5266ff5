//! Structure dissection: field types, automatic field guessing from raw bytes, field and
//! memory-view rendering, module lookup and MSVC RTTI class names.
use vstd::prelude::*;
use crate::text::{chars_of, push_char, push_chars, push_str, split_fields, split_ranges, string_of};
use crate::number::{dec_digits, format_hex, hex_digits, hex_padded, push_dec_digits, push_hex_digits, signed_dec, format_i64_dec, format_u64_dec};
use crate::scan::{ScanValueType, str_eq};

verus! {

/// The type of a field in the structure view.
#[derive(Clone, Copy, Debug, PartialEq, Eq, Structural)]
pub enum StructureElementType {
    Byte,
    I16,
    I32,
    I64,
    Float,
    Double,
    Pointer,
}

/// The label of a field type, as the type selector lists it.
pub open spec fn element_label(t: StructureElementType) -> Seq<char> {
    match t {
        StructureElementType::Byte => "Byte"@,
        StructureElementType::I16 => "2 Bytes"@,
        StructureElementType::I32 => "4 Bytes"@,
        StructureElementType::I64 => "8 Bytes"@,
        StructureElementType::Float => "Float"@,
        StructureElementType::Double => "Double"@,
        StructureElementType::Pointer => "Pointer"@,
    }
}

/// The width in bytes of a field type; a pointer is as wide as the target's pointers.
pub open spec fn element_width(t: StructureElementType, pointer_width: usize) -> usize {
    match t {
        StructureElementType::Byte => 1,
        StructureElementType::I16 => 2,
        StructureElementType::I32 | StructureElementType::Float => 4,
        StructureElementType::I64 | StructureElementType::Double => 8,
        StructureElementType::Pointer => pointer_width,
    }
}

impl StructureElementType {
    /// Every field type with its label, in selector order.
    pub fn all_types() -> (r: [(StructureElementType, &'static str); 7])
        ensures
            r@.len() == 7,
            r@[0].0 == StructureElementType::Byte && r@[1].0 == StructureElementType::I16
                && r@[2].0 == StructureElementType::I32 && r@[3].0 == StructureElementType::I64
                && r@[4].0 == StructureElementType::Float && r@[5].0 == StructureElementType::Double
                && r@[6].0 == StructureElementType::Pointer,
            forall|i: int| 0 <= i < 7 ==> (#[trigger] r@[i]).1@ == element_label(r@[i].0),
    {
        [
            (StructureElementType::Byte, "Byte"),
            (StructureElementType::I16, "2 Bytes"),
            (StructureElementType::I32, "4 Bytes"),
            (StructureElementType::I64, "8 Bytes"),
            (StructureElementType::Float, "Float"),
            (StructureElementType::Double, "Double"),
            (StructureElementType::Pointer, "Pointer"),
        ]
    }

    /// The label of the field type.
    pub fn label(self) -> (s: &'static str)
        ensures
            s@ == element_label(self),
    {
        match self {
            StructureElementType::Byte => "Byte",
            StructureElementType::I16 => "2 Bytes",
            StructureElementType::I32 => "4 Bytes",
            StructureElementType::I64 => "8 Bytes",
            StructureElementType::Float => "Float",
            StructureElementType::Double => "Double",
            StructureElementType::Pointer => "Pointer",
        }
    }

    /// The width of the field in bytes.
    pub fn width(self, pointer_width: usize) -> (w: usize)
        ensures
            w == element_width(self, pointer_width),
    {
        match self {
            StructureElementType::Byte => 1,
            StructureElementType::I16 => 2,
            StructureElementType::I32 | StructureElementType::Float => 4,
            StructureElementType::I64 | StructureElementType::Double => 8,
            StructureElementType::Pointer => pointer_width,
        }
    }

    /// The scan type used to read or write the field: a 4-byte pointer reads as `I32`,
    /// any other pointer as `I64`.
    pub fn scan_type(self, pointer_width: usize) -> (t: ScanValueType)
        ensures
            t == (match self {
                StructureElementType::Float => ScanValueType::F32,
                StructureElementType::Double => ScanValueType::F64,
                StructureElementType::I64 => ScanValueType::I64,
                StructureElementType::Pointer => if pointer_width == 4 {
                    ScanValueType::I32
                } else {
                    ScanValueType::I64
                },
                StructureElementType::Byte => ScanValueType::I8,
                StructureElementType::I16 => ScanValueType::I16,
                StructureElementType::I32 => ScanValueType::I32,
            }),
    {
        match self {
            StructureElementType::Float => ScanValueType::F32,
            StructureElementType::Double => ScanValueType::F64,
            StructureElementType::I64 => ScanValueType::I64,
            StructureElementType::Pointer => if pointer_width == 4 {
                ScanValueType::I32
            } else {
                ScanValueType::I64
            },
            StructureElementType::Byte => ScanValueType::I8,
            StructureElementType::I16 => ScanValueType::I16,
            StructureElementType::I32 => ScanValueType::I32,
        }
    }
}

/// A row of the structure view.
pub struct StructureElement {
    pub offset: usize,
    pub value_type: StructureElementType,
    pub name: String,
    /// The RTTI class name found for a pointer field: `None` before a lookup, an empty
    /// name when none was found.
    pub detected_class: Option<String>,
    pub expanded: bool,
    pub child_elements: Vec<StructureElement>,
}

/// The generated name of the field at `offset`: `field_` and four or more hexadecimal digits.
pub open spec fn field_name(offset: usize) -> Seq<char> {
    "field_"@ + hex_padded(offset as nat, 4)
}

/// The generated name of the field at `offset`.
pub fn default_field_name(offset: usize) -> (s: String)
    ensures
        s@ == field_name(offset),
{
    let mut s = String::new();
    push_str(&mut s, "field_");
    let digits = format_hex(offset as u64, 4);
    push_str(&mut s, digits.as_str());
    s
}

/// A fresh field row of type `value_type` at `offset`.
fn new_element(offset: usize, value_type: StructureElementType) -> (e: StructureElement)
    ensures
        e.offset == offset,
        e.value_type == value_type,
        e.name@ == field_name(offset),
        e.detected_class is None,
        !e.expanded,
        e.child_elements@.len() == 0,
{
    StructureElement {
        offset,
        value_type,
        name: default_field_name(offset),
        detected_class: None,
        expanded: false,
        child_elements: Vec::new(),
    }
}

/// Whether `r` holds the starting rows of a structure view: 4-byte integers every 4 bytes
/// up to 512 bytes, with generated names.
pub open spec fn default_elements(r: Seq<StructureElement>) -> bool {
    &&& r.len() == 128
    &&& forall|i: int| 0 <= i < 128 ==> (#[trigger] r[i]).offset == 4 * i
        && r[i].value_type == StructureElementType::I32 && r[i].name@ == field_name(r[i].offset)
        && r[i].detected_class is None && !r[i].expanded && r[i].child_elements@.len() == 0
}

/// The starting rows of a structure view: 4-byte integers every 4 bytes up to 512 bytes.
pub fn default_structure_elements() -> (r: Vec<StructureElement>)
    ensures
        default_elements(r@),
{
    let mut r: Vec<StructureElement> = Vec::new();
    let mut offset: usize = 0;
    while offset < 512
        invariant
            offset % 4 == 0,
            offset <= 512,
            r@.len() == offset / 4,
            forall|i: int| 0 <= i < r@.len() ==> (#[trigger] r@[i]).offset == 4 * i
                && r@[i].value_type == StructureElementType::I32 && r@[i].name@ == field_name(r@[i].offset)
                && r@[i].detected_class is None && !r@[i].expanded && r@[i].child_elements@.len() == 0,
        decreases 512 - offset,
    {
        r.push(new_element(offset, StructureElementType::I32));
        offset = offset + 4;
    }
    r
}

/// The type part of a row description.
pub open spec fn element_type_desc(e: StructureElement) -> Seq<char> {
    match e.value_type {
        StructureElementType::Pointer => match e.detected_class {
            Some(name) => if name@.len() > 0 {
                "Pointer to instance of "@ + name@
            } else {
                "Pointer"@
            },
            None => "Pointer"@,
        },
        _ => element_label(e.value_type),
    }
}

/// The row description `+OFFSET - type` with ` (name)` when the user renamed the field.
pub open spec fn element_description(e: StructureElement) -> Seq<char> {
    let name_part = if e.name@.len() > 0 && e.name@ != field_name(e.offset) {
        " ("@ + e.name@ + ")"@
    } else {
        Seq::empty()
    };
    "+"@ + hex_padded(e.offset as nat, 4) + " - "@ + element_type_desc(e) + name_part
}

/// A row description such as `+0000 - Pointer to instance of CPlayer` or `+000C - Float`.
pub fn ce_element_description(element: &StructureElement) -> (s: String)
    ensures
        s@ == element_description(*element),
{
    let mut s = String::new();
    push_str(&mut s, "+");
    let off = format_hex(element.offset as u64, 4);
    push_str(&mut s, off.as_str());
    push_str(&mut s, " - ");
    match element.value_type {
        StructureElementType::Pointer => {
            match &element.detected_class {
                Some(name) => {
                    if name.as_str().unicode_len() > 0 {
                        push_str(&mut s, "Pointer to instance of ");
                        push_str(&mut s, name.as_str());
                    } else {
                        push_str(&mut s, "Pointer");
                    }
                },
                None => {
                    push_str(&mut s, "Pointer");
                },
            }
        },
        _ => {
            push_str(&mut s, element.value_type.label());
        },
    }
    let default_name = default_field_name(element.offset);
    if element.name.as_str().unicode_len() > 0 && !str_eq(element.name.as_str(), default_name.as_str()) {
        push_str(&mut s, " (");
        push_str(&mut s, element.name.as_str());
        push_str(&mut s, ")");
    }
    s
}

/// The little-endian value of `bytes`.
pub open spec fn le_value(bytes: Seq<u8>) -> nat
    decreases bytes.len(),
{
    if bytes.len() == 0 {
        0
    } else {
        bytes[0] as nat + 256 * le_value(bytes.drop_first())
    }
}

pub proof fn lemma_le_value_bound(bytes: Seq<u8>)
    ensures
        bytes.len() <= 8 ==> le_value(bytes) < crate::scan::two_pow(8 * bytes.len()),
    decreases bytes.len(),
{
    if bytes.len() > 0 && bytes.len() <= 8 {
        lemma_le_value_bound(bytes.drop_first());
        lemma_two_pow_shift8((8 * (bytes.len() - 1)) as nat);
    }
}

/// `2^32` is the bound of 4-byte values.
pub proof fn lemma_two_pow_32()
    ensures
        crate::scan::two_pow(32) == 0x1_0000_0000,
{
    reveal_with_fuel(crate::scan::two_pow, 2);
    lemma_two_pow_shift8(0);
    lemma_two_pow_shift8(8);
    lemma_two_pow_shift8(16);
    lemma_two_pow_shift8(24);
}

proof fn lemma_two_pow_shift8(n: nat)
    ensures
        crate::scan::two_pow(n + 8) == 256 * crate::scan::two_pow(n),
{
    reveal_with_fuel(crate::scan::two_pow, 9);
}

/// The little-endian value of `bytes[lo..hi]` for at most 8 bytes.
pub fn le_u64(bytes: &[u8], lo: usize, hi: usize) -> (v: u64)
    requires
        lo <= hi <= bytes@.len(),
        hi - lo <= 8,
    ensures
        v as nat == le_value(bytes@.subrange(lo as int, hi as int)),
{
    let mut v: u64 = 0;
    let mut i = hi;
    while i > lo
        invariant
            lo <= i <= hi <= bytes@.len(),
            hi - lo <= 8,
            v as nat == le_value(bytes@.subrange(i as int, hi as int)),
        decreases i - lo,
    {
        let ghost s = bytes@.subrange(i - 1, hi as int);
        assert(s.drop_first() == bytes@.subrange(i as int, hi as int));
        proof {
            lemma_le_value_bound(bytes@.subrange(i as int, hi as int));
            crate::scan::lemma_two_pow_le_56((8 * (hi - i)) as nat);
            assert(v < 0x100_0000_0000_0000);
        }
        v = (bytes[i - 1] as u64) + 256 * v;
        i = i - 1;
    }
    v
}

/// Reads a 4- or 8-byte little-endian pointer; other lengths give `None`.
pub fn decode_pointer(bytes: &[u8]) -> (r: Option<usize>)
    ensures
        r == (if bytes@.len() == 4 || bytes@.len() == 8 {
            Some(le_value(bytes@) as usize)
        } else {
            None::<usize>
        }),
{
    let n = bytes.len();
    if n == 4 || n == 8 {
        let v = le_u64(bytes, 0, n);
        assert(bytes@.subrange(0, n as int) == bytes@);
        Some(v as usize)
    } else {
        None
    }
}

/// Whether the `f32` with bits `b` is a normal number of magnitude at most 1e6:
/// exponent field neither 0 nor all ones, and magnitude bits at most those of 1e6
/// (`0x4974_2400`).
pub open spec fn f32_bits_plausible(b: nat) -> bool {
    let mag = b % 0x8000_0000;
    let exp = mag / 0x80_0000;
    1 <= exp && exp <= 254 && mag <= 0x4974_2400
}

/// The highest user-space address for a pointer width.
pub open spec fn max_user_address(pointer_width: usize) -> nat {
    if pointer_width == 8 {
        0x7FFF_FFFF_FFFF
    } else {
        0xFFFF_FFFF
    }
}

/// The type guessed for the field at `offset` of `bytes`: a pointer when the bytes there
/// decode to an aligned user-space address, a float when they are a plausible `f32`,
/// a 4-byte integer otherwise.
pub open spec fn guessed_type(bytes: Seq<u8>, offset: int, pointer_width: usize) -> StructureElementType {
    let pw = pointer_width as int;
    if (pw == 4 || pw == 8) && offset + pw <= bytes.len() && ({
        let v = (le_value(bytes.subrange(offset, offset + pw)) as usize) as nat;
        0x1_0000 <= v && v <= max_user_address(pointer_width) && v % (pw as nat) == 0
    }) {
        StructureElementType::Pointer
    } else if offset + 4 <= bytes.len() && f32_bits_plausible(le_value(bytes.subrange(offset, offset + 4))) {
        StructureElementType::Float
    } else {
        StructureElementType::I32
    }
}

/// A first guess at a structure's fields from its bytes, one row every 4 bytes.
pub fn auto_structure_elements(bytes: &[u8], pointer_width: usize) -> (r: Vec<StructureElement>)
    ensures
        r@.len() == (bytes@.len() + 3) / 4,
        forall|i: int| 0 <= i < r@.len() ==> (#[trigger] r@[i]).offset == 4 * i
            && r@[i].value_type == guessed_type(bytes@, 4 * i, pointer_width)
            && r@[i].name@ == field_name(r@[i].offset) && r@[i].detected_class is None
            && !r@[i].expanded && r@[i].child_elements@.len() == 0,
{
    let n = bytes.len();
    let count: usize = n / 4 + if n % 4 != 0 { 1 } else { 0 };
    assert(count == (n + 3) / 4);
    let mut r: Vec<StructureElement> = Vec::new();
    let mut k: usize = 0;
    while k < count
        invariant
            n == bytes@.len(),
            count == (n + 3) / 4,
            k <= count,
            r@.len() == k,
            forall|i: int| 0 <= i < r@.len() ==> (#[trigger] r@[i]).offset == 4 * i
                && r@[i].value_type == guessed_type(bytes@, 4 * i, pointer_width)
                && r@[i].name@ == field_name(r@[i].offset) && r@[i].detected_class is None
                && !r@[i].expanded && r@[i].child_elements@.len() == 0,
        decreases count - k,
    {
        let offset: usize = 4 * k;
        let pointer: Option<usize> = if (pointer_width == 4 || pointer_width == 8) && pointer_width <= n - offset {
            let v = le_u64(bytes, offset, offset + pointer_width);
            Some(v as usize)
        } else {
            None
        };
        let is_pointer = match pointer {
            Some(p) => 0x1_0000 <= (p as u64) && (p as u64) <= (if pointer_width == 8 { 0x7FFF_FFFF_FFFFu64 } else { 0xFFFF_FFFFu64 }) && p % pointer_width == 0,
            None => false,
        };
        let value_type = if is_pointer {
            StructureElementType::Pointer
        } else if 4 <= n - offset && {
            let b = le_u64(bytes, offset, offset + 4);
            let mag = b % 0x8000_0000;
            let exp = mag / 0x80_0000;
            1 <= exp && exp <= 254 && mag <= 0x4974_2400
        } {
            StructureElementType::Float
        } else {
            StructureElementType::I32
        };
        r.push(new_element(offset, value_type));
        k = k + 1;
    }
    r
}

/// What `format_structure_value` writes for a field's bytes; `None` for float fields,
/// whose compact rendering is done in floating point.
pub open spec fn structure_value_text(bytes: Seq<u8>, t: StructureElementType) -> Option<Seq<char>> {
    match t {
        StructureElementType::Byte => Some(hex_padded(bytes[0] as nat, 2)),
        StructureElementType::I16 => Some(signed_dec((le_value(bytes) as u16) as i16 as int)),
        StructureElementType::I32 => Some(signed_dec((le_value(bytes) as u32) as i32 as int)),
        StructureElementType::I64 => Some(signed_dec((le_value(bytes) as u64) as i64 as int)),
        StructureElementType::Float | StructureElementType::Double => None,
        StructureElementType::Pointer => Some(
            if bytes.len() == 4 || bytes.len() == 8 {
                "P->"@ + hex_digits((le_value(bytes) as usize) as nat)
            } else {
                "P->?"@
            },
        ),
    }
}

/// Writes a field's value: a byte in hexadecimal, integers in decimal, a pointer as
/// `P->ADDRESS` (or `P->?`); float fields give `None`. The bytes must be exactly the
/// field's width (at least one byte for `Byte`).
pub fn format_structure_value(bytes: &[u8], value_type: StructureElementType) -> (r: Option<String>)
    requires
        value_type == StructureElementType::Byte ==> bytes@.len() >= 1,
        value_type == StructureElementType::I16 ==> bytes@.len() == 2,
        value_type == StructureElementType::I32 ==> bytes@.len() == 4,
        value_type == StructureElementType::I64 ==> bytes@.len() == 8,
        value_type == StructureElementType::Float ==> bytes@.len() == 4,
        value_type == StructureElementType::Double ==> bytes@.len() == 8,
    ensures
        match r {
            Some(s) => structure_value_text(bytes@, value_type) == Some(s@),
            None => structure_value_text(bytes@, value_type) is None,
        },
{
    let n = bytes.len();
    assert(bytes@.subrange(0, n as int) == bytes@);
    match value_type {
        StructureElementType::Byte => Some(format_hex(bytes[0] as u64, 2)),
        StructureElementType::I16 => {
            let v = le_u64(bytes, 0, n);
            Some(format_i64_dec((v as u16) as i16 as i64))
        },
        StructureElementType::I32 => {
            let v = le_u64(bytes, 0, n);
            Some(format_i64_dec((v as u32) as i32 as i64))
        },
        StructureElementType::I64 => {
            let v = le_u64(bytes, 0, n);
            Some(format_i64_dec(v as i64))
        },
        StructureElementType::Float | StructureElementType::Double => None,
        StructureElementType::Pointer => {
            let mut s = String::new();
            match decode_pointer(bytes) {
                Some(p) => {
                    push_str(&mut s, "P->");
                    push_hex_digits(&mut s, p as u64);
                },
                None => {
                    push_str(&mut s, "P->?");
                },
            }
            Some(s)
        },
    }
}

/// Whether the rows `b` are a copy of the rows `a`: the same fields, texts and child rows.
pub open spec fn same_rows(a: Seq<StructureElement>, b: Seq<StructureElement>) -> bool
    decreases a,
{
    &&& a.len() == b.len()
    &&& forall|i: int| 0 <= i < a.len() ==> {
        &&& (#[trigger] b[i]).offset == a[i].offset
        &&& b[i].value_type == a[i].value_type
        &&& b[i].name@ == a[i].name@
        &&& b[i].detected_class == a[i].detected_class
        &&& b[i].expanded == a[i].expanded
        &&& same_rows(a[i].child_elements@, b[i].child_elements@)
    }
}

/// A copy of the rows `v`, their child rows copied too.
pub fn copy_elements(v: &Vec<StructureElement>) -> (r: Vec<StructureElement>)
    ensures
        same_rows(v@, r@),
    decreases v@,
{
    let mut r: Vec<StructureElement> = Vec::new();
    let mut i: usize = 0;
    while i < v.len()
        invariant
            i <= v@.len(),
            r@.len() == i,
            forall|k: int| 0 <= k < i ==> {
                &&& (#[trigger] r@[k]).offset == v@[k].offset
                &&& r@[k].value_type == v@[k].value_type
                &&& r@[k].name@ == v@[k].name@
                &&& r@[k].detected_class == v@[k].detected_class
                &&& r@[k].expanded == v@[k].expanded
                &&& same_rows(v@[k].child_elements@, r@[k].child_elements@)
            },
        decreases v@.len() - i,
    {
        let e = &v[i];
        proof {
            assert(decreases_to!(v@ => v@[i as int]));
            assert(decreases_to!(v@[i as int] => v@[i as int].child_elements));
            assert(decreases_to!(v@[i as int].child_elements => v@[i as int].child_elements@));
        }
        let children = copy_elements(&e.child_elements);
        let c = StructureElement {
            offset: e.offset,
            value_type: e.value_type,
            name: e.name.clone(),
            detected_class: match &e.detected_class {
                Some(n) => Some(n.clone()),
                None => None,
            },
            expanded: e.expanded,
            child_elements: children,
        };
        r.push(c);
        i = i + 1;
    }
    r
}

/// Four bytes read little-endian.
proof fn lemma_le_value_four(s: Seq<u8>)
    requires
        s.len() == 4,
    ensures
        le_value(s) == s[0] as nat + 256 * (s[1] as nat) + 65536 * (s[2] as nat) + 16777216 * (s[3] as nat),
{
    let s1 = s.drop_first();
    let s2 = s1.drop_first();
    let s3 = s2.drop_first();
    let s4 = s3.drop_first();
    assert(le_value(s4) == 0);
    assert(le_value(s3) == s[3] as nat);
    assert(le_value(s2) == s[2] as nat + 256 * (s[3] as nat));
    assert(le_value(s1) == s[1] as nat + 256 * (s[2] as nat + 256 * (s[3] as nat)));
}

/// The float guess ignores the sign: where neither reading is a pointer, the field at
/// `offset` is guessed a float exactly when it is with the sign bit of the `f32` there
/// (bit 7 of its fourth byte) flipped, so a negative float is guessed as a float as its
/// magnitude is.
pub proof fn lemma_float_guess_ignores_sign(bytes: Seq<u8>, offset: int, pointer_width: usize)
    requires
        0 <= offset,
        offset + 4 <= bytes.len(),
        guessed_type(bytes, offset, pointer_width) != StructureElementType::Pointer,
        guessed_type(bytes.update(offset + 3, bytes[offset + 3] ^ 0x80u8), offset, pointer_width)
            != StructureElementType::Pointer,
    ensures
        (guessed_type(bytes, offset, pointer_width) == StructureElementType::Float)
            == (guessed_type(bytes.update(offset + 3, bytes[offset + 3] ^ 0x80u8), offset, pointer_width)
            == StructureElementType::Float),
{
    let x = bytes[offset + 3];
    let flipped = bytes.update(offset + 3, x ^ 0x80u8);
    let s = bytes.subrange(offset, offset + 4);
    let t = flipped.subrange(offset, offset + 4);
    assert(t =~= s.update(3, x ^ 0x80u8));
    lemma_le_value_four(s);
    lemma_le_value_four(t);
    assert(x < 128u8 ==> (x ^ 0x80u8) == x + 128u8) by (bit_vector);
    assert(x >= 128u8 ==> (x ^ 0x80u8) == x - 128u8) by (bit_vector);
    let vs = le_value(s);
    let vt = le_value(t);
    if x < 128u8 {
        assert(vt == vs + 0x8000_0000);
    } else {
        assert(vs == vt + 0x8000_0000);
    }
    assert(vs % 0x8000_0000 == vt % 0x8000_0000);
    assert(f32_bits_plausible(vs) == f32_bits_plausible(vt));
}

} // verus!
