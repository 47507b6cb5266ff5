//! The memory view: display types, row rendering of raw bytes, and page protection names.
use vstd::prelude::*;
use crate::text::{join_with, lemma_join_push, push_char, push_str};
use crate::number::{dec_digits, format_hex, hex_padded, push_dec_digits};
use crate::scan::ScanValueType;
use crate::structure::{le_u64, le_value};

verus! {

/// How the memory view groups and renders bytes.
#[derive(Clone, Copy, Debug, PartialEq, Eq, Structural)]
pub enum MemoryDisplayType {
    ByteHex,
    ByteDecimal,
    I16Hex,
    I16Decimal,
    I32Hex,
    I32Decimal,
    I64Hex,
    I64Decimal,
    Float,
    Double,
}

/// The number of bytes in one cell of a display type.
pub open spec fn display_width(t: MemoryDisplayType) -> usize {
    match t {
        MemoryDisplayType::ByteHex | MemoryDisplayType::ByteDecimal => 1,
        MemoryDisplayType::I16Hex | MemoryDisplayType::I16Decimal => 2,
        MemoryDisplayType::I32Hex | MemoryDisplayType::I32Decimal | MemoryDisplayType::Float => 4,
        MemoryDisplayType::I64Hex | MemoryDisplayType::I64Decimal | MemoryDisplayType::Double => 8,
    }
}

/// The number of bytes in one cell of a display type.
pub fn memory_display_width(display_type: MemoryDisplayType) -> (w: usize)
    ensures
        w == display_width(display_type),
{
    match display_type {
        MemoryDisplayType::ByteHex | MemoryDisplayType::ByteDecimal => 1,
        MemoryDisplayType::I16Hex | MemoryDisplayType::I16Decimal => 2,
        MemoryDisplayType::I32Hex | MemoryDisplayType::I32Decimal | MemoryDisplayType::Float => 4,
        MemoryDisplayType::I64Hex | MemoryDisplayType::I64Decimal | MemoryDisplayType::Double => 8,
    }
}

/// The scan type used to edit a cell of a display type.
pub fn memory_display_scan_type(display_type: MemoryDisplayType) -> (t: ScanValueType)
    ensures
        t == (match display_type {
            MemoryDisplayType::ByteHex | MemoryDisplayType::ByteDecimal => ScanValueType::I8,
            MemoryDisplayType::I16Hex | MemoryDisplayType::I16Decimal => ScanValueType::I16,
            MemoryDisplayType::I32Hex | MemoryDisplayType::I32Decimal => ScanValueType::I32,
            MemoryDisplayType::I64Hex | MemoryDisplayType::I64Decimal => ScanValueType::I64,
            MemoryDisplayType::Float => ScanValueType::F32,
            MemoryDisplayType::Double => ScanValueType::F64,
        }),
{
    match display_type {
        MemoryDisplayType::ByteHex | MemoryDisplayType::ByteDecimal => ScanValueType::I8,
        MemoryDisplayType::I16Hex | MemoryDisplayType::I16Decimal => ScanValueType::I16,
        MemoryDisplayType::I32Hex | MemoryDisplayType::I32Decimal => ScanValueType::I32,
        MemoryDisplayType::I64Hex | MemoryDisplayType::I64Decimal => ScanValueType::I64,
        MemoryDisplayType::Float => ScanValueType::F32,
        MemoryDisplayType::Double => ScanValueType::F64,
    }
}

/// The label of a display type.
pub open spec fn display_label(t: MemoryDisplayType) -> Seq<char> {
    match t {
        MemoryDisplayType::ByteHex => "Byte hex"@,
        MemoryDisplayType::ByteDecimal => "Byte decimal"@,
        MemoryDisplayType::I16Hex => "2 Byte hex"@,
        MemoryDisplayType::I16Decimal => "2 Byte decimal"@,
        MemoryDisplayType::I32Hex => "4 Byte hex"@,
        MemoryDisplayType::I32Decimal => "4 Byte decimal"@,
        MemoryDisplayType::I64Hex => "8 Byte hex"@,
        MemoryDisplayType::I64Decimal => "8 Byte decimal"@,
        MemoryDisplayType::Float => "Float"@,
        MemoryDisplayType::Double => "Double"@,
    }
}

/// The display types in selector order, each with its label.
pub fn memory_display_types() -> (r: [(MemoryDisplayType, &'static str); 10])
    ensures
        r@.len() == 10,
        r@[0].0 == MemoryDisplayType::ByteHex && r@[1].0 == MemoryDisplayType::ByteDecimal
            && r@[2].0 == MemoryDisplayType::I16Hex && r@[3].0 == MemoryDisplayType::I16Decimal
            && r@[4].0 == MemoryDisplayType::I32Hex && r@[5].0 == MemoryDisplayType::I32Decimal
            && r@[6].0 == MemoryDisplayType::I64Hex && r@[7].0 == MemoryDisplayType::I64Decimal
            && r@[8].0 == MemoryDisplayType::Float && r@[9].0 == MemoryDisplayType::Double,
        forall|i: int| 0 <= i < 10 ==> (#[trigger] r@[i]).1@ == display_label(r@[i].0),
{
    [
        (MemoryDisplayType::ByteHex, "Byte hex"),
        (MemoryDisplayType::ByteDecimal, "Byte decimal"),
        (MemoryDisplayType::I16Hex, "2 Byte hex"),
        (MemoryDisplayType::I16Decimal, "2 Byte decimal"),
        (MemoryDisplayType::I32Hex, "4 Byte hex"),
        (MemoryDisplayType::I32Decimal, "4 Byte decimal"),
        (MemoryDisplayType::I64Hex, "8 Byte hex"),
        (MemoryDisplayType::I64Decimal, "8 Byte decimal"),
        (MemoryDisplayType::Float, "Float"),
        (MemoryDisplayType::Double, "Double"),
    ]
}

/// The name of a page protection, from its low byte.
pub open spec fn protection_name(protect: u32) -> Seq<char> {
    let p = protect % 256;
    if p == 0x01 {
        "NoAccess"@
    } else if p == 0x02 {
        "ReadOnly"@
    } else if p == 0x04 {
        "Read/Write"@
    } else if p == 0x08 {
        "WriteCopy"@
    } else if p == 0x10 {
        "Execute"@
    } else if p == 0x20 {
        "Execute/Read"@
    } else if p == 0x40 {
        "Execute/Read/Write"@
    } else if p == 0x80 {
        "Execute/WriteCopy"@
    } else {
        "Unknown"@
    }
}

/// The name of a page protection such as `Read/Write`, from its low byte.
pub fn format_memory_protection(protect: u32) -> (s: &'static str)
    ensures
        s@ == protection_name(protect),
{
    let p = protect % 256;
    if p == 0x01 {
        "NoAccess"
    } else if p == 0x02 {
        "ReadOnly"
    } else if p == 0x04 {
        "Read/Write"
    } else if p == 0x08 {
        "WriteCopy"
    } else if p == 0x10 {
        "Execute"
    } else if p == 0x20 {
        "Execute/Read"
    } else if p == 0x40 {
        "Execute/Read/Write"
    } else if p == 0x80 {
        "Execute/WriteCopy"
    } else {
        "Unknown"
    }
}

/// Whether a display type renders in hexadecimal.
pub open spec fn display_hex(t: MemoryDisplayType) -> bool {
    t == MemoryDisplayType::ByteHex || t == MemoryDisplayType::I16Hex || t == MemoryDisplayType::I32Hex
        || t == MemoryDisplayType::I64Hex
}

/// The text of one cell holding unsigned value `v`.
pub open spec fn cell_text(v: nat, t: MemoryDisplayType) -> Seq<char> {
    if display_hex(t) {
        hex_padded(v, 2 * display_width(t) as nat)
    } else {
        dec_digits(v)
    }
}

/// The cells of a row: each complete group of bytes read little-endian; a trailing
/// partial group is left out.
pub open spec fn display_cells(bytes: Seq<u8>, t: MemoryDisplayType) -> Seq<Seq<char>> {
    let k = display_width(t) as int;
    Seq::new(
        (bytes.len() / (k as nat)) as nat,
        |j: int| cell_text(le_value(bytes.subrange(j * k, j * k + k)), t),
    )
}

/// What `format_memory_display` writes for a row; `None` for the float display types,
/// whose compact rendering is done in floating point.
pub open spec fn display_text(bytes: Seq<u8>, t: MemoryDisplayType) -> Option<Seq<char>> {
    if t == MemoryDisplayType::Float || t == MemoryDisplayType::Double {
        None
    } else {
        Some(join_with(display_cells(bytes, t), seq![' ']))
    }
}

/// Renders a row of the memory view: the cells separated by single spaces. The float
/// display types give `None`.
pub fn format_memory_display(bytes: &[u8], display_type: MemoryDisplayType) -> (r: Option<String>)
    ensures
        match r {
            Some(s) => display_text(bytes@, display_type) == Some(s@),
            None => display_text(bytes@, display_type) is None,
        },
{
    if display_type == MemoryDisplayType::Float || display_type == MemoryDisplayType::Double {
        return None;
    }
    let k = memory_display_width(display_type);
    let hex = display_type == MemoryDisplayType::ByteHex || display_type == MemoryDisplayType::I16Hex
        || display_type == MemoryDisplayType::I32Hex || display_type == MemoryDisplayType::I64Hex;
    let n = bytes.len();
    let count = n / k;
    let ghost cells = display_cells(bytes@, display_type);
    let mut s = String::new();
    let mut j: usize = 0;
    while j < count
        invariant
            k == display_width(display_type),
            1 <= k <= 8,
            hex == display_hex(display_type),
            n == bytes@.len(),
            count == n / k,
            cells == display_cells(bytes@, display_type),
            j <= count,
            s@ == join_with(cells.subrange(0, j as int), seq![' ']),
        decreases count - j,
    {
        assert(j * k + k <= count * k) by (nonlinear_arith)
            requires j < count, k >= 1;
        assert(count * k <= n) by (nonlinear_arith)
            requires count == n / k, k >= 1;
        let start = j * k;
        let v = le_u64(bytes, start, start + k);
        if j > 0 {
            push_char(&mut s, ' ');
        }
        if hex {
            let cell = format_hex(v, 2 * k);
            push_str(&mut s, cell.as_str());
        } else {
            push_dec_digits(&mut s, v);
        }
        proof {
            let pre = cells.subrange(0, j as int);
            assert(cells.subrange(0, j + 1) == pre.push(cells[j as int]));
            lemma_join_push(pre, seq![' '], cells[j as int]);
            if j > 0 {
                assert(pre.len() > 0);
            }
        }
        j = j + 1;
    }
    assert(cells.subrange(0, count as int) == cells);
    Some(s)
}

/// Each cell of an integer display type is the little-endian value of its bytes (1, 2, 4
/// or 8 of them), in decimal for the decimal types and in zero-padded hexadecimal, two
/// digits a byte, for the hexadecimal ones; a trailing partial group gives no cell.
pub proof fn lemma_integer_cells(bytes: Seq<u8>, t: MemoryDisplayType)
    requires
        t != MemoryDisplayType::Float,
        t != MemoryDisplayType::Double,
    ensures
        ({
            let w: int = match t {
                MemoryDisplayType::ByteHex | MemoryDisplayType::ByteDecimal => 1,
                MemoryDisplayType::I16Hex | MemoryDisplayType::I16Decimal => 2,
                MemoryDisplayType::I32Hex | MemoryDisplayType::I32Decimal => 4,
                _ => 8,
            };
            let decimal = t == MemoryDisplayType::ByteDecimal || t == MemoryDisplayType::I16Decimal
                || t == MemoryDisplayType::I32Decimal || t == MemoryDisplayType::I64Decimal;
            &&& display_width(t) == w
            &&& display_cells(bytes, t).len() == bytes.len() / (w as nat)
            &&& forall|j: int| 0 <= j < display_cells(bytes, t).len() ==> #[trigger] display_cells(bytes, t)[j] == if decimal {
                dec_digits(le_value(bytes.subrange(j * w, j * w + w)))
            } else {
                hex_padded(le_value(bytes.subrange(j * w, j * w + w)), 2 * w as nat)
            }
        }),
{
}

} // verus!
