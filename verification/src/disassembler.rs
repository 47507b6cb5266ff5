//! The disassembler dialog opened on an address.
use vstd::prelude::*;
use crate::address::{format_prefixed_memory_address, hex_offset_spec, parse_hex_offset};
use crate::number::{format_hex, hex_padded};
use crate::panel::{CrosshairApp, MemoryPanelState};
use crate::stable_filter::module_filter_text;
use crate::text::{ascii_lower_seq, contains_chars, contains_seq, owned, push_char, push_str, trim};

verus! {

/// The disassembler dialog: the lines disassembled from an address (each its address, its
/// bytes and its instruction), a status, the step of its navigation, and a search text.
pub struct DisassemblerDialog {
    pub address: usize,
    pub lines: Vec<(usize, String, String)>,
    pub status: String,
    pub navigation_step: String,
    pub search: String,
}

impl CrosshairApp {
    /// Opens the disassembler on `address`: `disassembled` is the lines disassembled there,
    /// or why that failed, which the dialog then reports. Without a process nothing opens
    /// and the status asks for one.
    pub fn open_disassembler_at_address(
        &mut self,
        address: usize,
        disassembled: Result<Vec<(usize, String, String)>, String>,
    ) -> (r: Option<DisassemblerDialog>)
        ensures
            old(self).memory_panel.process_pid is None ==> r is None && final(self).memory_panel.status@ == "Select a process first"@
                && *final(self) == (CrosshairApp { memory_panel: MemoryPanelState { status: final(self).memory_panel.status, ..old(self).memory_panel }, ..*old(self) }),
            old(self).memory_panel.process_pid is Some ==> {
                let d = r.unwrap();
                &&& r is Some
                &&& *final(self) == *old(self)
                &&& d.address == address
                &&& d.navigation_step@ == "10"@
                &&& d.search@ == Seq::<char>::empty()
                &&& match disassembled {
                    Ok(lines) => d.lines == lines && d.status@ == "Disassembler active"@,
                    Err(e) => d.lines@.len() == 0 && d.status@ == "Disassembly failed: "@ + e@,
                }
            },
    {
        if self.memory_panel.process_pid.is_none() {
            self.memory_panel.status = owned("Select a process first");
            return None;
        }
        let (lines, status) = match disassembled {
            Ok(lines) => (lines, owned("Disassembler active")),
            Err(e) => {
                let mut s = owned("Disassembly failed: ");
                push_str(&mut s, e.as_str());
                (Vec::new(), s)
            },
        };
        Some(DisassemblerDialog { address, lines, status, navigation_step: owned("10"), search: String::new() })
    }
}

/// Whether a disassembly line matches the lowered search text `f`: an empty search
/// matches every line, else the line's address (`0x` and eight or more hexadecimal
/// digits), bytes or instruction must hold it, letters compared without case.
pub open spec fn line_matches(line: (usize, String, String), f: Seq<char>) -> bool {
    ||| f.len() == 0
    ||| contains_seq(ascii_lower_seq(seq!['0', 'x'] + hex_padded(line.0 as nat, 8)), f)
    ||| contains_seq(ascii_lower_seq(line.1@), f)
    ||| contains_seq(ascii_lower_seq(line.2@), f)
}

/// The indices below `n` of the lines the search text `search` shows, in order.
pub open spec fn shown_lines(lines: Seq<(usize, String, String)>, search: Seq<char>, n: nat) -> Seq<usize>
    decreases n,
{
    if n == 0 {
        seq![]
    } else {
        let rest = shown_lines(lines, search, (n - 1) as nat);
        if line_matches(lines[n - 1], ascii_lower_seq(trim(search))) {
            rest.push((n - 1) as usize)
        } else {
            rest
        }
    }
}

/// `address` moved down (`down`) or up by `step` bytes, held within the address space.
pub open spec fn moved(address: usize, step: int, down: bool) -> usize {
    if down {
        if address + step > usize::MAX { usize::MAX } else { (address + step) as usize }
    } else {
        if address - step < 0 { 0 } else { (address - step) as usize }
    }
}

/// The disassembly tried `k`-th when navigating to `target`: up to fifteen bytes back
/// from it, one byte more every five tries, each with 128, 64, 32, 16 and then 1
/// instruction.
pub open spec fn attempt_spec(target: usize, k: nat) -> (usize, usize) {
    let back = k / 5;
    let count: usize = if k % 5 == 0 {
        128
    } else if k % 5 == 1 {
        64
    } else if k % 5 == 2 {
        32
    } else if k % 5 == 3 {
        16
    } else {
        1
    };
    (moved(target, back as int, false), count)
}

/// The `k`-th disassembly to try when navigating to `target`, as an address and a number
/// of instructions; none after the eightieth.
pub fn navigation_attempt(target: usize, k: usize) -> (r: Option<(usize, usize)>)
    ensures
        k < 80 ==> r == Some(attempt_spec(target, k as nat)),
        k >= 80 ==> r is None,
{
    if k >= 80 {
        return None;
    }
    let back = k / 5;
    let count: usize = match k % 5 {
        0 => 128,
        1 => 64,
        2 => 32,
        3 => 16,
        _ => 1,
    };
    Some((target.saturating_sub(back), count))
}

/// Whether `c` is a printable ASCII character other than space, as `u8::is_ascii_graphic`.
pub open spec fn graphic(b: u8) -> bool {
    0x21 <= b <= 0x7e
}

/// The bytes of a dump row in hexadecimal, two digits each, separated by spaces.
pub open spec fn dump_hex(chunk: Seq<u8>) -> Seq<char>
    decreases chunk.len(),
{
    if chunk.len() == 0 {
        seq![]
    } else if chunk.len() == 1 {
        hex_padded(chunk[0] as nat, 2)
    } else {
        dump_hex(chunk.drop_last()) + seq![' '] + hex_padded(chunk.last() as nat, 2)
    }
}

/// The bytes of a dump row as text: printable characters as they are, others as `.`.
pub open spec fn dump_ascii(chunk: Seq<u8>) -> Seq<char> {
    chunk.map_values(|b: u8| if graphic(b) { b as char } else { '.' })
}

/// `s` padded with spaces on the right to `width` characters.
pub open spec fn pad_right(s: Seq<char>, width: nat) -> Seq<char> {
    if s.len() >= width {
        s
    } else {
        s + Seq::new((width - s.len()) as nat, |i: int| ' ')
    }
}

/// A dump row: its address, its bytes in hexadecimal padded to 48 characters, and its
/// bytes as text.
pub open spec fn dump_line(address: int, chunk: Seq<u8>) -> Seq<char> {
    seq!['0', 'x'] + hex_padded(address as nat, 8) + seq![' ', ' '] + pad_right(dump_hex(chunk), 48) + seq![' ', ' ']
        + dump_ascii(chunk) + seq!['\n']
}

/// The first `rows` rows of a dump of `bytes` read at `base`, sixteen bytes a row.
pub open spec fn hex_dump(base: usize, bytes: Seq<u8>, rows: nat) -> Seq<char>
    decreases rows,
{
    if rows == 0 {
        seq![]
    } else {
        let start: int = (rows - 1) * 16;
        let end: int = if rows * 16 < bytes.len() { (rows * 16) as int } else { bytes.len() as int };
        hex_dump(base, bytes, (rows - 1) as nat) + dump_line(base + start, bytes.subrange(start, end))
    }
}

/// The number of sixteen-byte rows of `n` bytes.
pub open spec fn dump_rows(n: nat) -> nat {
    n / 16 + if n % 16 == 0 { 0nat } else { 1nat }
}

/// Appends the bytes `bytes[lo..hi]` in hexadecimal, then spaces up to 48 characters.
fn push_dump_hex(s: &mut String, bytes: &Vec<u8>, lo: usize, hi: usize)
    requires
        lo <= hi <= bytes@.len(),
    ensures
        final(s)@ == old(s)@ + pad_right(dump_hex(bytes@.subrange(lo as int, hi as int)), 48),
{
    let mut hex = String::new();
    let mut i = lo;
    while i < hi
        invariant
            lo <= i <= hi <= bytes@.len(),
            hex@ == dump_hex(bytes@.subrange(lo as int, i as int)),
        decreases hi - i,
    {
        let ghost pre = bytes@.subrange(lo as int, i + 1);
        assert(pre.drop_last() == bytes@.subrange(lo as int, i as int));
        assert(pre.last() == bytes@[i as int]);
        if i > lo {
            push_char(&mut hex, ' ');
        }
        let pair = format_hex(bytes[i] as u64, 2);
        push_str(&mut hex, pair.as_str());
        i = i + 1;
    }
    let ghost h = hex@;
    let mut n = hex.unicode_len();
    while n < 48
        invariant
            h.len() <= n <= 48 || n == h.len(),
            hex@ == h + Seq::new((n - h.len()) as nat, |k: int| ' '),
        decreases 48 - n,
    {
        push_char(&mut hex, ' ');
        assert(hex@ =~= h + Seq::new((n + 1 - h.len()) as nat, |k: int| ' '));
        n = n + 1;
    }
    assert(hex@ =~= pad_right(h, 48));
    push_str(s, hex.as_str());
}

/// Appends the bytes `bytes[lo..hi]` as text.
fn push_dump_ascii(s: &mut String, bytes: &Vec<u8>, lo: usize, hi: usize)
    requires
        lo <= hi <= bytes@.len(),
    ensures
        final(s)@ == old(s)@ + dump_ascii(bytes@.subrange(lo as int, hi as int)),
{
    let mut i = lo;
    while i < hi
        invariant
            lo <= i <= hi <= bytes@.len(),
            s@ == old(s)@ + dump_ascii(bytes@.subrange(lo as int, i as int)),
        decreases hi - i,
    {
        let b = bytes[i];
        let c = if 0x21 <= b && b <= 0x7e { b as char } else { '.' };
        push_char(s, c);
        assert(dump_ascii(bytes@.subrange(lo as int, i + 1)) =~= dump_ascii(bytes@.subrange(lo as int, i as int)).push(c));
        i = i + 1;
    }
}

/// A dump of the memory read at `base`: a row per sixteen bytes, each with its address,
/// its bytes in hexadecimal padded to 48 characters, and its bytes as text, then a newline.
pub fn format_hex_dump(base: usize, bytes: &Vec<u8>) -> (s: String)
    requires
        base + bytes@.len() <= usize::MAX,
    ensures
        s@ == hex_dump(base, bytes@, dump_rows(bytes@.len())),
{
    let mut s = String::new();
    let n = bytes.len();
    let total = n / 16 + if n % 16 == 0 { 0 } else { 1 };
    let mut row: usize = 0;
    while row < total
        invariant
            n == bytes@.len(),
            base + n <= usize::MAX,
            total == dump_rows(n as nat),
            row <= total,
            s@ == hex_dump(base, bytes@, row as nat),
        decreases total - row,
    {
        assert(row * 16 < n) by (nonlinear_arith)
            requires
                row < n / 16 + if n % 16 == 0 { 0int } else { 1int },
        ;
        let lo = row * 16;
        let hi = if n - lo > 16 { lo + 16 } else { n };
        let mut line = format_prefixed_memory_address(base + lo);
        push_str(&mut line, "  ");
        push_dump_hex(&mut line, bytes, lo, hi);
        push_str(&mut line, "  ");
        push_dump_ascii(&mut line, bytes, lo, hi);
        push_char(&mut line, '\n');
        proof {
            reveal_strlit("  ");
        }
        assert(line@ =~= dump_line(base + lo, bytes@.subrange(lo as int, hi as int)));
        push_str(&mut s, line.as_str());
        row = row + 1;
    }
    s
}

impl DisassemblerDialog {
    /// The lines the search text shows.
    pub fn visible_lines(&self) -> (r: Vec<usize>)
        ensures
            r@ == shown_lines(self.lines@, self.search@, self.lines@.len()),
    {
        let f = module_filter_text(self.search.as_str());
        let mut r: Vec<usize> = Vec::new();
        let mut i: usize = 0;
        while i < self.lines.len()
            invariant
                i <= self.lines@.len(),
                f@ == ascii_lower_seq(trim(self.search@)),
                r@ == shown_lines(self.lines@, self.search@, i as nat),
            decreases self.lines@.len() - i,
        {
            let line = &self.lines[i];
            let shown = if f.len() == 0 {
                true
            } else {
                let a = format_prefixed_memory_address(line.0);
                contains_chars(&crate::entity::lower_chars(a.as_str()), &f)
                    || contains_chars(&crate::entity::lower_chars(line.1.as_str()), &f)
                    || contains_chars(&crate::entity::lower_chars(line.2.as_str()), &f)
            };
            if shown {
                r.push(i);
            }
            i = i + 1;
        }
        r
    }

    /// The address the Up (or, with `down`, the Down) button moves to: the step text read
    /// as a hexadecimal byte count, held within the address space. None when the step is
    /// not a number.
    pub fn navigation_target(&self, down: bool) -> (r: Option<usize>)
        ensures
            match hex_offset_spec(self.navigation_step@) {
                Some(step) => r == Some(moved(self.address, step, down)),
                None => r is None,
            },
    {
        match parse_hex_offset(self.navigation_step.as_str()) {
            Some(step) => Some(if down { self.address.saturating_add(step) } else { self.address.saturating_sub(step) }),
            None => None,
        }
    }

    /// The bytes the Copy Bytes button copies: those of the line at the dialog's address,
    /// else those of the first line.
    pub fn aob_to_copy(&self) -> (r: Option<String>)
        ensures
            match r {
                Some(b) => exists|i: int| 0 <= i < self.lines@.len() && b@ == self.lines@[i].1@ && (
                    self.lines@[i].0 == self.address || (i == 0 && forall|k: int| 0 <= k < self.lines@.len()
                        ==> self.lines@[k].0 != self.address)) && forall|k: int| 0 <= k < i ==> self.lines@[k].0 != self.address,
                None => self.lines@.len() == 0,
            },
    {
        let mut i: usize = 0;
        while i < self.lines.len()
            invariant
                i <= self.lines@.len(),
                forall|k: int| 0 <= k < i ==> self.lines@[k].0 != self.address,
            decreases self.lines@.len() - i,
        {
            if self.lines[i].0 == self.address {
                return Some(self.lines[i].1.clone());
            }
            i = i + 1;
        }
        if self.lines.len() == 0 {
            None
        } else {
            Some(self.lines[0].1.clone())
        }
    }

    /// Takes the outcome of navigating: the address and lines of the first try that gave
    /// lines, else the error of the last try that failed, if any.
    pub fn finish_navigation(&mut self, loaded: Option<(usize, Vec<(usize, String, String)>)>, last_error: Option<String>)
        ensures
            match loaded {
                Some((address, lines)) => {
                    &&& final(self).status@ == "Ready"@
                    &&& *final(self) == (DisassemblerDialog { address, lines, status: final(self).status, ..*old(self) })
                },
                None => match last_error {
                    Some(e) => final(self).status@ == "Unable to navigate: "@ + e@
                        && *final(self) == (DisassemblerDialog { status: final(self).status, ..*old(self) }),
                    None => *final(self) == *old(self),
                },
            },
    {
        match loaded {
            Some((address, lines)) => {
                self.address = address;
                self.lines = lines;
                self.status = owned("Ready");
            },
            None => {
                if let Some(e) = last_error {
                    let mut s = owned("Unable to navigate: ");
                    push_str(&mut s, e.as_str());
                    self.status = s;
                }
            },
        }
    }
}

} // verus!
