//! The pointer-scan settings of the panel and the limits a scan is given from them.
use vstd::prelude::*;
use crate::text::{chars_of, has_prefix, trim, trim_bounds};
use crate::number::{parse_usize_radix, usize_radix};
use crate::entity::sat_mul;
use crate::panel::CrosshairApp;

verus! {

/// How far a pointer scan may go.
pub struct PointerScanLimits {
    pub max_offset: usize,
    pub max_depth: usize,
    pub result_limit: usize,
    pub max_bytes: usize,
}

/// `s` with every leading repetition of `p` removed, as `str::trim_start_matches` does.
pub open spec fn strip_all_prefix(s: Seq<char>, p: Seq<char>) -> Seq<char>
    decreases s.len(),
{
    if p.len() > 0 && has_prefix(s, p) {
        strip_all_prefix(s.subrange(p.len() as int, s.len() as int), p)
    } else {
        s
    }
}

/// `x` limited to `lo..=hi`.
pub open spec fn clamp(x: int, lo: int, hi: int) -> int {
    if x < lo {
        lo
    } else if x > hi {
        hi
    } else {
        x
    }
}

/// The largest offset the offset text allows: hexadecimal after trimming and removing
/// leading `0x`, then `0X`, repetitions, or `fallback`, within `0x100..=0x10000`.
pub open spec fn scan_offset_spec(text: Seq<char>, fallback: usize) -> int {
    let digits = strip_all_prefix(strip_all_prefix(trim(text), seq!['0', 'x']), seq!['0', 'X']);
    let offset = match usize_radix(digits, 16) {
        Some(v) => v,
        None => fallback as int,
    };
    clamp(offset, 0x100, 0x10000)
}

/// The start of `v[lo..hi]` once every leading `c0 c1` pair is skipped.
fn skip_repeated_pair(v: &Vec<char>, lo: usize, hi: usize, c0: char, c1: char) -> (r: usize)
    requires
        lo <= hi <= v@.len(),
    ensures
        lo <= r <= hi,
        v@.subrange(r as int, hi as int) == strip_all_prefix(v@.subrange(lo as int, hi as int), seq![c0, c1]),
{
    let mut i = lo;
    while hi - i >= 2 && v[i] == c0 && v[i + 1] == c1
        invariant
            lo <= i <= hi <= v@.len(),
            strip_all_prefix(v@.subrange(lo as int, hi as int), seq![c0, c1]) == strip_all_prefix(v@.subrange(i as int, hi as int), seq![c0, c1]),
        decreases hi - i,
    {
        let ghost s = v@.subrange(i as int, hi as int);
        assert(s.subrange(0, 2) =~= seq![c0, c1]);
        assert(s.subrange(2, s.len() as int) == v@.subrange(i + 2, hi as int));
        i = i + 2;
    }
    proof {
        let s = v@.subrange(i as int, hi as int);
        if s.len() >= 2 && s.subrange(0, 2) == seq![c0, c1] {
            assert(s.subrange(0, 2)[0] == v@[i as int]);
            assert(s.subrange(0, 2)[1] == v@[i + 1]);
        }
    }
    i
}

impl CrosshairApp {
    /// The limits of a pointer scan from the panel's settings: the offset text (or
    /// `safe_max_offset` when it does not read as hexadecimal) within `0x100..=0x10000`,
    /// the depth within `3..=8`, the result limit within `64..=max_result_limit`, and the
    /// memory budget within 256 to 4096 MiB, in bytes.
    pub fn pointer_scan_limits(&self, safe_max_offset: usize, max_result_limit: usize) -> (l: PointerScanLimits)
        requires
            64 <= max_result_limit,
        ensures
            l.max_offset == scan_offset_spec(self.state.memory_pointer_scan_offset@, safe_max_offset),
            l.max_depth == clamp(self.state.memory_pointer_scan_depth as int, 3, 8),
            l.result_limit == clamp(self.state.memory_pointer_scan_result_limit as int, 64, max_result_limit as int),
            l.max_bytes == sat_mul(clamp(self.state.memory_pointer_scan_memory_mb as int, 256, 4096) as usize, 1048576usize),
    {
        let v = chars_of(self.state.memory_pointer_scan_offset.as_str());
        assert(v@.subrange(0, v@.len() as int) == v@);
        let (a, b) = trim_bounds(&v, 0, v.len());
        let a1 = skip_repeated_pair(&v, a, b, '0', 'x');
        let a2 = skip_repeated_pair(&v, a1, b, '0', 'X');
        let parsed = match parse_usize_radix(&v, a2, b, 16) {
            Some(x) => x,
            None => safe_max_offset,
        };
        let max_offset = if parsed < 0x100 {
            0x100
        } else if parsed > 0x10000 {
            0x10000
        } else {
            parsed
        };
        let depth = self.state.memory_pointer_scan_depth;
        let max_depth = if depth < 3 {
            3
        } else if depth > 8 {
            8
        } else {
            depth
        };
        let limit = self.state.memory_pointer_scan_result_limit;
        let result_limit = if limit < 64 {
            64
        } else if limit > max_result_limit {
            max_result_limit
        } else {
            limit
        };
        let mb = self.state.memory_pointer_scan_memory_mb;
        let mb = if mb < 256 {
            256
        } else if mb > 4096 {
            4096
        } else {
            mb
        };
        let max_bytes = match mb.checked_mul(1024 * 1024) {
            Some(x) => x,
            None => usize::MAX,
        };
        PointerScanLimits { max_offset, max_depth, result_limit, max_bytes }
    }
}

} // verus!
