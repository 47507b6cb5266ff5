//! The code list: adding instructions found by the debugger, and reading the bytes of an
//! instruction out of the debugger's details text.
use vstd::prelude::*;
use crate::text::{
    chars_of, contains_chars, contains_seq, has_prefix, has_suffix, is_ws, is_ws_exec, join_with,
    lemma_join_push, owned, push_chars, push_str, split_fields, split_ranges, string_of,
};
use crate::number::{from_str_radix_spec, parse_radix};
use crate::results::{utf8_len, utf8_width};
use crate::library::{eq_ignore_ascii_case, str_eq_ignore_ascii_case, MemoryCodeEntry};
use crate::panel::{AppState, CrosshairApp, MemoryPanelState};

verus! {

/// The lines of a text as `str::lines` yields them: split at `\n`, a `\r` before the
/// `\n` dropped, and no empty last line after a final `\n`.
pub open spec fn text_lines(s: Seq<char>) -> Seq<Seq<char>> {
    let f = split_fields(s, seq!['\n']);
    let m = f.len() - 1;
    Seq::new(m as nat, |i: int| strip_cr(f[i])) + (if f[m].len() > 0 {
        seq![f[m]]
    } else {
        Seq::empty()
    })
}

/// A line without the `\r` that ended it.
pub open spec fn strip_cr(s: Seq<char>) -> Seq<char> {
    if has_suffix(s, seq!['\r']) {
        s.drop_last()
    } else {
        s
    }
}

/// The whitespace-separated words of `s` after the word `cur` already begun, as
/// `str::split_whitespace` yields them.
pub open spec fn words_after(s: Seq<char>, cur: Seq<char>) -> Seq<Seq<char>>
    decreases s.len(),
{
    let done: Seq<Seq<char>> = if cur.len() > 0 {
        seq![cur]
    } else {
        Seq::empty()
    };
    if s.len() == 0 {
        done
    } else if is_ws(s[0]) {
        done + words_after(s.drop_first(), Seq::empty())
    } else {
        words_after(s.drop_first(), cur.push(s[0]))
    }
}

/// The whitespace-separated words of `s`.
pub open spec fn words(s: Seq<char>) -> Seq<Seq<char>> {
    words_after(s, Seq::empty())
}

/// Whether a word is a byte: two UTF-8 bytes that `u8::from_str_radix(word, 16)` accepts.
pub open spec fn aob_byte(w: Seq<char>) -> bool {
    utf8_len(w) == 2 && from_str_radix_spec(w, 16, false, 0, 255) is Some
}

/// The bytes of a listing after its address: the first run of byte words, skipping
/// anything before the first byte.
pub open spec fn collect_bytes(parts: Seq<Seq<char>>, acc: Seq<Seq<char>>) -> Seq<Seq<char>>
    decreases parts.len(),
{
    if parts.len() == 0 {
        acc
    } else if aob_byte(parts[0]) {
        collect_bytes(parts.drop_first(), acc.push(parts[0]))
    } else if acc.len() > 0 {
        acc
    } else {
        collect_bytes(parts.drop_first(), acc)
    }
}

/// The bytes a details line lists, joined by spaces: a line holding `<<` or `0x` whose
/// first word starts with `0x` and is followed by byte words.
pub open spec fn line_bytes(line: Seq<char>) -> Option<Seq<char>> {
    if contains_seq(line, seq!['<', '<']) || contains_seq(line, seq!['0', 'x']) {
        let w = words(line);
        if w.len() >= 2 && has_prefix(w[0], seq!['0', 'x']) {
            let b = collect_bytes(w.drop_first(), Seq::empty());
            if b.len() > 0 {
                Some(join_with(b, seq![' ']))
            } else {
                None
            }
        } else {
            None
        }
    } else {
        None
    }
}

/// The bytes of the first line that lists some, or nothing.
pub open spec fn first_line_bytes(lines: Seq<Seq<char>>) -> Seq<char>
    decreases lines.len(),
{
    if lines.len() == 0 {
        Seq::empty()
    } else {
        match line_bytes(lines[0]) {
            Some(b) => b,
            None => first_line_bytes(lines.drop_first()),
        }
    }
}

/// The texts `v[a..b]` of the ranges `rs`.
pub open spec fn range_texts(v: Seq<char>, rs: Seq<(usize, usize)>) -> Seq<Seq<char>> {
    rs.map_values(|p: (usize, usize)| v.subrange(p.0 as int, p.1 as int))
}

/// The word ranges of `v`.
fn word_ranges(v: &Vec<char>) -> (r: Vec<(usize, usize)>)
    ensures
        r@.len() == words(v@).len(),
        forall|k: int| 0 <= k < r@.len() ==> (#[trigger] r@[k]).0 <= r@[k].1 <= v@.len()
            && v@.subrange(r@[k].0 as int, r@[k].1 as int) == words(v@)[k],
{
    let mut out: Vec<(usize, usize)> = Vec::new();
    let mut start: usize = 0;
    let mut i: usize = 0;
    assert(v@.subrange(0, v@.len() as int) == v@);
    assert(v@.subrange(0, 0) =~= Seq::<char>::empty());
    assert(range_texts(v@, out@) =~= Seq::<Seq<char>>::empty());
    while i < v.len()
        invariant
            start <= i <= v@.len(),
            forall|k: int| 0 <= k < out@.len() ==> (#[trigger] out@[k]).0 <= out@[k].1 <= v@.len()
                && v@.subrange(out@[k].0 as int, out@[k].1 as int) == words(v@)[k],
            words(v@) == range_texts(v@, out@)
                + words_after(v@.subrange(i as int, v@.len() as int), v@.subrange(start as int, i as int)),
        decreases v@.len() - i,
    {
        let ghost rest = v@.subrange(i as int, v@.len() as int);
        let ghost cur = v@.subrange(start as int, i as int);
        assert(rest.drop_first() == v@.subrange(i + 1, v@.len() as int));
        assert(rest[0] == v@[i as int]);
        if is_ws_exec(v[i]) {
            if start < i {
                let ghost before = out@;
                out.push((start, i));
                assert(range_texts(v@, out@) =~= range_texts(v@, before) + seq![cur]);
            } else {
                assert(cur.len() == 0);
            }
            start = i + 1;
            assert(v@.subrange(start as int, i + 1) == Seq::<char>::empty());
        } else {
            assert(v@.subrange(start as int, i + 1) == cur.push(v@[i as int]));
        }
        i = i + 1;
        proof {
            assert forall|k: int| 0 <= k < out@.len() implies (#[trigger] out@[k]).0 <= out@[k].1 <= v@.len()
                && v@.subrange(out@[k].0 as int, out@[k].1 as int) == words(v@)[k] by {
                assert(words(v@)[k] == range_texts(v@, out@)[k]);
            }
        }
    }
    if start < i {
        let ghost before = out@;
        out.push((start, i));
        assert(range_texts(v@, out@) =~= range_texts(v@, before) + seq![v@.subrange(start as int, i as int)]);
    }
    assert(words(v@) == range_texts(v@, out@));
    assert forall|k: int| 0 <= k < out@.len() implies (#[trigger] out@[k]).0 <= out@[k].1 <= v@.len()
        && v@.subrange(out@[k].0 as int, out@[k].1 as int) == words(v@)[k] by {
        assert(words(v@)[k] == range_texts(v@, out@)[k]);
    }
    out
}

/// Whether the word `v[a..b]` is a byte.
fn is_aob_byte(v: &Vec<char>, a: usize, b: usize) -> (r: bool)
    requires
        a <= b <= v@.len(),
    ensures
        r == aob_byte(v@.subrange(a as int, b as int)),
{
    let ghost w = v@.subrange(a as int, b as int);
    let mut bytes: usize = 0;
    let mut i = a;
    while i < b
        invariant
            a <= i <= b <= v@.len(),
            bytes <= 3,
            bytes == utf8_len(v@.subrange(a as int, i as int)) || (bytes == 3 && utf8_len(v@.subrange(a as int, i as int)) >= 3),
        decreases b - i,
    {
        let code = v[i] as u32;
        let width: usize = if code < 0x80 {
            1
        } else if code < 0x800 {
            2
        } else if code < 0x10000 {
            3
        } else {
            4
        };
        proof {
            let pre = v@.subrange(a as int, i + 1);
            assert(pre.drop_last() == v@.subrange(a as int, i as int));
            assert(pre.last() == v@[i as int]);
        }
        bytes = if bytes + width > 3 {
            3
        } else {
            bytes + width
        };
        i = i + 1;
    }
    if bytes != 2 {
        return false;
    }
    match parse_radix(v, a, b, 16, false) {
        Some(x) => x <= 255,
        None => false,
    }
}

/// The bytes listed by the line `v[lo..hi]`, joined by spaces.
fn bytes_of_line(v: &Vec<char>, lo: usize, hi: usize) -> (r: Option<String>)
    requires
        lo <= hi <= v@.len(),
    ensures
        match r {
            Some(s) => line_bytes(v@.subrange(lo as int, hi as int)) == Some(s@),
            None => line_bytes(v@.subrange(lo as int, hi as int)) is None,
        },
{
    let line = crate::text::copy_range(v, lo, hi);
    let mut lt: Vec<char> = Vec::new();
    lt.push('<');
    lt.push('<');
    let mut hx: Vec<char> = Vec::new();
    hx.push('0');
    hx.push('x');
    assert(lt@ == seq!['<', '<']);
    assert(hx@ == seq!['0', 'x']);
    if !(contains_chars(&line, &lt) || contains_chars(&line, &hx)) {
        return None;
    }
    let ranges = word_ranges(&line);
    let ghost w = words(line@);
    if ranges.len() < 2 {
        return None;
    }
    let (a0, b0) = ranges[0];
    assert(ranges@[0] == (a0, b0));
    let starts_hex = b0 - a0 >= 2 && line[a0] == '0' && line[a0 + 1] == 'x';
    assert(starts_hex == has_prefix(w[0], seq!['0', 'x'])) by {
        if b0 - a0 >= 2 {
            assert(w[0][0] == line@[a0 as int] && w[0][1] == line@[a0 + 1]);
            if starts_hex {
                assert(w[0].subrange(0, 2) =~= seq!['0', 'x']);
            }
        }
    }
    if !starts_hex {
        return None;
    }
    let ghost parts = w.drop_first();
    assert(parts.subrange(0, parts.len() as int) == parts);
    let mut out = String::new();
    let mut count: usize = 0;
    let ghost mut acc: Seq<Seq<char>> = Seq::empty();
    let mut k: usize = 1;
    while k < ranges.len()
        invariant
            1 <= k <= ranges@.len(),
            ranges@.len() == w.len(),
            parts == w.drop_first(),
            forall|j: int| 0 <= j < ranges@.len() ==> (#[trigger] ranges@[j]).0 <= ranges@[j].1 <= line@.len()
                && line@.subrange(ranges@[j].0 as int, ranges@[j].1 as int) == w[j],
            count == acc.len(),
            count < k,
            line@ == v@.subrange(lo as int, hi as int),
            contains_seq(line@, seq!['<', '<']) || contains_seq(line@, seq!['0', 'x']),
            w == words(line@),
            has_prefix(w[0], seq!['0', 'x']),
            out@ == join_with(acc, seq![' ']),
            collect_bytes(parts, Seq::empty()) == collect_bytes(parts.subrange(k - 1, parts.len() as int), acc),
            acc.len() > 0 ==> forall|j: int| 0 <= j < acc.len() ==> aob_byte(#[trigger] acc[j]),
        decreases ranges@.len() - k,
    {
        let (a, b) = ranges[k];
        assert(ranges@[k as int] == (a, b));
        let ghost rest = parts.subrange(k - 1, parts.len() as int);
        assert(rest[0] == w[k as int]);
        assert(rest.drop_first() == parts.subrange(k as int, parts.len() as int));
        if is_aob_byte(&line, a, b) {
            proof {
                lemma_join_push(acc, seq![' '], w[k as int]);
            }
            if count > 0 {
                crate::text::push_char(&mut out, ' ');
            }
            push_chars(&mut out, &line, a, b);
            proof {
                acc = acc.push(w[k as int]);
            }
            count = count + 1;
        } else if count > 0 {
            assert(collect_bytes(parts, Seq::empty()) == acc);
            assert(line_bytes(line@) == Some(join_with(acc, seq![' '])));
            return Some(out);
        }
        k = k + 1;
    }
    assert(parts.subrange(k - 1, parts.len() as int).len() == 0);
    assert(collect_bytes(parts, Seq::empty()) == acc);
    if count > 0 {
        Some(out)
    } else {
        None
    }
}

impl CrosshairApp {
    /// The bytes of an instruction in the debugger's details text: from the first line
    /// that holds `<<` or `0x`, starts with a `0x` address and lists two-digit hexadecimal
    /// bytes, those bytes joined by spaces; empty when no line does.
    pub fn extract_aob_bytes_from_details(details: &str) -> (r: String)
        ensures
            r@ == first_line_bytes(text_lines(details@)),
    {
        let v = chars_of(details);
        let mut nl: Vec<char> = Vec::new();
        nl.push('\n');
        assert(nl@ == seq!['\n']);
        assert(v@.subrange(0, v@.len() as int) == v@);
        let ranges = split_ranges(&v, 0, v.len(), &nl);
        let ghost f = split_fields(v@, seq!['\n']);
        let ghost lines = text_lines(details@);
        let n = ranges.len();
        proof {
            crate::text::lemma_split_fields_nonempty(v@, seq!['\n']);
        }
        assert(lines.subrange(0, lines.len() as int) == lines);
        let mut k: usize = 0;
        while k < n
            invariant
                n == ranges@.len(),
                n == f.len(),
                n >= 1,
                f == split_fields(v@, seq!['\n']),
                lines == text_lines(v@),
                v@ == details@,
                forall|j: int| 0 <= j < n ==> (#[trigger] ranges@[j]).0 <= ranges@[j].1 <= v@.len()
                    && v@.subrange(ranges@[j].0 as int, ranges@[j].1 as int) == f[j],
                k <= n,
                lines.len() == (n - 1) + (if f[n - 1].len() > 0 { 1int } else { 0int }),
                first_line_bytes(lines) == first_line_bytes(lines.subrange(if k < lines.len() { k as int } else { lines.len() as int }, lines.len() as int)),
            ensures
                lines.len() <= k,
                first_line_bytes(lines) == first_line_bytes(lines.subrange(lines.len() as int, lines.len() as int)),
            decreases n - k,
        {
            let (a, b) = ranges[k];
            assert(ranges@[k as int] == (a, b));
            let last = k + 1 == n;
            if last && a == b {
                assert(f[k as int].len() == 0);
                break;
            }
            let end = if !last && a < b && v[b - 1] == '\r' {
                b - 1
            } else {
                b
            };
            assert(k < lines.len());
            proof {
                assert(lines[k as int] == v@.subrange(a as int, end as int)) by {
                    if !last {
                        let fk = f[k as int];
                        if a < b {
                            assert(fk.last() == v@[b - 1]);
                            if v@[b - 1] == '\r' {
                                assert(fk.subrange(fk.len() - 1, fk.len() as int) =~= seq!['\r']);
                                assert(has_suffix(fk, seq!['\r']));
                                assert(fk.drop_last() =~= v@.subrange(a as int, end as int));
                            } else {
                                assert(fk.subrange(fk.len() - 1, fk.len() as int)[0] == v@[b - 1]);
                            }
                        }
                    } else {
                        assert(lines[k as int] == f[k as int]);
                    }
                }
                let rest = lines.subrange(k as int, lines.len() as int);
                assert(rest[0] == lines[k as int]);
                assert(rest.drop_first() == lines.subrange(k + 1, lines.len() as int));
            }
            match bytes_of_line(&v, a, end) {
                Some(s) => {
                    proof {
                        let rest = lines.subrange(k as int, lines.len() as int);
                        assert(first_line_bytes(lines) == first_line_bytes(rest));
                        assert(rest[0] == v@.subrange(a as int, end as int));
                        assert(line_bytes(rest[0]) == Some(s@));
                        assert(first_line_bytes(rest) == s@);
                    }
                    return s;
                },
                None => {},
            }
            k = k + 1;
        }
        assert(lines.len() <= k);
        assert(first_line_bytes(lines.subrange(lines.len() as int, lines.len() as int)) == Seq::<char>::empty());
        let r = String::new();
        assert(r@ == first_line_bytes(lines));
        r
    }
}

/// Whether the code list has an entry for `module` (ignoring ASCII case) at `offset`.
pub open spec fn code_listed(list: Seq<MemoryCodeEntry>, module: Seq<char>, offset: usize) -> bool {
    exists|i: int| 0 <= i < list.len() && eq_ignore_ascii_case((#[trigger] list[i]).module@, module) && list[i].offset == offset
}

/// Whether the code list has an entry for `module` at `offset`.
fn has_code_entry(list: &Vec<MemoryCodeEntry>, module: &String, offset: usize) -> (b: bool)
    ensures
        b == code_listed(list@, module@, offset),
{
    let mut i: usize = 0;
    while i < list.len()
        invariant
            i <= list@.len(),
            forall|k: int| 0 <= k < i ==> !(eq_ignore_ascii_case((#[trigger] list@[k]).module@, module@) && list@[k].offset == offset),
        decreases list@.len() - i,
    {
        if str_eq_ignore_ascii_case(list[i].module.as_str(), module.as_str()) && list[i].offset == offset {
            return true;
        }
        i = i + 1;
    }
    false
}

impl CrosshairApp {
    /// Adds the instruction at `address` to the code list. `location` is the module and
    /// offset the address lies at in the selected process, or why none was found, and
    /// `writes_detected` whether the instruction writes memory, when that could be read;
    /// `writes` is used otherwise. Nothing happens without a process; an address outside
    /// the modules, or an instruction already listed, only sets the status.
    pub fn add_instruction_to_code_list(
        &mut self,
        address: usize,
        instruction: &str,
        writes: bool,
        location: Result<(String, usize), String>,
        writes_detected: Option<bool>,
    )
        ensures
            old(self).memory_panel.process_pid is None ==> *final(self) == *old(self),
            old(self).memory_panel.process_pid is Some ==> match location {
                Err(_) => final(self).memory_panel.status@ == "Instruction is not inside a loaded module"@
                    && final(self).memory_panel == (MemoryPanelState { status: final(self).memory_panel.status, ..old(self).memory_panel })
                    && final(self).state == old(self).state,
                Ok((module, offset)) => if code_listed(old(self).state.memory_code_list@, module@, offset) {
                    final(self).memory_panel.status@ == "Instruction is already in the code list"@
                        && final(self).memory_panel == (MemoryPanelState { status: final(self).memory_panel.status, ..old(self).memory_panel })
                        && final(self).state == old(self).state
                } else {
                    let e = final(self).state.memory_code_list@.last();
                    &&& final(self).state.memory_code_list@.drop_last() == old(self).state.memory_code_list@
                    &&& final(self).state.memory_code_list@.len() == old(self).state.memory_code_list@.len() + 1
                    &&& e.name@ == instruction@
                    &&& e.module == module
                    &&& e.offset == offset
                    &&& e.instruction@ == instruction@
                    &&& e.writes == (match writes_detected {
                        Some(w) => w,
                        None => writes,
                    })
                    &&& e.original_bytes is None
                    &&& !e.replaced
                    &&& final(self).state == (AppState { memory_code_list: final(self).state.memory_code_list, ..old(self).state })
                    &&& final(self).memory_panel.status@ == "Instruction added to code list"@
                    &&& final(self).memory_panel == (MemoryPanelState {
                        status: final(self).memory_panel.status,
                        code_list_open: true,
                        ..old(self).memory_panel
                    })
                },
            },
            final(self).capture_hotkey_combo_keys == old(self).capture_hotkey_combo_keys,
            final(self).capture_hotkey_combo_vks == old(self).capture_hotkey_combo_vks,
    {
        if self.memory_panel.process_pid.is_none() {
            return;
        }
        let (module, offset) = match location {
            Ok(found) => found,
            Err(_) => {
                self.memory_panel.status = owned("Instruction is not inside a loaded module");
                return;
            },
        };
        if has_code_entry(&self.state.memory_code_list, &module, offset) {
            self.memory_panel.status = owned("Instruction is already in the code list");
            return;
        }
        let writes = match writes_detected {
            Some(w) => w,
            None => writes,
        };
        let ghost before = self.state.memory_code_list@;
        self.state.memory_code_list.push(MemoryCodeEntry {
            name: owned(instruction),
            module,
            offset,
            instruction: owned(instruction),
            writes,
            original_bytes: None,
            replaced: false,
        });
        assert(self.state.memory_code_list@.drop_last() == before);
        self.memory_panel.code_list_open = true;
        self.memory_panel.status = owned("Instruction added to code list");
    }
}

} // verus!
