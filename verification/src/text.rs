//! Character-level helpers: whitespace trimming, prefixes, and building strings.
use vstd::prelude::*;

verus! {

/// Unicode `White_Space` characters, the set that `char::is_whitespace` accepts.
pub open spec fn is_ws(c: char) -> bool {
    ||| ('\u{9}' <= c && c <= '\u{d}')
    ||| c == ' '
    ||| c == '\u{85}'
    ||| c == '\u{a0}'
    ||| c == '\u{1680}'
    ||| ('\u{2000}' <= c && c <= '\u{200a}')
    ||| c == '\u{2028}'
    ||| c == '\u{2029}'
    ||| c == '\u{202f}'
    ||| c == '\u{205f}'
    ||| c == '\u{3000}'
}

/// ASCII whitespace as `char::is_ascii_whitespace` defines it.
pub open spec fn is_ascii_ws(c: char) -> bool {
    c == ' ' || c == '\t' || c == '\n' || c == '\u{c}' || c == '\r'
}

/// The text with its leading whitespace removed.
pub open spec fn trim_start(s: Seq<char>) -> Seq<char>
    decreases s.len(),
{
    if s.len() > 0 && is_ws(s[0]) {
        trim_start(s.drop_first())
    } else {
        s
    }
}

/// The text with its trailing whitespace removed.
pub open spec fn trim_end(s: Seq<char>) -> Seq<char>
    decreases s.len(),
{
    if s.len() > 0 && is_ws(s.last()) {
        trim_end(s.drop_last())
    } else {
        s
    }
}

/// The text with whitespace removed at both ends, as `str::trim` does.
pub open spec fn trim(s: Seq<char>) -> Seq<char> {
    trim_end(trim_start(s))
}

/// Whether `s` begins with `p`.
pub open spec fn has_prefix(s: Seq<char>, p: Seq<char>) -> bool {
    p.len() <= s.len() && s.subrange(0, p.len() as int) == p
}

/// Whether `s` ends with `p`.
pub open spec fn has_suffix(s: Seq<char>, p: Seq<char>) -> bool {
    p.len() <= s.len() && s.subrange(s.len() - p.len(), s.len() as int) == p
}

/// The text without a leading `0x` or `0X`, when it has one.
pub open spec fn strip_hex_prefix(s: Seq<char>) -> Seq<char> {
    if s.len() >= 2 && s[0] == '0' && (s[1] == 'x' || s[1] == 'X') {
        s.subrange(2, s.len() as int)
    } else {
        s
    }
}

/// Whether `c` is an ASCII letter.
pub open spec fn is_ascii_alpha(c: char) -> bool {
    ('a' <= c && c <= 'z') || ('A' <= c && c <= 'Z')
}

/// Whether `c` is an ASCII digit.
pub open spec fn is_ascii_digit(c: char) -> bool {
    '0' <= c && c <= '9'
}

/// The ASCII lowercase of `c`, as `char::to_ascii_lowercase` gives it.
pub open spec fn ascii_lower(c: char) -> char {
    if 'A' <= c && c <= 'Z' {
        ((c as u32) + 32) as char
    } else {
        c
    }
}

/// The text with every character lowered as `str::to_ascii_lowercase` does.
pub open spec fn ascii_lower_seq(s: Seq<char>) -> Seq<char> {
    s.map_values(|c: char| ascii_lower(c))
}

/// Whether `needle` occurs in `s` at some position.
pub open spec fn contains_seq(s: Seq<char>, needle: Seq<char>) -> bool {
    exists|i: int| 0 <= i <= s.len() - needle.len() && #[trigger] s.subrange(i, i + needle.len()) == needle
}

pub fn is_ws_exec(c: char) -> (b: bool)
    ensures
        b == is_ws(c),
{
    ('\u{9}' <= c && c <= '\u{d}') || c == ' ' || c == '\u{85}' || c == '\u{a0}' || c
        == '\u{1680}' || ('\u{2000}' <= c && c <= '\u{200a}') || c == '\u{2028}' || c
        == '\u{2029}' || c == '\u{202f}' || c == '\u{205f}' || c == '\u{3000}'
}

pub fn is_ascii_alpha_exec(c: char) -> (b: bool)
    ensures
        b == is_ascii_alpha(c),
{
    ('a' <= c && c <= 'z') || ('A' <= c && c <= 'Z')
}

pub fn ascii_lower_exec(c: char) -> (r: char)
    ensures
        r == ascii_lower(c),
{
    if 'A' <= c && c <= 'Z' {
        let v: u8 = (c as u8) + 32;
        v as char
    } else {
        c
    }
}

/// Copies the characters of `s` into a vector.
pub fn chars_of(s: &str) -> (out: Vec<char>)
    ensures
        out@ == s@,
{
    let n = s.unicode_len();
    let mut out: Vec<char> = Vec::new();
    let mut i: usize = 0;
    while i < n
        invariant
            n == s@.len(),
            i <= n,
            out@ == s@.subrange(0, i as int),
        decreases n - i,
    {
        out.push(s.get_char(i));
        i = i + 1;
    }
    out
}

/// Appends one character to a string through `String::push`.
#[verifier::external_body]
pub fn push_char(s: &mut String, c: char)
    ensures
        final(s)@ == old(s)@.push(c),
{
    s.push(c);
}

/// Appends the characters `v[lo..hi]` to `s`.
pub fn push_chars(s: &mut String, v: &Vec<char>, lo: usize, hi: usize)
    requires
        lo <= hi <= v@.len(),
    ensures
        final(s)@ == old(s)@ + v@.subrange(lo as int, hi as int),
{
    let mut i = lo;
    while i < hi
        invariant
            lo <= i <= hi,
            hi <= v@.len(),
            s@ == old(s)@ + v@.subrange(lo as int, i as int),
        decreases hi - i,
    {
        push_char(s, v[i]);
        assert(v@.subrange(lo as int, i + 1) == v@.subrange(lo as int, i as int).push(v@[i as int]));
        i = i + 1;
    }
}

/// Appends the characters of `t` to `s`.
pub fn push_str(s: &mut String, t: &str)
    ensures
        final(s)@ == old(s)@ + t@,
{
    let v = chars_of(t);
    push_chars(s, &v, 0, v.len());
    assert(v@.subrange(0, v@.len() as int) == v@);
}

/// A string holding the characters `v[lo..hi]`.
pub fn string_of(v: &Vec<char>, lo: usize, hi: usize) -> (s: String)
    requires
        lo <= hi <= v@.len(),
    ensures
        s@ == v@.subrange(lo as int, hi as int),
{
    let mut s = String::new();
    push_chars(&mut s, v, lo, hi);
    s
}

/// A string copy of `t`.
pub fn owned(t: &str) -> (s: String)
    ensures
        s@ == t@,
{
    let mut s = String::new();
    push_str(&mut s, t);
    s
}

/// Bounds `(lo, hi)` such that `v[lo..hi]` is the text `v[start..end]` trimmed.
pub fn trim_bounds(v: &Vec<char>, start: usize, end: usize) -> (r: (usize, usize))
    requires
        start <= end <= v@.len(),
    ensures
        start <= r.0 <= r.1 <= end,
        v@.subrange(r.0 as int, r.1 as int) == trim(v@.subrange(start as int, end as int)),
{
    let mut i = start;
    while i < end && is_ws_exec(v[i])
        invariant
            start <= i <= end,
            end <= v@.len(),
            trim_start(v@.subrange(start as int, end as int)) == trim_start(
                v@.subrange(i as int, end as int),
            ),
        decreases end - i,
    {
        assert(v@.subrange(i as int, end as int).drop_first() == v@.subrange(i + 1, end as int));
        i = i + 1;
    }
    let mut j = end;
    while j > i && is_ws_exec(v[j - 1])
        invariant
            start <= i <= j <= end,
            end <= v@.len(),
            trim_end(v@.subrange(i as int, end as int)) == trim_end(
                v@.subrange(i as int, j as int),
            ),
        decreases j - i,
    {
        assert(v@.subrange(i as int, j as int).drop_last() == v@.subrange(i as int, j - 1));
        j = j - 1;
    }
    (i, j)
}

/// Whether `v[lo..hi]` begins with `0x` or `0X`.
pub fn has_hex_prefix(v: &Vec<char>, lo: usize, hi: usize) -> (b: bool)
    requires
        lo <= hi <= v@.len(),
    ensures
        b == (hi - lo >= 2 && v@[lo as int] == '0' && (v@[lo + 1] == 'x' || v@[lo + 1] == 'X')),
{
    hi - lo >= 2 && v[lo] == '0' && (v[lo + 1] == 'x' || v[lo + 1] == 'X')
}

/// The start of `v[lo..hi]` once a leading `0x` or `0X` is skipped.
pub fn skip_hex_prefix(v: &Vec<char>, lo: usize, hi: usize) -> (r: usize)
    requires
        lo <= hi <= v@.len(),
    ensures
        lo <= r <= hi,
        v@.subrange(r as int, hi as int) == strip_hex_prefix(v@.subrange(lo as int, hi as int)),
{
    if has_hex_prefix(v, lo, hi) {
        assert(v@.subrange(lo as int, hi as int).subrange(2, hi - lo) == v@.subrange(
            lo + 2,
            hi as int,
        ));
        lo + 2
    } else {
        lo
    }
}

/// Whether `v[lo..hi]` equals the characters of `t`.
pub fn range_eq(v: &Vec<char>, lo: usize, hi: usize, t: &Vec<char>) -> (b: bool)
    requires
        lo <= hi <= v@.len(),
    ensures
        b == (v@.subrange(lo as int, hi as int) == t@),
{
    if hi - lo != t.len() {
        return false;
    }
    let mut i: usize = 0;
    while i < t.len()
        invariant
            lo <= hi <= v@.len(),
            hi - lo == t@.len(),
            i <= t@.len(),
            forall|k: int| 0 <= k < i ==> v@[lo + k] == t@[k],
        decreases t@.len() - i,
    {
        if v[lo + i] != t[i] {
            assert(v@.subrange(lo as int, hi as int)[i as int] != t@[i as int]);
            return false;
        }
        i = i + 1;
    }
    assert(v@.subrange(lo as int, hi as int) =~= t@);
    true
}

/// The first index at or after `from` holding a character of `seps`, or the length.
pub open spec fn first_sep(s: Seq<char>, seps: Seq<char>, from: int) -> int
    decreases s.len() - from,
{
    if from >= s.len() {
        s.len() as int
    } else if seps.contains(s[from]) {
        from
    } else {
        first_sep(s, seps, from + 1)
    }
}

/// The pieces of `s` between characters of `seps`, as `str::split` yields them.
pub open spec fn split_fields(s: Seq<char>, seps: Seq<char>) -> Seq<Seq<char>>
    decreases s.len(),
{
    let i = first_sep(s, seps, 0);
    if i < 0 || i >= s.len() {
        seq![s]
    } else {
        seq![s.subrange(0, i)] + split_fields(s.subrange(i + 1, s.len() as int), seps)
    }
}

/// The last index of `c` in `s`, as `str::rfind` finds it.
pub open spec fn last_index(s: Seq<char>, c: char) -> Option<int>
    decreases s.len(),
{
    if s.len() == 0 {
        None
    } else if s.last() == c {
        Some(s.len() - 1)
    } else {
        last_index(s.drop_last(), c)
    }
}

/// The first index of `c` in `s`, as `str::find` finds it.
pub open spec fn first_index(s: Seq<char>, c: char) -> Option<int> {
    let i = first_sep(s, seq![c], 0);
    if i < s.len() {
        Some(i)
    } else {
        None
    }
}

pub proof fn lemma_first_sep_at(s: Seq<char>, seps: Seq<char>, from: int, at: int)
    requires
        0 <= from <= at <= s.len(),
        at < s.len() ==> seps.contains(s[at]),
        forall|k: int| from <= k < at ==> !seps.contains(#[trigger] s[k]),
    ensures
        first_sep(s, seps, from) == at,
    decreases at - from,
{
    if from < at {
        lemma_first_sep_at(s, seps, from + 1, at);
    }
}

pub proof fn lemma_first_sep_bounds(s: Seq<char>, seps: Seq<char>, from: int)
    requires
        0 <= from <= s.len(),
    ensures
        from <= first_sep(s, seps, from) <= s.len(),
        first_sep(s, seps, from) < s.len() ==> seps.contains(s[first_sep(s, seps, from)]),
        forall|k: int| from <= k < first_sep(s, seps, from) ==> !seps.contains(#[trigger] s[k]),
    decreases s.len() - from,
{
    if from < s.len() && !seps.contains(s[from]) {
        lemma_first_sep_bounds(s, seps, from + 1);
    }
}

/// Whether `c` is one of `seps`.
pub fn is_sep_exec(c: char, seps: &Vec<char>) -> (b: bool)
    ensures
        b == seps@.contains(c),
{
    let mut i: usize = 0;
    while i < seps.len()
        invariant
            i <= seps@.len(),
            forall|k: int| 0 <= k < i ==> seps@[k] != c,
        decreases seps@.len() - i,
    {
        if seps[i] == c {
            assert(seps@[i as int] == c);
            return true;
        }
        i = i + 1;
    }
    false
}

/// The index of the first character of `seps` in `v[from..hi]`, or `hi`.
pub fn find_sep(v: &Vec<char>, from: usize, hi: usize, seps: &Vec<char>) -> (r: usize)
    requires
        from <= hi <= v@.len(),
    ensures
        from <= r <= hi,
        r < hi ==> seps@.contains(v@[r as int]),
        forall|k: int| from <= k < r ==> !seps@.contains(#[trigger] v@[k]),
{
    let mut i = from;
    while i < hi && !is_sep_exec(v[i], seps)
        invariant
            from <= i <= hi <= v@.len(),
            forall|k: int| from <= k < i ==> !seps@.contains(#[trigger] v@[k]),
        decreases hi - i,
    {
        i = i + 1;
    }
    i
}

/// The field ranges of `v[lo..hi]` split at the characters of `seps`.
pub fn split_ranges(v: &Vec<char>, lo: usize, hi: usize, seps: &Vec<char>) -> (r: Vec<(usize, usize)>)
    requires
        lo <= hi <= v@.len(),
    ensures
        r@.len() == split_fields(v@.subrange(lo as int, hi as int), seps@).len(),
        forall|k: int| 0 <= k < r@.len() ==> lo <= (#[trigger] r@[k]).0 <= r@[k].1 <= hi
            && v@.subrange(r@[k].0 as int, r@[k].1 as int) == split_fields(v@.subrange(lo as int, hi as int), seps@)[k],
{
    let ghost whole = split_fields(v@.subrange(lo as int, hi as int), seps@);
    let mut out: Vec<(usize, usize)> = Vec::new();
    let mut pos = lo;
    loop
        invariant
            lo <= pos <= hi <= v@.len(),
            whole == split_fields(v@.subrange(lo as int, hi as int), seps@),
            out@.len() + split_fields(v@.subrange(pos as int, hi as int), seps@).len() == whole.len(),
            forall|k: int| 0 <= k < out@.len() ==> lo <= (#[trigger] out@[k]).0 <= out@[k].1 <= hi
                && v@.subrange(out@[k].0 as int, out@[k].1 as int) == whole[k],
            forall|k: int| 0 <= k < split_fields(v@.subrange(pos as int, hi as int), seps@).len() ==>
                #[trigger] split_fields(v@.subrange(pos as int, hi as int), seps@)[k] == whole[out@.len() + k],
        decreases hi - pos,
    {
        let j = find_sep(v, pos, hi, seps);
        let ghost rest = v@.subrange(pos as int, hi as int);
        proof {
            assert forall|k: int| 0 <= k < j - pos implies !seps@.contains(#[trigger] rest[k]) by {
                assert(rest[k] == v@[pos + k]);
            }
            if j < hi {
                assert(rest[j - pos] == v@[j as int]);
            }
            lemma_first_sep_at(rest, seps@, 0, j - pos);
            assert(rest.subrange(0, j - pos) == v@.subrange(pos as int, j as int));
        }
        out.push((pos, j));
        if j >= hi {
            assert(split_fields(rest, seps@) == seq![rest]);
            assert(split_fields(rest, seps@)[0] == whole[out@.len() - 1]);
            assert(v@.subrange(pos as int, j as int) == rest);
            return out;
        }
        proof {
            assert(rest.subrange(j - pos + 1, rest.len() as int) == v@.subrange(j + 1, hi as int));
            let tail = split_fields(v@.subrange(j + 1, hi as int), seps@);
            assert(split_fields(rest, seps@) == seq![rest.subrange(0, j - pos)] + tail);
            assert(split_fields(rest, seps@)[0] == whole[out@.len() - 1]);
            assert forall|k: int| 0 <= k < tail.len() implies #[trigger] tail[k] == whole[out@.len() + k] by {
                assert(tail[k] == split_fields(rest, seps@)[k + 1]);
            }
        }
        pos = j + 1;
    }
}

/// The parts joined with `sep` between consecutive ones.
pub open spec fn join_with(parts: Seq<Seq<char>>, sep: Seq<char>) -> Seq<char>
    decreases parts.len(),
{
    if parts.len() == 0 {
        Seq::empty()
    } else if parts.len() == 1 {
        parts[0]
    } else {
        join_with(parts.drop_last(), sep) + sep + parts.last()
    }
}

/// Joining one more part appends the separator and the part.
pub proof fn lemma_join_push(parts: Seq<Seq<char>>, sep: Seq<char>, p: Seq<char>)
    ensures
        join_with(parts.push(p), sep) == if parts.len() == 0 {
            p
        } else {
            join_with(parts, sep) + sep + p
        },
{
    assert(parts.push(p).drop_last() == parts);
    if parts.len() == 0 {
        assert(parts.push(p)[0] == p);
    }
}

/// Whether `needle` occurs in `hay`.
pub fn contains_chars(hay: &Vec<char>, needle: &Vec<char>) -> (b: bool)
    ensures
        b == contains_seq(hay@, needle@),
{
    if needle.len() > hay.len() {
        return false;
    }
    let hn = hay.len();
    let last = hn - needle.len();
    let mut i: usize = 0;
    loop
        invariant
            hn == hay@.len(),
            last == hay@.len() - needle@.len(),
            i <= last,
            forall|k: int| 0 <= k < i ==> #[trigger] hay@.subrange(k, k + needle@.len()) != needle@,
        decreases last - i,
    {
        if range_eq(hay, i, i + needle.len(), needle) {
            return true;
        }
        if i == last {
            return false;
        }
        i = i + 1;
    }
}

/// A copy of `v[lo..hi]`.
pub fn copy_range(v: &Vec<char>, lo: usize, hi: usize) -> (r: Vec<char>)
    requires
        lo <= hi <= v@.len(),
    ensures
        r@ == v@.subrange(lo as int, hi as int),
{
    let mut r: Vec<char> = Vec::new();
    let mut i = lo;
    while i < hi
        invariant
            lo <= i <= hi <= v@.len(),
            r@ == v@.subrange(lo as int, i as int),
        decreases hi - i,
    {
        r.push(v[i]);
        assert(r@ =~= v@.subrange(lo as int, i + 1));
        i = i + 1;
    }
    r
}

/// Splitting yields at least one field.
pub proof fn lemma_split_fields_nonempty(s: Seq<char>, seps: Seq<char>)
    ensures
        split_fields(s, seps).len() >= 1,
    decreases s.len(),
{
    let i = first_sep(s, seps, 0);
    if !(i < 0 || i >= s.len()) {
        lemma_split_fields_nonempty(s.subrange(i + 1, s.len() as int), seps);
    }
}

/// Whether no character of `s` is one of `seps`.
pub open spec fn no_sep(s: Seq<char>, seps: Seq<char>) -> bool {
    forall|k: int| 0 <= k < s.len() ==> !seps.contains(#[trigger] s[k])
}

/// Text without separators is a single field.
pub proof fn lemma_split_no_sep(s: Seq<char>, seps: Seq<char>)
    requires
        no_sep(s, seps),
    ensures
        split_fields(s, seps) == seq![s],
{
    lemma_first_sep_at(s, seps, 0, s.len() as int);
}

/// Appending a separator and a field without separators appends that field.
pub proof fn lemma_split_append(x: Seq<char>, c: char, y: Seq<char>, seps: Seq<char>)
    requires
        seps.contains(c),
        no_sep(y, seps),
    ensures
        split_fields(x + seq![c] + y, seps) == split_fields(x, seps) + seq![y],
    decreases x.len(),
{
    let w = x + seq![c] + y;
    lemma_first_sep_bounds(x, seps, 0);
    let i = first_sep(x, seps, 0);
    assert forall|k: int| 0 <= k < x.len() implies #[trigger] w[k] == x[k] by {}
    if i >= x.len() {
        assert(w[x.len() as int] == c);
        lemma_first_sep_at(w, seps, 0, x.len() as int);
        assert(w.subrange(0, x.len() as int) == x);
        assert(w.subrange(x.len() + 1int, w.len() as int) == y);
        lemma_split_no_sep(y, seps);
        lemma_split_no_sep(x, seps);
    } else {
        lemma_first_sep_at(w, seps, 0, i);
        let rest = x.subrange(i + 1, x.len() as int);
        assert(w.subrange(0, i) == x.subrange(0, i));
        assert(w.subrange(i + 1, w.len() as int) == rest + seq![c] + y);
        lemma_split_append(rest, c, y, seps);
    }
}

/// Splitting parts joined by a separator gives the parts back.
pub proof fn lemma_split_join(parts: Seq<Seq<char>>, c: char, seps: Seq<char>)
    requires
        parts.len() >= 1,
        seps.contains(c),
        forall|i: int| 0 <= i < parts.len() ==> no_sep(#[trigger] parts[i], seps),
    ensures
        split_fields(join_with(parts, seq![c]), seps) == parts,
    decreases parts.len(),
{
    if parts.len() == 1 {
        lemma_split_no_sep(parts[0], seps);
        assert(seq![parts[0]] == parts);
    } else {
        let d = parts.drop_last();
        assert forall|i: int| 0 <= i < d.len() implies no_sep(#[trigger] d[i], seps) by {
            assert(d[i] == parts[i]);
        }
        lemma_split_join(d, c, seps);
        assert(parts[parts.len() - 1] == parts.last());
        lemma_split_append(join_with(d, seq![c]), c, parts.last(), seps);
        assert(d.push(parts.last()) == parts);
    }
}

/// The last occurrence of `c` is at `i` when `s[i]` is `c` and no later character is.
pub proof fn lemma_last_index_at(s: Seq<char>, c: char, i: int)
    requires
        0 <= i < s.len(),
        s[i] == c,
        forall|k: int| i < k < s.len() ==> #[trigger] s[k] != c,
    ensures
        last_index(s, c) == Some(i),
    decreases s.len(),
{
    if i < s.len() - 1 {
        assert(s.last() == s[s.len() - 1]);
        let d = s.drop_last();
        assert forall|k: int| i < k < d.len() implies #[trigger] d[k] != c by {
            assert(d[k] == s[k]);
        }
        lemma_last_index_at(d, c, i);
    }
}

} // verus!
