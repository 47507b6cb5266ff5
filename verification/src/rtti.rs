//! Module lookup by address, and MSVC run-time type information: the type descriptor of a
//! complete-object locator and the class name in a decorated type name.
use vstd::prelude::*;
use vstd::utf8::{decode_utf8, valid_utf8};
use crate::text::{chars_of, join_with, lemma_join_push, push_chars, push_str, split_fields, split_ranges, string_of, contains_seq, no_sep, lemma_split_append, lemma_split_no_sep};
use crate::structure::{le_u64, le_value};

verus! {

/// Whether `address` lies in `[base, base + size)`, the end saturating at `usize::MAX`.
pub open spec fn in_range(base: usize, size: usize, address: usize) -> bool {
    let end = if base + size > usize::MAX {
        usize::MAX as int
    } else {
        base + size
    };
    base <= address && address < end
}

/// Whether `address` lies in the module spanning `size` bytes from `base`.
pub fn range_contains(base: usize, size: usize, address: usize) -> (b: bool)
    ensures
        b == in_range(base, size, address),
{
    let end = base.saturating_add(size);
    base <= address && address < end
}

/// The first module (name, base, size) whose span holds `address`.
pub fn module_containing(modules: &[(String, usize, usize)], address: usize) -> (r: Option<(&str, usize, usize)>)
    ensures
        match r {
            Some((name, base, size)) => exists|i: int| 0 <= i < modules@.len() && in_range(
                modules@[i].1,
                modules@[i].2,
                address,
            ) && (forall|j: int| 0 <= j < i ==> !in_range(#[trigger] modules@[j].1, modules@[j].2, address))
                && name@ == modules@[i].0@ && base == modules@[i].1 && size == modules@[i].2,
            None => forall|j: int| 0 <= j < modules@.len() ==> !in_range(#[trigger] modules@[j].1, modules@[j].2, address),
        },
{
    let mut i: usize = 0;
    while i < modules.len()
        invariant
            i <= modules@.len(),
            forall|j: int| 0 <= j < i ==> !in_range(#[trigger] modules@[j].1, modules@[j].2, address),
        decreases modules@.len() - i,
    {
        let (name, base, size) = &modules[i];
        if range_contains(*base, *size, address) {
            return Some((name.as_str(), *base, *size));
        }
        i = i + 1;
    }
    None
}

/// The body of a decorated MSVC type name `.?AV<body>@@` (also `.?AU`, `.?AW4`).
pub open spec fn decorated_body(d: Seq<char>) -> Option<Seq<char>> {
    let rest = if d.len() >= 4 && d.subrange(0, 4) == seq!['.', '?', 'A', 'V'] {
        Some(d.subrange(4, d.len() as int))
    } else if d.len() >= 4 && d.subrange(0, 4) == seq!['.', '?', 'A', 'U'] {
        Some(d.subrange(4, d.len() as int))
    } else if d.len() >= 5 && d.subrange(0, 5) == seq!['.', '?', 'A', 'W', '4'] {
        Some(d.subrange(5, d.len() as int))
    } else {
        None
    };
    match rest {
        Some(r) => if r.len() >= 2 && r.subrange(r.len() - 2, r.len() as int) == seq!['@', '@'] {
            Some(r.subrange(0, r.len() - 2))
        } else {
            None
        },
        None => None,
    }
}

/// The scopes of a decorated body, innermost first, without empty pieces.
pub open spec fn body_scopes(b: Seq<char>) -> Seq<Seq<char>> {
    split_fields(b, seq!['@']).filter(|p: Seq<char>| p.len() > 0)
}

/// What `demangle_msvc_type_name` gives: the scopes outermost first joined with `::`;
/// a template name (holding `?$`) is kept as it is.
pub open spec fn demangle_spec(d: Seq<char>) -> Option<Seq<char>> {
    match decorated_body(d) {
        None => None,
        Some(b) => if b.len() == 0 {
            None
        } else if contains_seq(b, seq!['?', '$']) {
            Some(b)
        } else {
            Some(join_with(body_scopes(b).reverse(), seq![':', ':']))
        },
    }
}

/// Whether `v[lo..hi]` holds `?$`.
fn has_template_marker(v: &Vec<char>, lo: usize, hi: usize) -> (b: bool)
    requires
        lo <= hi <= v@.len(),
    ensures
        b == contains_seq(v@.subrange(lo as int, hi as int), seq!['?', '$']),
{
    let ghost s = v@.subrange(lo as int, hi as int);
    let mut i = lo;
    while hi - i > 1
        invariant
            lo <= i <= hi,
            hi <= v@.len(),
            s == v@.subrange(lo as int, hi as int),
            forall|k: int| 0 <= k < i - lo ==> #[trigger] s.subrange(k, k + 2) != seq!['?', '$'],
        decreases hi - i,
    {
        if v[i] == '?' && v[i + 1] == '$' {
            assert(s.subrange(i - lo, i - lo + 2) =~= seq!['?', '$']);
            return true;
        }
        assert(s.subrange(i - lo, i - lo + 2)[0] == v@[i as int]);
        assert(s.subrange(i - lo, i - lo + 2)[1] == v@[i + 1]);
        i = i + 1;
    }
    assert forall|k: int| 0 <= k <= s.len() - 2 implies #[trigger] s.subrange(k, k + 2) != seq!['?', '$'] by {
        if k >= i - lo {
            assert(false);
        }
    }
    false
}

/// Whether `v[lo..]` starts with the characters of `p`.
fn starts_with(v: &Vec<char>, lo: usize, p: &Vec<char>) -> (b: bool)
    requires
        lo <= v@.len(),
    ensures
        b == (v@.len() - lo >= p@.len() && v@.subrange(lo as int, lo + p@.len()) == p@),
{
    if v.len() - lo < p.len() {
        return false;
    }
    crate::text::range_eq(v, lo, lo + p.len(), p)
}

/// Turns a decorated MSVC RTTI name such as `.?AVCamera@Game@@` into `Game::Camera`.
pub fn demangle_msvc_type_name(decorated: &str) -> (r: Option<String>)
    ensures
        match r {
            Some(s) => demangle_spec(decorated@) == Some(s@),
            None => demangle_spec(decorated@) is None,
        },
{
    let v = chars_of(decorated);
    let n = v.len();
    let av = chars_of(".?AV");
    let au = chars_of(".?AU");
    let aw = chars_of(".?AW4");
    proof {
        reveal_strlit(".?AV");
        reveal_strlit(".?AU");
        reveal_strlit(".?AW4");
        assert(av@ =~= seq!['.', '?', 'A', 'V']);
        assert(au@ =~= seq!['.', '?', 'A', 'U']);
        assert(aw@ =~= seq!['.', '?', 'A', 'W', '4']);
    }
    let start = if starts_with(&v, 0, &av) {
        4
    } else if starts_with(&v, 0, &au) {
        4
    } else if starts_with(&v, 0, &aw) {
        5
    } else {
        return None;
    };
    let ghost rest = v@.subrange(start as int, n as int);
    if !(n - start >= 2 && v[n - 2] == '@' && v[n - 1] == '@') {
        proof {
            if rest.len() >= 2 {
                assert(rest.subrange(rest.len() - 2, rest.len() as int)[0] == v@[n - 2]);
                assert(rest.subrange(rest.len() - 2, rest.len() as int)[1] == v@[n - 1]);
            }
        }
        return None;
    }
    assert(rest.subrange(rest.len() - 2, rest.len() as int) =~= seq!['@', '@']);
    let end = n - 2;
    assert(rest.subrange(0, rest.len() - 2) == v@.subrange(start as int, end as int));
    if start == end {
        return None;
    }
    if has_template_marker(&v, start, end) {
        return Some(string_of(&v, start, end));
    }
    let mut seps: Vec<char> = Vec::new();
    seps.push('@');
    assert(seps@ == seq!['@']);
    let ranges = split_ranges(&v, start, end, &seps);
    let ghost fields = split_fields(v@.subrange(start as int, end as int), seq!['@']);
    let ghost keep = |p: Seq<char>| p.len() > 0;
    let mut kept: Vec<(usize, usize)> = Vec::new();
    let mut k: usize = 0;
    while k < ranges.len()
        invariant
            ranges@.len() == fields.len(),
            forall|j: int| 0 <= j < ranges@.len() ==> start <= (#[trigger] ranges@[j]).0 <= ranges@[j].1 <= end
                && v@.subrange(ranges@[j].0 as int, ranges@[j].1 as int) == fields[j],
            end <= v@.len(),
            k <= ranges@.len(),
            keep == (|p: Seq<char>| p.len() > 0),
            kept@.len() == fields.subrange(0, k as int).filter(keep).len(),
            forall|j: int| 0 <= j < kept@.len() ==> (#[trigger] kept@[j]).0 <= kept@[j].1 <= end
                && v@.subrange(kept@[j].0 as int, kept@[j].1 as int) == fields.subrange(0, k as int).filter(keep)[j],
        decreases ranges@.len() - k,
    {
        let (a, b) = ranges[k];
        assert(ranges@[k as int] == (a, b));
        proof {
            let pre = fields.subrange(0, k + 1);
            assert(pre.drop_last() == fields.subrange(0, k as int));
            assert(pre.last() == fields[k as int]);
            reveal_with_fuel(Seq::filter, 1);
        }
        if a < b {
            kept.push((a, b));
        }
        k = k + 1;
    }
    assert(fields.subrange(0, ranges@.len() as int) == fields);
    let ghost scopes = fields.filter(keep);
    assert(scopes == body_scopes(v@.subrange(start as int, end as int)));
    let ghost rev = scopes.reverse();
    let mut s = String::new();
    let m = kept.len();
    let mut i: usize = 0;
    while i < m
        invariant
            m == kept@.len(),
            m == scopes.len(),
            rev == scopes.reverse(),
            forall|j: int| 0 <= j < kept@.len() ==> (#[trigger] kept@[j]).0 <= kept@[j].1 <= end
                && v@.subrange(kept@[j].0 as int, kept@[j].1 as int) == scopes[j],
            end <= v@.len(),
            i <= m,
            s@ == join_with(rev.subrange(0, i as int), seq![':', ':']),
        decreases m - i,
    {
        let (a, b) = kept[m - 1 - i];
        assert(kept@[m - 1 - i] == (a, b));
        if i > 0 {
            push_str(&mut s, "::");
        }
        push_chars(&mut s, &v, a, b);
        proof {
            let pre = rev.subrange(0, i as int);
            assert(rev[i as int] == scopes[m - 1 - i]);
            assert(rev.subrange(0, i + 1) == pre.push(rev[i as int]));
            lemma_join_push(pre, seq![':', ':'], rev[i as int]);
            reveal_strlit("::");
            assert("::"@ =~= seq![':', ':']);
        }
        i = i + 1;
    }
    assert(rev.subrange(0, m as int) == rev);
    Some(s)
}

/// Decodes bytes as UTF-8 text through `std::str::from_utf8`.
#[verifier::external_body]
fn utf8_text(bytes: &[u8]) -> (r: Option<String>)
    ensures
        match r {
            Some(s) => valid_utf8(bytes@) && s@ == decode_utf8(bytes@),
            None => !valid_utf8(bytes@),
        },
{
    std::str::from_utf8(bytes).ok().map(|text| text.to_owned())
}

/// What `rtti_name_from_raw` gives: the zero-terminated UTF-8 name at the start of `raw`,
/// demangled.
pub open spec fn raw_name_spec(raw: Seq<u8>) -> Option<Seq<char>> {
    if exists|i: int| 0 <= i < raw.len() && raw[i] == 0 {
        let end = choose|i: int| 0 <= i < raw.len() && raw[i] == 0 && forall|j: int| 0 <= j < i ==> raw[j] != 0;
        let name = raw.subrange(0, end);
        if valid_utf8(name) {
            demangle_spec(decode_utf8(name))
        } else {
            None
        }
    } else {
        None
    }
}

/// The class name held in a type descriptor's name bytes: the text up to the first zero
/// byte, read as UTF-8 and demangled.
pub fn rtti_name_from_raw(raw: &[u8]) -> (r: Option<String>)
    ensures
        match r {
            Some(s) => raw_name_spec(raw@) == Some(s@),
            None => raw_name_spec(raw@) is None,
        },
{
    let mut prefix: Vec<u8> = Vec::new();
    let mut i: usize = 0;
    while i < raw.len() && raw[i] != 0
        invariant
            i <= raw@.len(),
            prefix@ == raw@.subrange(0, i as int),
            forall|j: int| 0 <= j < i ==> raw@[j] != 0,
        decreases raw@.len() - i,
    {
        prefix.push(raw[i]);
        i = i + 1;
    }
    if i == raw.len() {
        return None;
    }
    let ghost end = choose|k: int| 0 <= k < raw@.len() && raw@[k] == 0 && forall|j: int| 0 <= j < k ==> raw@[j] != 0;
    proof {
        assert(raw@[i as int] == 0);
        let e = end;
        if e < i {
            assert(raw@[e] != 0);
        } else if e > i {
            assert(raw@[i as int] != 0);
        }
    }
    match utf8_text(prefix.as_slice()) {
        None => None,
        Some(text) => demangle_msvc_type_name(text.as_str()),
    }
}

/// What `rtti_type_descriptor` gives: for 8-byte pointers, the descriptor address from the
/// image-relative offsets of a 24-byte complete-object locator whose self offset leads
/// back to the module base; for 4-byte pointers, the absolute address at bytes 12..16 of
/// a 20-byte locator. The second part is the offset of the name inside the descriptor.
pub open spec fn type_descriptor_spec(locator: usize, bytes: Seq<u8>, pointer_width: usize, module_base: usize) -> Option<(usize, usize)> {
    if pointer_width == 8 {
        if bytes.len() != 24 {
            None
        } else {
            let type_rva = le_value(bytes.subrange(12, 16));
            let self_rva = le_value(bytes.subrange(20, 24));
            let image_base = locator - self_rva;
            if image_base < 0 || image_base != module_base {
                None
            } else if image_base + type_rva > usize::MAX {
                None
            } else {
                Some(((image_base + type_rva) as usize, 16usize))
            }
        }
    } else if pointer_width == 4 {
        if bytes.len() != 20 {
            None
        } else {
            Some((le_value(bytes.subrange(12, 16)) as usize, 8usize))
        }
    } else {
        None
    }
}

/// Finds the type descriptor of a complete-object locator from the locator's bytes.
pub fn rtti_type_descriptor(locator: usize, locator_bytes: &[u8], pointer_width: usize, module_base: usize) -> (r: Option<(usize, usize)>)
    ensures
        r == type_descriptor_spec(locator, locator_bytes@, pointer_width, module_base),
{
    if pointer_width == 8 {
        if locator_bytes.len() != 24 {
            return None;
        }
        proof {
            crate::structure::lemma_le_value_bound(locator_bytes@.subrange(12, 16));
            crate::structure::lemma_le_value_bound(locator_bytes@.subrange(20, 24));
            crate::structure::lemma_two_pow_32();
        }
        let type_rva = le_u64(locator_bytes, 12, 16) as usize;
        let self_rva = le_u64(locator_bytes, 20, 24) as usize;
        let image_base = match locator.checked_sub(self_rva) {
            Some(b) => b,
            None => return None,
        };
        if image_base != module_base {
            return None;
        }
        match image_base.checked_add(type_rva) {
            Some(d) => Some((d, 16)),
            None => None,
        }
    } else if pointer_width == 4 {
        if locator_bytes.len() != 20 {
            return None;
        }
        proof {
            crate::structure::lemma_le_value_bound(locator_bytes@.subrange(12, 16));
            crate::structure::lemma_two_pow_32();
        }
        Some((le_u64(locator_bytes, 12, 16) as usize, 8))
    } else {
        None
    }
}

/// A struct's decorated type name (`.?AU<body>`) demangles exactly as a class's with the
/// same body (`.?AV<body>`) does: MSVC marks structs and classes apart, and both name a
/// type with run-time type information.
pub proof fn lemma_struct_name_demangles_like_class(b: Seq<char>)
    ensures
        demangle_spec(seq!['.', '?', 'A', 'U'] + b) == demangle_spec(seq!['.', '?', 'A', 'V'] + b),
{
    let pu = seq!['.', '?', 'A', 'U'];
    let pv = seq!['.', '?', 'A', 'V'];
    let u = pu + b;
    let v = pv + b;
    assert(u.subrange(0, 4) =~= pu);
    assert(v.subrange(0, 4) =~= pv);
    assert(u.subrange(4, u.len() as int) =~= b);
    assert(v.subrange(4, v.len() as int) =~= b);
    assert(pu != pv) by {
        assert(pu[3] != pv[3]);
    }
    assert(decorated_body(u) == decorated_body(v));
}

/// The body of `.?AV<body>@@` is `body`.
proof fn lemma_class_body(body: Seq<char>)
    ensures
        decorated_body(seq!['.', '?', 'A', 'V'] + body + seq!['@', '@']) == Some(body),
{
    let pv = seq!['.', '?', 'A', 'V'];
    let d = pv + body + seq!['@', '@'];
    let r = d.subrange(4, d.len() as int);
    assert(d.subrange(0, 4) =~= pv);
    assert(r =~= body + seq!['@', '@']);
    assert(r.subrange(r.len() - 2, r.len() as int) =~= seq!['@', '@']);
    assert(r.subrange(0, r.len() - 2) =~= body);
}

/// Text without `@` has no `@` separator.
proof fn lemma_no_at(a: Seq<char>)
    requires
        forall|k: int| 0 <= k < a.len() ==> #[trigger] a[k] != '@',
    ensures
        no_sep(a, seq!['@']),
{
    let seps = seq!['@'];
    assert forall|k: int| 0 <= k < a.len() implies !seps.contains(#[trigger] a[k]) by {
        if seps.contains(a[k]) {
            let j = choose|j: int| 0 <= j < seps.len() && seps[j] == a[k];
        }
    }
}

/// The scopes of `a@n` are `a` then `n`.
proof fn lemma_two_scopes(a: Seq<char>, n: Seq<char>)
    requires
        a.len() > 0,
        n.len() > 0,
        forall|k: int| 0 <= k < a.len() ==> #[trigger] a[k] != '@',
        forall|k: int| 0 <= k < n.len() ==> #[trigger] n[k] != '@',
    ensures
        body_scopes(a + seq!['@'] + n) == seq![a, n],
{
    let seps = seq!['@'];
    lemma_no_at(a);
    lemma_no_at(n);
    assert(seps.contains('@')) by {
        assert(seps[0] == '@');
    }
    lemma_split_append(a, '@', n, seps);
    lemma_split_no_sep(a, seps);
    let parts = split_fields(a + seq!['@'] + n, seps);
    assert(parts =~= seq![a, n]);
    let keep = |p: Seq<char>| p.len() > 0;
    reveal_with_fuel(Seq::filter, 3);
    assert(parts.drop_last() =~= seq![a]);
    assert(seq![a].drop_last() =~= Seq::<Seq<char>>::empty());
    assert(seq![a].filter(keep) =~= seq![a]);
    assert(parts.filter(keep) =~= seq![a, n]);
}

/// Text without `$` holds no `?$`.
proof fn lemma_no_template(b: Seq<char>)
    requires
        forall|k: int| 0 <= k < b.len() ==> #[trigger] b[k] != '$',
    ensures
        !contains_seq(b, seq!['?', '$']),
{
    if contains_seq(b, seq!['?', '$']) {
        let i = choose|i: int| 0 <= i <= b.len() - 2 && #[trigger] b.subrange(i, i + 2) == seq!['?', '$'];
        assert(b.subrange(i, i + 2)[1] == b[i + 1]);
    }
}

/// The decorated name of a class `a` inside namespace `n` (`.?AV<a>@<n>@@`, innermost
/// scope first) demangles to `n::a`, outermost scope first; the same holds of a struct
/// (`.?AU`).
pub proof fn lemma_scoped_class_name_demangles(a: Seq<char>, n: Seq<char>)
    requires
        a.len() > 0,
        n.len() > 0,
        forall|k: int| 0 <= k < a.len() ==> #[trigger] a[k] != '@' && a[k] != '$',
        forall|k: int| 0 <= k < n.len() ==> #[trigger] n[k] != '@' && n[k] != '$',
    ensures
        demangle_spec(seq!['.', '?', 'A', 'V'] + a + seq!['@'] + n + seq!['@', '@']) == Some(n + seq![':', ':'] + a),
        demangle_spec(seq!['.', '?', 'A', 'U'] + a + seq!['@'] + n + seq!['@', '@']) == Some(n + seq![':', ':'] + a),
{
    let body = a + seq!['@'] + n;
    let pv = seq!['.', '?', 'A', 'V'];
    let pu = seq!['.', '?', 'A', 'U'];
    assert(pv + a + seq!['@'] + n + seq!['@', '@'] =~= pv + body + seq!['@', '@']);
    lemma_class_body(body);
    lemma_two_scopes(a, n);
    assert forall|k: int| 0 <= k < body.len() implies #[trigger] body[k] != '$' by {
        if k < a.len() {
            assert(body[k] == a[k]);
        } else if k > a.len() {
            assert(body[k] == n[k - a.len() - 1]);
        }
    }
    lemma_no_template(body);
    assert(seq![a, n].reverse() =~= seq![n, a]);
    assert(seq![n, a].drop_last() =~= seq![n]);
    assert(join_with(seq![n], seq![':', ':']) == n);
    assert(join_with(seq![n, a], seq![':', ':']) == n + seq![':', ':'] + a);
    lemma_struct_name_demangles_like_class(body + seq!['@', '@']);
    assert(pu + a + seq!['@'] + n + seq!['@', '@'] =~= pu + (body + seq!['@', '@']));
    assert(pv + body + seq!['@', '@'] =~= pv + (body + seq!['@', '@']));
}

} // verus!
