//! Hotkeys of the scan actions: the table kept by the panel, the list written to the
//! configuration (one entry per action, ordered by its key), and reading that list back.
use vstd::prelude::*;
use crate::scan::{action_from_key, action_key, lemma_action_key_roundtrip, lemma_action_keys_distinct, MemoryScanAction};
use crate::saved::HotkeyBinding;
use crate::panel::{AppState, CrosshairApp, MemoryPanelState};
use crate::text::chars_of;

verus! {

/// The keys of a combination, each with whether it is a modifier (Ctrl, Shift, Alt, Win).
pub open spec fn keys_view(keys: Seq<(String, bool)>) -> Seq<(Seq<char>, bool)> {
    keys.map_values(|k: (String, bool)| (k.0@, k.1))
}

/// The index of the last key that is not a modifier.
pub open spec fn last_plain_key(keys: Seq<(Seq<char>, bool)>) -> Option<int>
    decreases keys.len(),
{
    if keys.len() == 0 {
        None
    } else if !keys.last().1 {
        Some(keys.len() - 1)
    } else {
        last_plain_key(keys.drop_last())
    }
}

/// The first character of each key that has one, in order.
pub open spec fn key_initials(keys: Seq<(Seq<char>, bool)>) -> Seq<char>
    decreases keys.len(),
{
    if keys.len() == 0 {
        Seq::empty()
    } else {
        let rest = key_initials(keys.drop_last());
        if keys.last().0.len() > 0 {
            rest.push(keys.last().0[0])
        } else {
            rest
        }
    }
}

/// The first three characters of `s`, or all of them when fewer.
pub open spec fn first3(s: Seq<char>) -> Seq<char> {
    if s.len() >= 3 { s.subrange(0, 3) } else { s }
}

/// The short label of a combination: the first three characters of its last key that is
/// not a modifier, else the initials of its keys, at most three.
pub open spec fn compact_label(keys: Seq<(Seq<char>, bool)>) -> Seq<char> {
    match last_plain_key(keys) {
        Some(i) => first3(keys[i].0),
        None => first3(key_initials(keys)),
    }
}

/// The first `n` characters of `v`, or all of them when fewer.
fn first_chars(v: &Vec<char>, n: usize) -> (s: String)
    ensures
        s@ == if v@.len() >= n { v@.subrange(0, n as int) } else { v@ },
{
    let m = if v.len() >= n { n } else { v.len() };
    assert(v@.len() < n ==> v@.subrange(0, m as int) == v@);
    crate::text::string_of(v, 0, m)
}

/// The short label shown for a key combination, given as its keys, each with whether it
/// is a modifier.
pub fn compact_hotkey_label(keys: &[(String, bool)]) -> (s: String)
    ensures
        s@ == compact_label(keys_view(keys@)),
{
    let ghost kv = keys_view(keys@);
    let mut i: usize = keys.len();
    assert(kv.subrange(0, i as int) == kv);
    while i > 0
        invariant
            i <= keys@.len(),
            kv == keys_view(keys@),
            last_plain_key(kv) == last_plain_key(kv.subrange(0, i as int)),
        decreases i,
    {
        let ghost pre = kv.subrange(0, i as int);
        assert(pre.last() == kv[i - 1]);
        assert(pre.drop_last() == kv.subrange(0, i - 1));
        if !keys[i - 1].1 {
            let v = chars_of(keys[i - 1].0.as_str());
            return first_chars(&v, 3);
        }
        i = i - 1;
    }
    let mut initials: Vec<char> = Vec::new();
    let mut j: usize = 0;
    assert(kv.subrange(0, 0) =~= Seq::<(Seq<char>, bool)>::empty());
    while j < keys.len()
        invariant
            j <= keys@.len(),
            kv == keys_view(keys@),
            initials@ == key_initials(kv.subrange(0, j as int)),
        decreases keys@.len() - j,
    {
        let ghost pre = kv.subrange(0, j + 1);
        assert(pre.last() == kv[j as int]);
        assert(pre.drop_last() == kv.subrange(0, j as int));
        let v = chars_of(keys[j].0.as_str());
        if v.len() > 0 {
            initials.push(v[0]);
        }
        j = j + 1;
    }
    assert(kv.subrange(0, kv.len() as int) == kv);
    first_chars(&initials, 3)
}

impl HotkeyBinding {
    /// A copy of this binding.
    pub fn duplicate(&self) -> (r: HotkeyBinding)
        ensures
            r == *self,
    {
        HotkeyBinding { label: self.label.clone() }
    }
}

/// Whether no action has two entries.
pub open spec fn distinct_actions(s: Seq<(MemoryScanAction, HotkeyBinding)>) -> bool {
    forall|i: int, j: int| 0 <= i < j < s.len() ==> (#[trigger] s[i]).0 != (#[trigger] s[j]).0
}

/// The bindings of a hotkey table, by action; a later entry wins.
pub open spec fn hotkey_map(s: Seq<(MemoryScanAction, HotkeyBinding)>) -> Map<MemoryScanAction, Seq<char>>
    decreases s.len(),
{
    if s.len() == 0 {
        Map::empty()
    } else {
        hotkey_map(s.drop_last()).insert(s.last().0, s.last().1.label@)
    }
}

/// The bindings read from a stored list: each entry whose key names an action, a later
/// entry winning.
pub open spec fn stored_map(s: Seq<(String, HotkeyBinding)>) -> Map<MemoryScanAction, Seq<char>>
    decreases s.len(),
{
    if s.len() == 0 {
        Map::empty()
    } else {
        let rest = stored_map(s.drop_last());
        match action_from_key(s.last().0@) {
            Some(a) => rest.insert(a, s.last().1.label@),
            None => rest,
        }
    }
}

/// Whether `a` sorts before `b`: at the first position where they differ, `a` has the
/// smaller character, or `a` ends there and `b` does not.
pub open spec fn lex_lt(a: Seq<char>, b: Seq<char>) -> bool {
    exists|k: int| #[trigger] common_prefix(a, b, k) && k < b.len() && (k == a.len() || a[k] < b[k])
}

/// Whether `a` and `b` agree on their first `k` characters.
pub open spec fn common_prefix(a: Seq<char>, b: Seq<char>, k: int) -> bool {
    0 <= k <= a.len() && k <= b.len() && forall|i: int| 0 <= i < k ==> a[i] == b[i]
}

/// Whether some element of `src` is `k`.
pub open spec fn listed(src: Seq<int>, k: int) -> bool {
    exists|i: int| 0 <= i < src.len() && #[trigger] src[i] == k
}

/// Whether `out` is the table `h` written for the configuration: entry `i` is entry
/// `src[i]` of `h` under its action's key, every entry of `h` once, keys ascending.
pub open spec fn hotkeys_stored(h: Seq<(MemoryScanAction, HotkeyBinding)>, out: Seq<(String, HotkeyBinding)>, src: Seq<int>) -> bool {
    &&& src.len() == h.len()
    &&& out.len() == h.len()
    &&& forall|i: int| 0 <= i < src.len() ==> 0 <= #[trigger] src[i] < h.len()
        && out[i].0@ == action_key(h[src[i]].0) && out[i].1 == h[src[i]].1
    &&& forall|i: int, j: int| 0 <= i < j < src.len() ==> #[trigger] src[i] != #[trigger] src[j]
    &&& forall|k: int| 0 <= k < h.len() ==> #[trigger] listed(src, k)
    &&& forall|i: int, j: int| 0 <= i < j < out.len() ==> lex_lt((#[trigger] out[i]).0@, (#[trigger] out[j]).0@)
}

/// `lex_lt` is transitive.
pub proof fn lemma_lex_lt_transitive(a: Seq<char>, b: Seq<char>, c: Seq<char>)
    requires
        lex_lt(a, b),
        lex_lt(b, c),
    ensures
        lex_lt(a, c),
{
    let k1 = choose|k: int| #[trigger] common_prefix(a, b, k) && k < b.len() && (k == a.len() || a[k] < b[k]);
    let k2 = choose|k: int| #[trigger] common_prefix(b, c, k) && k < c.len() && (k == b.len() || b[k] < c[k]);
    if k1 <= k2 {
        assert(common_prefix(a, c, k1));
    } else {
        assert(common_prefix(a, c, k2));
    }
}

/// Two different texts are ordered one way or the other.
pub proof fn lemma_lex_lt_total(a: Seq<char>, b: Seq<char>)
    requires
        a != b,
    ensures
        lex_lt(a, b) || lex_lt(b, a),
{
    lemma_lex_lt_total_from(a, b, 0);
}

/// Texts that differ and agree on their first `k` characters are ordered one way or the
/// other.
proof fn lemma_lex_lt_total_from(a: Seq<char>, b: Seq<char>, k: int)
    requires
        a != b,
        common_prefix(a, b, k),
    ensures
        lex_lt(a, b) || lex_lt(b, a),
    decreases a.len() - k,
{
    if k < a.len() && k < b.len() && a[k] == b[k] {
        lemma_lex_lt_total_from(a, b, k + 1);
    } else {
        assert(common_prefix(b, a, k));
        if k == a.len() && k == b.len() {
            assert(a =~= b);
        }
    }
}

/// Whether `a` sorts before `b`.
fn str_lt(a: &str, b: &str) -> (r: bool)
    ensures
        r == lex_lt(a@, b@),
{
    let va = chars_of(a);
    let vb = chars_of(b);
    let mut i: usize = 0;
    while i < va.len() && i < vb.len() && va[i] == vb[i]
        invariant
            va@ == a@,
            vb@ == b@,
            common_prefix(a@, b@, i as int),
        decreases va@.len() - i,
    {
        i = i + 1;
    }
    let r = i < vb.len() && (i == va.len() || va[i] < vb[i]);
    proof {
        if r {
            assert(common_prefix(a@, b@, i as int));
        } else if lex_lt(a@, b@) {
            let k = choose|k: int| #[trigger] common_prefix(a@, b@, k) && k < b@.len() && (k == a@.len() || a@[k] < b@[k]);
            if k < i {
                assert(a@[k] == b@[k]);
            } else if k > i {
                assert(a@[i as int] == b@[i as int]);
            }
        }
    }
    r
}

/// Inserting a binding replaces the entry of its action, or adds one.
pub proof fn lemma_hotkey_map_update(s: Seq<(MemoryScanAction, HotkeyBinding)>, i: int, b: HotkeyBinding)
    requires
        distinct_actions(s),
        0 <= i < s.len(),
    ensures
        hotkey_map(s.update(i, (s[i].0, b))) == hotkey_map(s).insert(s[i].0, b.label@),
    decreases s.len(),
{
    let a = s[i].0;
    let t = s.update(i, (a, b));
    if i == s.len() - 1 {
        assert(t.drop_last() == s.drop_last());
    } else {
        assert(t.drop_last() == s.drop_last().update(i, (a, b)));
        lemma_hotkey_map_update(s.drop_last(), i, b);
        assert(s.last().0 != a);
        assert(hotkey_map(t) =~= hotkey_map(s).insert(a, b.label@));
    }
}

/// Whether `h` has an entry for `a`.
pub open spec fn has_action(h: Seq<(MemoryScanAction, HotkeyBinding)>, a: MemoryScanAction) -> bool {
    exists|i: int| 0 <= i < h.len() && (#[trigger] h[i]).0 == a
}

/// The table has a binding exactly for the actions it lists.
pub proof fn lemma_hotkey_map_domain(s: Seq<(MemoryScanAction, HotkeyBinding)>)
    ensures
        forall|a: MemoryScanAction| #[trigger] hotkey_map(s).contains_key(a) <==> has_action(s, a),
    decreases s.len(),
{
    if s.len() > 0 {
        lemma_hotkey_map_domain(s.drop_last());
        assert forall|a: MemoryScanAction| #[trigger] hotkey_map(s).contains_key(a) <==> has_action(s, a) by {
            let n = s.len() - 1;
            assert(s[n] == s.last());
            assert(hotkey_map(s) == hotkey_map(s.drop_last()).insert(s.last().0, s.last().1.label@));
            assert(hotkey_map(s.drop_last()).contains_key(a) <==> has_action(s.drop_last(), a));
            if a == s.last().0 {
                assert(s[n].0 == a);
            } else {
                if has_action(s.drop_last(), a) {
                    let i = choose|i: int| 0 <= i < s.drop_last().len() && (#[trigger] s.drop_last()[i]).0 == a;
                    assert(s[i].0 == a);
                }
                if has_action(s, a) {
                    let i = choose|i: int| 0 <= i < s.len() && (#[trigger] s[i]).0 == a;
                    assert(i != n);
                    assert(s.drop_last()[i].0 == a);
                }
            }
        }
    }
}

/// Sets `action`'s binding in a table with distinct actions.
fn set_hotkey(hotkeys: &mut Vec<(MemoryScanAction, HotkeyBinding)>, action: MemoryScanAction, binding: HotkeyBinding)
    requires
        distinct_actions(old(hotkeys)@),
    ensures
        distinct_actions(final(hotkeys)@),
        hotkey_map(final(hotkeys)@) == hotkey_map(old(hotkeys)@).insert(action, binding.label@),
{
    let mut i: usize = 0;
    while i < hotkeys.len()
        invariant
            i <= hotkeys@.len(),
            hotkeys@ == old(hotkeys)@,
            distinct_actions(old(hotkeys)@),
            forall|k: int| 0 <= k < i ==> (#[trigger] hotkeys@[k]).0 != action,
        decreases hotkeys@.len() - i,
    {
        if hotkeys[i].0 == action {
            let ghost label = binding.label@;
            proof {
                lemma_hotkey_map_update(hotkeys@, i as int, binding);
            }
            hotkeys.set(i, (action, binding));
            assert(hotkeys@ == old(hotkeys)@.update(i as int, (old(hotkeys)@[i as int].0, hotkeys@[i as int].1)));
            return;
        }
        i = i + 1;
    }
    let ghost before = hotkeys@;
    hotkeys.push((action, binding));
    assert(hotkeys@.drop_last() == before);
}

impl MemoryPanelState {
    /// A default panel whose hotkeys are read from the stored list: each entry whose key
    /// names an action, a later entry for the same action winning.
    pub fn with_hotkeys(stored: &[(String, HotkeyBinding)], _pointers: &[crate::library::MemoryPointerEntry]) -> (state: Self)
        ensures
            distinct_actions(state.hotkeys@),
            hotkey_map(state.hotkeys@) == stored_map(stored@),
            crate::panel::fresh_apart_from_hotkeys(state),
    {
        let mut state = MemoryPanelState::default();
        let mut i: usize = 0;
        while i < stored.len()
            invariant
                i <= stored@.len(),
                distinct_actions(state.hotkeys@),
                hotkey_map(state.hotkeys@) == stored_map(stored@.subrange(0, i as int)),
                crate::panel::fresh_apart_from_hotkeys(state),
            decreases stored@.len() - i,
        {
            proof {
                let pre = stored@.subrange(0, i + 1);
                assert(pre.drop_last() == stored@.subrange(0, i as int));
                assert(pre.last() == stored@[i as int]);
            }
            let (key, binding) = &stored[i];
            match MemoryScanAction::from_config_key(key.as_str()) {
                Some(action) => {
                    set_hotkey(&mut state.hotkeys, action, binding.duplicate());
                },
                None => {},
            }
            i = i + 1;
        }
        assert(stored@.subrange(0, stored@.len() as int) == stored@);
        state
    }
}

/// `lex_lt` never holds of a text and itself.
pub proof fn lemma_lex_lt_irreflexive(a: Seq<char>)
    ensures
        !lex_lt(a, a),
{
}

/// A key names at most the action whose key it is.
pub proof fn lemma_action_from_key_exact(key: Seq<char>)
    ensures
        match action_from_key(key) {
            Some(a) => key == action_key(a),
            None => true,
        },
{
    reveal_strlit("first_scan");
    reveal_strlit("unknown");
    reveal_strlit("exact");
    reveal_strlit("increased");
    reveal_strlit("decreased");
    reveal_strlit("changed");
    reveal_strlit("unchanged");
    reveal_strlit("less");
    reveal_strlit("greater");
    reveal_strlit("between");
}

/// In a table with distinct actions, each entry's binding is the one its action has.
pub proof fn lemma_hotkey_map_value(s: Seq<(MemoryScanAction, HotkeyBinding)>, i: int)
    requires
        distinct_actions(s),
        0 <= i < s.len(),
    ensures
        hotkey_map(s).contains_key(s[i].0),
        hotkey_map(s)[s[i].0] == s[i].1.label@,
    decreases s.len(),
{
    if i < s.len() - 1 {
        assert(s.drop_last()[i] == s[i]);
        lemma_hotkey_map_value(s.drop_last(), i);
        assert(s.last().0 != s[i].0) by {
            assert(s[s.len() - 1] == s.last());
        }
    }
}

/// Whether the stored keys are all different.
pub open spec fn distinct_keys(s: Seq<(String, HotkeyBinding)>) -> bool {
    forall|i: int, j: int| 0 <= i < j < s.len() ==> (#[trigger] s[i]).0@ != (#[trigger] s[j]).0@
}

/// With distinct keys, each stored entry naming an action gives that action's binding.
pub proof fn lemma_stored_map_value(s: Seq<(String, HotkeyBinding)>, i: int, a: MemoryScanAction)
    requires
        distinct_keys(s),
        0 <= i < s.len(),
        action_from_key(s[i].0@) == Some(a),
    ensures
        stored_map(s).contains_key(a),
        stored_map(s)[a] == s[i].1.label@,
    decreases s.len(),
{
    let n = s.len() - 1;
    assert(s[n] == s.last());
    if i < n {
        assert(s.drop_last()[i] == s[i]);
        lemma_stored_map_value(s.drop_last(), i, a);
        lemma_action_from_key_exact(s[i].0@);
        lemma_action_from_key_exact(s.last().0@);
        assert(s.last().0@ != s[i].0@);
    }
}

/// Every action with a stored binding is named by a stored key.
pub proof fn lemma_stored_map_domain(s: Seq<(String, HotkeyBinding)>, a: MemoryScanAction)
    requires
        stored_map(s).contains_key(a),
    ensures
        exists|i: int| 0 <= i < s.len() && action_from_key((#[trigger] s[i]).0@) == Some(a),
    decreases s.len(),
{
    let n = s.len() - 1;
    assert(s[n] == s.last());
    if action_from_key(s.last().0@) != Some(a) {
        lemma_stored_map_domain(s.drop_last(), a);
        let i = choose|i: int| 0 <= i < s.drop_last().len() && action_from_key((#[trigger] s.drop_last()[i]).0@) == Some(a);
        assert(s[i] == s.drop_last()[i]);
    }
}

/// Reading back the hotkey list written for a table gives the table's bindings.
pub proof fn lemma_hotkeys_roundtrip(h: Seq<(MemoryScanAction, HotkeyBinding)>, out: Seq<(String, HotkeyBinding)>, src: Seq<int>)
    requires
        distinct_actions(h),
        hotkeys_stored(h, out, src),
    ensures
        stored_map(out) == hotkey_map(h),
{
    assert(distinct_keys(out)) by {
        assert forall|i: int, j: int| 0 <= i < j < out.len() implies (#[trigger] out[i]).0@ != (#[trigger] out[j]).0@ by {
            lemma_lex_lt_irreflexive(out[i].0@);
        }
    }
    lemma_hotkey_map_domain(h);
    assert forall|a: MemoryScanAction| #[trigger] hotkey_map(h).dom().contains(a) implies stored_map(out).dom().contains(a)
        && stored_map(out)[a] == hotkey_map(h)[a] by {
        assert(has_action(h, a));
        let k = choose|k: int| 0 <= k < h.len() && (#[trigger] h[k]).0 == a;
        assert(listed(src, k));
        let i = choose|i: int| 0 <= i < src.len() && #[trigger] src[i] == k;
        lemma_action_key_roundtrip(a);
        lemma_stored_map_value(out, i, a);
        lemma_hotkey_map_value(h, k);
    }
    assert forall|a: MemoryScanAction| #[trigger] stored_map(out).dom().contains(a) implies hotkey_map(h).dom().contains(a) by {
        lemma_stored_map_domain(out, a);
        let i = choose|i: int| 0 <= i < out.len() && action_from_key((#[trigger] out[i]).0@) == Some(a);
        lemma_action_key_roundtrip(h[src[i]].0);
        assert(h[src[i]].0 == a);
        assert(has_action(h, a));
    }
    assert(stored_map(out) =~= hotkey_map(h));
}

/// The first position among the sorted entries where `key` goes.
fn key_position(out: &Vec<(String, HotkeyBinding)>, key: &str) -> (p: usize)
    ensures
        p <= out@.len(),
        forall|k: int| 0 <= k < p ==> !lex_lt(key@, (#[trigger] out@[k]).0@),
        p < out@.len() ==> lex_lt(key@, out@[p as int].0@),
{
    let mut p: usize = 0;
    while p < out.len()
        invariant
            p <= out@.len(),
            forall|k: int| 0 <= k < p ==> !lex_lt(key@, (#[trigger] out@[k]).0@),
        decreases out@.len() - p,
    {
        if str_lt(key, out[p].0.as_str()) {
            return p;
        }
        p = p + 1;
    }
    p
}

impl CrosshairApp {
    /// Sets the binding of `action` from a finished key capture, ends the capture, and
    /// writes the hotkey list.
    pub fn finish_memory_hotkey_capture(&mut self, action: MemoryScanAction, binding: HotkeyBinding)
        requires
            distinct_actions(old(self).memory_panel.hotkeys@),
        ensures
            distinct_actions(final(self).memory_panel.hotkeys@),
            hotkey_map(final(self).memory_panel.hotkeys@) == hotkey_map(old(self).memory_panel.hotkeys@).insert(action, binding.label@),
            final(self).memory_panel.capturing_hotkey is None,
            final(self).capture_hotkey_combo_keys is None,
            final(self).capture_hotkey_combo_vks@.len() == 0,
            final(self).memory_panel == (MemoryPanelState {
                hotkeys: final(self).memory_panel.hotkeys,
                capturing_hotkey: None,
                ..old(self).memory_panel
            }),
            exists|src: Seq<int>| hotkeys_stored(final(self).memory_panel.hotkeys@, final(self).state.memory_scan_hotkeys@, src),
            final(self).state == (AppState { memory_scan_hotkeys: final(self).state.memory_scan_hotkeys, ..old(self).state }),
    {
        set_hotkey(&mut self.memory_panel.hotkeys, action, binding);
        self.memory_panel.capturing_hotkey = None;
        self.capture_hotkey_combo_keys = None;
        self.capture_hotkey_combo_vks.clear();
        self.persist_memory_hotkeys();
    }

    /// Writes the hotkey table to the configuration: each binding under its action's key,
    /// ordered by key.
    pub fn persist_memory_hotkeys(&mut self)
        requires
            distinct_actions(old(self).memory_panel.hotkeys@),
        ensures
            exists|src: Seq<int>| hotkeys_stored(old(self).memory_panel.hotkeys@, final(self).state.memory_scan_hotkeys@, src),
            final(self).state == (AppState { memory_scan_hotkeys: final(self).state.memory_scan_hotkeys, ..old(self).state }),
            final(self).memory_panel == old(self).memory_panel,
            final(self).capture_hotkey_combo_keys == old(self).capture_hotkey_combo_keys,
            final(self).capture_hotkey_combo_vks == old(self).capture_hotkey_combo_vks,
    {
        let ghost h = self.memory_panel.hotkeys@;
        let mut out: Vec<(String, HotkeyBinding)> = Vec::new();
        let ghost mut src: Seq<int> = Seq::empty();
        let mut j: usize = 0;
        while j < self.memory_panel.hotkeys.len()
            invariant
                h == self.memory_panel.hotkeys@,
                distinct_actions(h),
                j <= h.len(),
                src.len() == j,
                out@.len() == j,
                forall|i: int| 0 <= i < src.len() ==> 0 <= #[trigger] src[i] < j
                    && out@[i].0@ == action_key(h[src[i]].0) && out@[i].1 == h[src[i]].1,
                forall|a: int, b: int| 0 <= a < b < src.len() ==> #[trigger] src[a] != #[trigger] src[b],
                forall|k: int| 0 <= k < j ==> #[trigger] listed(src, k),
                forall|a: int, b: int| 0 <= a < b < out@.len() ==> lex_lt((#[trigger] out@[a]).0@, (#[trigger] out@[b]).0@),
            decreases h.len() - j,
        {
            let (action, binding) = &self.memory_panel.hotkeys[j];
            let key = crate::text::owned(action.config_key());
            let p = key_position(&out, key.as_str());
            let ghost old_out = out@;
            let ghost old_src = src;
            proof {
                assert forall|i: int| 0 <= i < old_out.len() implies old_out[i].0@ != key@ by {
                    lemma_action_keys_distinct(h[old_src[i]].0, *action);
                }
            }
            out.insert(p, (key, binding.duplicate()));
            proof {
                src = src.insert(p as int, j as int);
                let r = out@;
                assert forall|i: int| 0 <= i < src.len() implies 0 <= #[trigger] src[i] < j + 1
                    && r[i].0@ == action_key(h[src[i]].0) && r[i].1 == h[src[i]].1 by {
                    if i < p {
                        assert(r[i] == old_out[i] && src[i] == old_src[i]);
                    } else if i > p {
                        assert(r[i] == old_out[i - 1] && src[i] == old_src[i - 1]);
                    }
                }
                assert forall|a: int, b: int| 0 <= a < b < src.len() implies #[trigger] src[a] != #[trigger] src[b] by {
                    if a < p && b < p {
                    } else if a > p && b > p {
                        assert(src[a] == old_src[a - 1] && src[b] == old_src[b - 1]);
                    } else if a < p && b > p {
                        assert(src[b] == old_src[b - 1]);
                    } else if a == p {
                        assert(src[b] == old_src[b - 1]);
                    }
                }
                assert forall|k: int| 0 <= k < j + 1 implies #[trigger] listed(src, k) by {
                    if k == j {
                        assert(src[p as int] == k);
                    } else {
                        assert(listed(old_src, k));
                        let i0 = choose|i: int| 0 <= i < old_src.len() && #[trigger] old_src[i] == k;
                        if i0 < p {
                            assert(src[i0] == k);
                        } else {
                            assert(src[i0 + 1] == k);
                        }
                    }
                }
                assert forall|a: int, b: int| 0 <= a < b < r.len() implies lex_lt((#[trigger] r[a]).0@, (#[trigger] r[b]).0@) by {
                    if a < p && b < p {
                        assert(r[a] == old_out[a] && r[b] == old_out[b]);
                    } else if a > p && b > p {
                        assert(r[a] == old_out[a - 1] && r[b] == old_out[b - 1]);
                    } else if a < p && b > p {
                        assert(r[a] == old_out[a] && r[b] == old_out[b - 1]);
                        lemma_lex_lt_total(old_out[a].0@, key@);
                        if b - 1 > p {
                            lemma_lex_lt_transitive(key@, old_out[p as int].0@, old_out[b - 1].0@);
                        }
                        lemma_lex_lt_transitive(old_out[a].0@, key@, old_out[b - 1].0@);
                    } else if a == p {
                        assert(r[b] == old_out[b - 1]);
                        if b - 1 > p {
                            lemma_lex_lt_transitive(key@, old_out[p as int].0@, old_out[b - 1].0@);
                        }
                    } else {
                        assert(r[a] == old_out[a]);
                        lemma_lex_lt_total(old_out[a].0@, key@);
                    }
                }
            }
            j = j + 1;
        }
        assert(hotkeys_stored(h, out@, src));
        self.state.memory_scan_hotkeys = out;
        assert(hotkeys_stored(h, self.state.memory_scan_hotkeys@, src));
    }
}

} // verus!
