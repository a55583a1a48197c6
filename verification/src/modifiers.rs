//! Bit flags for the modifier keys (Shift, Ctrl, Alt, Meta on either side), and
//! the mapping between those flags and the keys that produce them.
use vstd::prelude::*;
use crate::attribute_set::{KeyCodeSet, key_code_set_contents};
use crate::codes::{KeyCode, key_leftalt, key_leftctrl, key_leftmeta, key_leftshift, key_rightalt, key_rightctrl, key_rightmeta, key_rightshift};

verus! {

/// A set of modifier keys, one bit per key.
pub type Modifiers = u16;

pub const NONE: Modifiers = 0b0;

pub const LEFT_SHIFT: Modifiers = 0b0000_0000_0000_0001;
pub const RIGHT_SHIFT: Modifiers = 0b0000_0000_0000_0010;

pub const LEFT_CTRL: Modifiers = 0b0000_0000_0000_0100;
pub const RIGHT_CTRL: Modifiers = 0b0000_0000_0000_1000;

pub const LEFT_ALT: Modifiers = 0b0000_0000_0001_0000;
pub const RIGHT_ALT: Modifiers = 0b0000_0000_0010_0000;

pub const LEFT_META: Modifiers = 0b0000_0000_0100_0000;
pub const RIGHT_META: Modifiers = 0b0000_0000_1000_0000;

/// Number of modifier keys.
pub const MOD_COUNT: usize = 8;

/// The flag of the `i`-th modifier key, in the library's fixed order
/// (left shift, right shift, left ctrl, right ctrl, left alt, right alt,
/// left meta, right meta).
pub open spec fn modifier_bit(i: int) -> Modifiers {
    if i == 0 {
        LEFT_SHIFT
    } else if i == 1 {
        RIGHT_SHIFT
    } else if i == 2 {
        LEFT_CTRL
    } else if i == 3 {
        RIGHT_CTRL
    } else if i == 4 {
        LEFT_ALT
    } else if i == 5 {
        RIGHT_ALT
    } else if i == 6 {
        LEFT_META
    } else if i == 7 {
        RIGHT_META
    } else {
        NONE
    }
}

/// The scancode of the `i`-th modifier key.
pub open spec fn modifier_key(i: int) -> u16 {
    if i == 0 {
        42
    } else if i == 1 {
        54
    } else if i == 2 {
        29
    } else if i == 3 {
        97
    } else if i == 4 {
        56
    } else if i == 5 {
        100
    } else if i == 6 {
        125
    } else if i == 7 {
        126
    } else {
        0
    }
}

/// The flags of the first `n` modifier keys.
pub open spec fn low_mask(n: int) -> Modifiers {
    if n <= 0 {
        0x00
    } else if n == 1 {
        0x01
    } else if n == 2 {
        0x03
    } else if n == 3 {
        0x07
    } else if n == 4 {
        0x0f
    } else if n == 5 {
        0x1f
    } else if n == 6 {
        0x3f
    } else if n == 7 {
        0x7f
    } else {
        0xff
    }
}

/// The modifier flag that a key produces, `NONE` for a key that is no modifier.
pub open spec fn spec_modifier_from_keycode(code: u16) -> Modifiers {
    if code == 42 {
        LEFT_SHIFT
    } else if code == 54 {
        RIGHT_SHIFT
    } else if code == 29 {
        LEFT_CTRL
    } else if code == 97 {
        RIGHT_CTRL
    } else if code == 56 {
        LEFT_ALT
    } else if code == 100 {
        RIGHT_ALT
    } else if code == 125 {
        LEFT_META
    } else if code == 126 {
        RIGHT_META
    } else {
        NONE
    }
}

/// The keys of the set flags among the first `n` modifiers, in the fixed order.
pub open spec fn spec_keycodes_from_modifiers(modifiers: Modifiers, n: int) -> Seq<KeyCode>
    decreases n,
{
    if n <= 0 {
        Seq::empty()
    } else {
        let prev = spec_keycodes_from_modifiers(modifiers, n - 1);
        if modifier_bit(n - 1) & modifiers != 0 {
            prev.push(KeyCode(modifier_key(n - 1)))
        } else {
            prev
        }
    }
}

/// The flags of the first `n` modifiers whose key is in `keys`.
pub open spec fn spec_modifiers_from_key_codes(keys: Set<u16>, n: int) -> Modifiers
    decreases n,
{
    if n <= 0 {
        NONE
    } else {
        let prev = spec_modifiers_from_key_codes(keys, n - 1);
        if keys.contains(modifier_key(n - 1)) {
            prev | modifier_bit(n - 1)
        } else {
            prev
        }
    }
}

/// How the held modifiers change when a key event with `value` (0 release,
/// 1 press, anything else a repeat) arrives for `code`.
pub open spec fn spec_track_modifiers(held: Modifiers, code: u16, value: i32) -> Modifiers {
    let m = spec_modifier_from_keycode(code);
    if value == 0 {
        held & !m
    } else if value == 1 {
        held | m
    } else {
        held
    }
}

/// The held modifiers after key events `(code, value)` arrive in order.
pub open spec fn spec_track_all(held: Modifiers, events: Seq<(u16, i32)>) -> Modifiers
    decreases events.len(),
{
    if events.len() == 0 {
        held
    } else {
        let last = events.last();
        spec_track_modifiers(spec_track_all(held, events.drop_last()), last.0, last.1)
    }
}

/// Key events that press (`value == 1`) or release (`value == 0`) each key of `keys`.
pub open spec fn key_events(keys: Seq<KeyCode>, value: i32) -> Seq<(u16, i32)> {
    keys.map_values(|k: KeyCode| (k.0, value))
}

/// The modifier keys with their flags, in the fixed order.
fn mod_list() -> (list: [(Modifiers, KeyCode); 8])
    ensures
        forall|i: int|
            0 <= i < 8 ==> #[trigger] list@[i] == (modifier_bit(i), KeyCode(modifier_key(i))),
{
    [
        (LEFT_SHIFT, key_leftshift()),
        (RIGHT_SHIFT, key_rightshift()),
        (LEFT_CTRL, key_leftctrl()),
        (RIGHT_CTRL, key_rightctrl()),
        (LEFT_ALT, key_leftalt()),
        (RIGHT_ALT, key_rightalt()),
        (LEFT_META, key_leftmeta()),
        (RIGHT_META, key_rightmeta()),
    ]
}

/// Obtain a list of modifiers' keycode from a modifiers bit flag.
pub fn keycodes_from_modifiers(modifiers: Modifiers) -> (codes: Vec<KeyCode>)
    ensures
        codes@ == spec_keycodes_from_modifiers(modifiers, 8),
{
    let list = mod_list();
    let mut codes: Vec<KeyCode> = Vec::new();
    let mut i: usize = 0;
    while i < MOD_COUNT
        invariant
            i <= MOD_COUNT,
            forall|j: int| 0 <= j < 8 ==> #[trigger] list@[j] == (modifier_bit(j), KeyCode(modifier_key(j))),
            codes@ == spec_keycodes_from_modifiers(modifiers, i as int),
        decreases MOD_COUNT - i,
    {
        let (modifier, code) = list[i];
        assert(list@[i as int] == (modifier_bit(i as int), KeyCode(modifier_key(i as int))));
        if modifier & modifiers != 0 {
            codes.push(code);
        }
        i += 1;
    }
    codes
}

/// Obtain the modifiers from a list of key codes.
pub fn modifiers_from_key_codes(set: &KeyCodeSet) -> (modifiers: Modifiers)
    ensures
        modifiers == spec_modifiers_from_key_codes(key_code_set_contents(*set), 8),
{
    let list = mod_list();
    let mut modifiers: Modifiers = NONE;
    let mut i: usize = 0;
    while i < MOD_COUNT
        invariant
            i <= MOD_COUNT,
            forall|j: int| 0 <= j < 8 ==> #[trigger] list@[j] == (modifier_bit(j), KeyCode(modifier_key(j))),
            modifiers == spec_modifiers_from_key_codes(key_code_set_contents(*set), i as int),
        decreases MOD_COUNT - i,
    {
        let (modi, code) = list[i];
        assert(list@[i as int] == (modifier_bit(i as int), KeyCode(modifier_key(i as int))));
        if set.contains(code) {
            modifiers |= modi;
        }
        i += 1;
    }
    modifiers
}

/// Get modifier from a keycode, returns 0 if not a modifier.
pub fn modifier_from_keycode(key: KeyCode) -> (modifier: Modifiers)
    ensures
        modifier == spec_modifier_from_keycode(key.0),
{
    let list = mod_list();
    let mut i: usize = 0;
    while i < MOD_COUNT
        invariant
            i <= MOD_COUNT,
            forall|j: int| 0 <= j < 8 ==> #[trigger] list@[j] == (modifier_bit(j), KeyCode(modifier_key(j))),
            forall|j: int| 0 <= j < i ==> modifier_key(j) != key.0,
        decreases MOD_COUNT - i,
    {
        let (modi, code) = list[i];
        assert(list@[i as int] == (modifier_bit(i as int), KeyCode(modifier_key(i as int))));
        if key == code {
            return modi;
        }
        i += 1;
    }
    assert(modifier_key(0) != key.0 && modifier_key(1) != key.0 && modifier_key(2) != key.0
        && modifier_key(3) != key.0 && modifier_key(4) != key.0 && modifier_key(5) != key.0
        && modifier_key(6) != key.0 && modifier_key(7) != key.0);
    NONE
}

// ---------------------------------------------------------------------------
// Bit facts about the fixed flags.

proof fn lemma_flag_constants()
    ensures
        0x00u16 | 0x01u16 == 0x01u16,
        0x01u16 | 0x02u16 == 0x03u16,
        0x03u16 | 0x04u16 == 0x07u16,
        0x07u16 | 0x08u16 == 0x0fu16,
        0x0fu16 | 0x10u16 == 0x1fu16,
        0x1fu16 | 0x20u16 == 0x3fu16,
        0x3fu16 | 0x40u16 == 0x7fu16,
        0x7fu16 | 0x80u16 == 0xffu16,
        0x00u16 & 0x01u16 == 0u16,
        0x01u16 & 0x02u16 == 0u16,
        0x03u16 & 0x04u16 == 0u16,
        0x07u16 & 0x08u16 == 0u16,
        0x0fu16 & 0x10u16 == 0u16,
        0x1fu16 & 0x20u16 == 0u16,
        0x3fu16 & 0x40u16 == 0u16,
        0x7fu16 & 0x80u16 == 0u16,
{
    assert(0x00u16 | 0x01u16 == 0x01u16 && 0x01u16 | 0x02u16 == 0x03u16 && 0x03u16 | 0x04u16
        == 0x07u16 && 0x07u16 | 0x08u16 == 0x0fu16 && 0x0fu16 | 0x10u16 == 0x1fu16 && 0x1fu16
        | 0x20u16 == 0x3fu16 && 0x3fu16 | 0x40u16 == 0x7fu16 && 0x7fu16 | 0x80u16 == 0xffu16
        && 0x00u16 & 0x01u16 == 0u16 && 0x01u16 & 0x02u16 == 0u16 && 0x03u16 & 0x04u16 == 0u16
        && 0x07u16 & 0x08u16 == 0u16 && 0x0fu16 & 0x10u16 == 0u16 && 0x1fu16 & 0x20u16 == 0u16
        && 0x3fu16 & 0x40u16 == 0u16 && 0x7fu16 & 0x80u16 == 0u16) by (bit_vector);
}

/// One step of pressing the modifier keys of a flag set, in flag order.
proof fn lemma_or_step(s: u16, m: u16, lo: u16, b: u16, hi: u16)
    by (bit_vector)
    requires
        hi == lo | b,
        lo & b == 0,
        b == 1 || b == 2 || b == 4 || b == 8 || b == 16 || b == 32 || b == 64 || b == 128,
    ensures
        b & m != 0 ==> (s | (m & lo)) | b == s | (m & hi),
        b & m == 0 ==> s | (m & lo) == s | (m & hi),
        b & m != 0 ==> (m & lo) | b == m & hi,
        b & m == 0 ==> m & lo == m & hi,
{
}

/// One step of releasing the modifier keys of a flag set, in flag order.
proof fn lemma_and_not_step(s: u16, m: u16, lo: u16, b: u16, hi: u16)
    by (bit_vector)
    requires
        hi == lo | b,
        lo & b == 0,
        b == 1 || b == 2 || b == 4 || b == 8 || b == 16 || b == 32 || b == 64 || b == 128,
    ensures
        b & m != 0 ==> (s & !(m & lo)) & !b == s & !(m & hi),
        b & m == 0 ==> s & !(m & lo) == s & !(m & hi),
{
}

proof fn lemma_step_constants(n: int)
    requires
        0 <= n < 8,
    ensures
        low_mask(n + 1) == low_mask(n) | modifier_bit(n),
        low_mask(n) & modifier_bit(n) == 0,
        modifier_bit(n) == 1 || modifier_bit(n) == 2 || modifier_bit(n) == 4 || modifier_bit(n)
            == 8 || modifier_bit(n) == 16 || modifier_bit(n) == 32 || modifier_bit(n) == 64
            || modifier_bit(n) == 128,
        spec_modifier_from_keycode(modifier_key(n)) == modifier_bit(n),
{
    lemma_flag_constants();
}

pub(crate) proof fn lemma_track_all_push(held: Modifiers, events: Seq<(u16, i32)>, e: (u16, i32))
    ensures
        spec_track_all(held, events.push(e)) == spec_track_modifiers(
            spec_track_all(held, events),
            e.0,
            e.1,
        ),
{
    assert(events.push(e).drop_last() =~= events);
}

/// Tracking a concatenation of events is tracking the second part from where
/// the first part left the modifiers.
pub(crate) proof fn lemma_track_all_concat(held: Modifiers, a: Seq<(u16, i32)>, b: Seq<(u16, i32)>)
    ensures
        spec_track_all(held, a + b) == spec_track_all(spec_track_all(held, a), b),
    decreases b.len(),
{
    if b.len() == 0 {
        assert(a + b =~= a);
    } else {
        lemma_track_all_concat(held, a, b.drop_last());
        assert((a + b).drop_last() =~= a + b.drop_last());
        assert((a + b).last() == b.last());
    }
}

/// Pressing, in order, the keys that `keycodes_from_modifiers` lists for the
/// first `n` flags of `m` adds exactly those flags to the held modifiers;
/// releasing them removes exactly those flags.
pub(crate) proof fn lemma_track_listed_keys(held: Modifiers, m: Modifiers, n: int)
    requires
        0 <= n <= 8,
    ensures
        spec_track_all(held, key_events(spec_keycodes_from_modifiers(m, n), 1)) == held | (m
            & low_mask(n)),
        spec_track_all(held, key_events(spec_keycodes_from_modifiers(m, n), 0)) == held & !(m
            & low_mask(n)),
    decreases n,
{
    if n == 0 {
        assert(key_events(spec_keycodes_from_modifiers(m, 0), 1) =~= Seq::empty());
        assert(key_events(spec_keycodes_from_modifiers(m, 0), 0) =~= Seq::empty());
        assert(held | (m & 0u16) == held && held & !(m & 0u16) == held) by (bit_vector);
    } else {
        lemma_track_listed_keys(held, m, n - 1);
        lemma_step_constants(n - 1);
        let lo = low_mask(n - 1);
        let b = modifier_bit(n - 1);
        let hi = low_mask(n);
        lemma_or_step(held, m, lo, b, hi);
        lemma_and_not_step(held, m, lo, b, hi);
        let prev = spec_keycodes_from_modifiers(m, n - 1);
        if b & m != 0 {
            let k = KeyCode(modifier_key(n - 1));
            assert(key_events(prev.push(k), 1) =~= key_events(prev, 1).push((k.0, 1i32)));
            assert(key_events(prev.push(k), 0) =~= key_events(prev, 0).push((k.0, 0i32)));
            lemma_track_all_push(held, key_events(prev, 1), (k.0, 1i32));
            lemma_track_all_push(held, key_events(prev, 0), (k.0, 0i32));
        }
    }
}

/// The modifiers recovered from a set of keys, when the set holds exactly the
/// modifier keys of the first `n` flags of `m`, are those flags.
proof fn lemma_modifiers_from_listed_set(keys: Set<u16>, m: Modifiers, n: int)
    requires
        0 <= n <= 8,
        forall|i: int| 0 <= i < n ==> (keys.contains(modifier_key(i)) <==> modifier_bit(i) & m != 0),
    ensures
        spec_modifiers_from_key_codes(keys, n) == m & low_mask(n),
    decreases n,
{
    if n == 0 {
        assert(m & 0u16 == 0u16) by (bit_vector);
    } else {
        lemma_modifiers_from_listed_set(keys, m, n - 1);
        lemma_step_constants(n - 1);
        lemma_or_step(0, m, low_mask(n - 1), modifier_bit(n - 1), low_mask(n));
    }
}

proof fn lemma_listed_keys_contain(m: Modifiers, n: int, i: int)
    requires
        0 <= n <= 8,
        0 <= i < 8,
    ensures
        spec_keycodes_from_modifiers(m, n).contains(KeyCode(modifier_key(i))) <==> (i < n
            && modifier_bit(i) & m != 0),
    decreases n,
{
    if n > 0 {
        lemma_listed_keys_contain(m, n - 1, i);
        let prev = spec_keycodes_from_modifiers(m, n - 1);
        if modifier_bit(n - 1) & m != 0 {
            let k = KeyCode(modifier_key(n - 1));
            assert(prev.push(k).contains(KeyCode(modifier_key(i))) <==> (prev.contains(
                KeyCode(modifier_key(i)),
            ) || k == KeyCode(modifier_key(i)))) by {
                if prev.push(k).contains(KeyCode(modifier_key(i))) {
                    let j = choose|j: int|
                        0 <= j < prev.push(k).len() && prev.push(k)[j] == KeyCode(
                            modifier_key(i),
                        );
                    if j < prev.len() {
                        assert(prev[j] == KeyCode(modifier_key(i)));
                    }
                }
                if prev.contains(KeyCode(modifier_key(i))) {
                    let j = choose|j: int| 0 <= j < prev.len() && prev[j] == KeyCode(modifier_key(i));
                    assert(prev.push(k)[j] == KeyCode(modifier_key(i)));
                }
                if k == KeyCode(modifier_key(i)) {
                    assert(prev.push(k)[prev.len() as int] == k);
                }
            }
        }
    }
}

/// Each modifier flag belongs to exactly one key: a key produces a non-empty
/// flag exactly when it is one of the eight modifier keys, and then the flag of
/// that key.
pub proof fn law_modifier_of_key(code: u16)
    ensures
        spec_modifier_from_keycode(code) != NONE <==> exists|i: int|
            0 <= i < 8 && modifier_key(i) == code,
        forall|i: int| 0 <= i < 8 && modifier_key(i) == code ==> spec_modifier_from_keycode(code) == modifier_bit(i),
{
    if spec_modifier_from_keycode(code) != NONE {
        if code == 42 { assert(modifier_key(0) == code); }
        else if code == 54 { assert(modifier_key(1) == code); }
        else if code == 29 { assert(modifier_key(2) == code); }
        else if code == 97 { assert(modifier_key(3) == code); }
        else if code == 56 { assert(modifier_key(4) == code); }
        else if code == 100 { assert(modifier_key(5) == code); }
        else if code == 125 { assert(modifier_key(6) == code); }
        else { assert(modifier_key(7) == code); }
    }
}

/// Pressing the keys that `keycodes_from_modifiers(m)` lists, in order, adds
/// exactly the modifier flags of `m` to the held ones; releasing them removes
/// exactly those flags. Bits of `m` above the eight modifiers are ignored.
pub proof fn law_listed_keys_produce_modifiers(held: Modifiers, m: Modifiers)
    ensures
        spec_track_all(held, key_events(spec_keycodes_from_modifiers(m, 8), 1)) == held | (m
            & 0xff),
        spec_track_all(held, key_events(spec_keycodes_from_modifiers(m, 8), 0)) == held & !(m
            & 0xff),
{
    lemma_track_listed_keys(held, m, 8);
}

/// Reading the modifiers back from a key set that holds the keys listed by
/// `keycodes_from_modifiers(m)` (and no other modifier key) gives back `m`,
/// without the bits above the eight modifiers.
pub proof fn law_modifiers_roundtrip_through_key_set(keys: Set<u16>, m: Modifiers)
    requires
        forall|i: int|
            0 <= i < 8 ==> (keys.contains(modifier_key(i)) <==> spec_keycodes_from_modifiers(
                m,
                8,
            ).contains(KeyCode(modifier_key(i)))),
    ensures
        spec_modifiers_from_key_codes(keys, 8) == m & 0xff,
{
    assert forall|i: int| 0 <= i < 8 implies (keys.contains(modifier_key(i)) <==> modifier_bit(i)
        & m != 0) by {
        lemma_listed_keys_contain(m, 8, i);
    }
    lemma_modifiers_from_listed_set(keys, m, 8);
}

proof fn lemma_or_bits(p: u16, x: u16, y: u16, b: u16)
    by (bit_vector)
    ensures
        (p | x) & x == x,
        p & x == x ==> (p | y) & x == x,
        p & b == p && b & y == y ==> (p | y) & b == p | y,
        0u16 & b == 0u16,
        p & 0u16 == 0u16,
{
}

/// The modifiers read from `keys` hold the flag of each modifier key among
/// the first `n` that `keys` holds.
proof fn lemma_from_keys_has_flag(keys: Set<u16>, n: int, i: int)
    requires
        0 <= i < n <= 8,
        keys.contains(modifier_key(i)),
    ensures
        spec_modifiers_from_key_codes(keys, n) & modifier_bit(i) == modifier_bit(i),
    decreases n,
{
    let prev = spec_modifiers_from_key_codes(keys, n - 1);
    lemma_or_bits(prev, modifier_bit(i), modifier_bit(n - 1), 0);
    if i < n - 1 {
        lemma_from_keys_has_flag(keys, n - 1, i);
    }
}

/// The modifiers read from `keys` lie within any flag set that holds the flag
/// of each modifier key among the first `n` that `keys` holds.
proof fn lemma_from_keys_within(keys: Set<u16>, b: Modifiers, n: int)
    requires
        0 <= n <= 8,
        forall|i: int|
            0 <= i < n && keys.contains(modifier_key(i)) ==> b & modifier_bit(i) == modifier_bit(i),
    ensures
        spec_modifiers_from_key_codes(keys, n) & b == spec_modifiers_from_key_codes(keys, n),
    decreases n,
{
    if n == 0 {
        lemma_or_bits(0, 0, 0, b);
    } else {
        lemma_from_keys_within(keys, b, n - 1);
        let prev = spec_modifiers_from_key_codes(keys, n - 1);
        lemma_or_bits(prev, 0, modifier_bit(n - 1), b);
    }
}

/// The modifiers read from any key set are the union of the flags of its
/// keys: they hold the flag of each key of the set, and lie within any flag
/// set that holds the flag of each key of the set.
pub proof fn law_modifiers_from_keys_are_their_union(keys: Set<u16>, c: u16, b: Modifiers)
    ensures
        keys.contains(c) ==> spec_modifiers_from_key_codes(keys, 8) & spec_modifier_from_keycode(c)
            == spec_modifier_from_keycode(c),
        (forall|k: u16| #[trigger] keys.contains(k) ==> b & spec_modifier_from_keycode(k)
            == spec_modifier_from_keycode(k)) ==> spec_modifiers_from_key_codes(keys, 8) & b
            == spec_modifiers_from_key_codes(keys, 8),
{
    let r = spec_modifiers_from_key_codes(keys, 8);
    if keys.contains(c) {
        law_modifier_of_key(c);
        if spec_modifier_from_keycode(c) == NONE {
            lemma_or_bits(r, 0, 0, 0);
        } else {
            let i = choose|i: int| 0 <= i < 8 && modifier_key(i) == c;
            lemma_from_keys_has_flag(keys, 8, i);
        }
    }
    if forall|k: u16| #[trigger] keys.contains(k) ==> b & spec_modifier_from_keycode(k)
        == spec_modifier_from_keycode(k) {
        assert forall|i: int| 0 <= i < 8 && keys.contains(modifier_key(i)) implies b & modifier_bit(i)
            == modifier_bit(i) by {
            lemma_step_constants(i);
            assert(keys.contains(modifier_key(i)));
        }
        lemma_from_keys_within(keys, b, 8);
    }
}

proof fn lemma_track_bits(held: Modifiers, m: Modifiers)
    by (bit_vector)
    requires
        held & 0xff00 == 0,
        m & 0xff00 == 0,
    ensures
        (held & !m) & 0xff00 == 0,
        (held | m) & 0xff00 == 0,
{
}

/// The held modifiers only ever hold modifier flags: from held flags within the
/// eight modifiers, key events never set another bit.
pub proof fn law_tracked_modifiers_stay_modifiers(held: Modifiers, events: Seq<(u16, i32)>)
    requires
        held & 0xff00 == 0,
    ensures
        spec_track_all(held, events) & 0xff00 == 0,
    decreases events.len(),
{
    if events.len() > 0 {
        law_tracked_modifiers_stay_modifiers(held, events.drop_last());
        let prev = spec_track_all(held, events.drop_last());
        let m = spec_modifier_from_keycode(events.last().0);
        assert(m & 0xff00 == 0) by {
            assert(0u16 & 0xff00u16 == 0u16 && 1u16 & 0xff00u16 == 0u16 && 2u16 & 0xff00u16 == 0u16
                && 4u16 & 0xff00u16 == 0u16 && 8u16 & 0xff00u16 == 0u16 && 16u16 & 0xff00u16 == 0u16
                && 32u16 & 0xff00u16 == 0u16 && 64u16 & 0xff00u16 == 0u16 && 128u16 & 0xff00u16
                == 0u16) by (bit_vector);
        }
        lemma_track_bits(prev, m);
    }
}

} // verus!
