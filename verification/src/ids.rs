//! Identifiers for pools, datasets, containers, syncs, observers and
//! subvolumes: a 128-bit id with the usual lowercase hyphenated text form
//! (eight, four, four, four and twelve hexadecimal digits).

use vstd::arithmetic::div_mod::{lemma_basic_div, lemma_div_denominator, lemma_fundamental_div_mod};
use vstd::prelude::*;

use crate::text::{hex_char, hex_val, lemma_hex_char_val, push_dash, push_hex_char};
use vstd::string::StrSliceExecFns;

verus! {

/// Sixteen raised to the power `k`.
pub open spec fn pow16(k: nat) -> int
    decreases k,
{
    if k == 0 {
        1
    } else {
        16 * pow16((k - 1) as nat)
    }
}

/// The `j`-th hexadecimal digit of `v`, counted from the least significant.
pub open spec fn nibble_of(v: u128, j: int) -> int {
    (v as int / pow16(j as nat)) % 16
}

/// Positions of the four hyphens in the 36-character text form.
pub open spec fn is_dash_pos(p: int) -> bool {
    p == 8 || p == 13 || p == 18 || p == 23
}

/// How many hexadecimal digits precede position `p` of the text form.
pub open spec fn hex_pos(p: int) -> int {
    if p <= 8 {
        p
    } else if p <= 13 {
        p - 1
    } else if p <= 18 {
        p - 2
    } else if p <= 23 {
        p - 3
    } else {
        p - 4
    }
}

/// The text-form position of the `q`-th hexadecimal digit (most significant
/// first).
pub open spec fn char_pos(q: int) -> int {
    if q < 8 {
        q
    } else if q < 12 {
        q + 1
    } else if q < 16 {
        q + 2
    } else if q < 20 {
        q + 3
    } else {
        q + 4
    }
}

/// The character at position `p` of the text form of `v`.
pub open spec fn uuid_char_at(v: u128, p: int) -> char {
    if is_dash_pos(p) {
        '-'
    } else {
        hex_char(nibble_of(v, 31 - hex_pos(p)))
    }
}

/// The full 36-character text form of `v`.
pub open spec fn uuid_chars(v: u128) -> Seq<char> {
    Seq::new(36, |p: int| uuid_char_at(v, p))
}

/// Whether `s` is a well-formed lowercase hyphenated id text.
pub open spec fn is_uuid_text(s: Seq<char>) -> bool {
    &&& s.len() == 36
    &&& forall|p: int|
        0 <= p < 36 ==> if is_dash_pos(p) {
            s[p] == '-'
        } else {
            hex_val(s[p]) < 16
        }
}

/// The value of the first `n` hexadecimal digits of a well-formed id text,
/// most significant first.
pub open spec fn uuid_prefix_val(s: Seq<char>, n: int) -> int
    decreases n,
{
    if n <= 0 {
        0
    } else {
        uuid_prefix_val(s, n - 1) * 16 + hex_val(s[char_pos(n - 1)])
    }
}

/// What parsing an id text yields: the 128-bit value, or nothing when the
/// text is not well formed.
pub open spec fn spec_parse_uuid(s: Seq<char>) -> Option<u128> {
    if is_uuid_text(s) {
        Some(uuid_prefix_val(s, 32) as u128)
    } else {
        None
    }
}

/// A 128-bit identifier, held as a plain integer.
#[derive(Clone, Copy, PartialEq, Eq, Structural, Debug, Hash)]
pub struct Uuid {
    pub value: u128,
}

proof fn lemma_uuid_prefix_val_bound(s: Seq<char>, n: int)
    requires
        0 <= n,
        forall|q: int| 0 <= q < n ==> hex_val(s[char_pos(q)]) < 16,
    ensures
        0 <= uuid_prefix_val(s, n) < pow16(n as nat),
    decreases n,
{
    if n > 0 {
        lemma_uuid_prefix_val_bound(s, n - 1);
    }
}

impl Uuid {
    /// Builds an id from its raw 128-bit value.
    pub fn from_value(value: u128) -> (r: Uuid)
        ensures
            r.value == value,
    {
        Uuid { value }
    }

    /// The raw 128-bit value.
    pub fn raw(&self) -> (r: u128)
        ensures
            r == self.value,
    {
        self.value
    }

    /// The all-zero id, used where no id is configured yet.
    pub fn nil() -> (r: Uuid)
        ensures
            r.value == 0,
    {
        Uuid { value: 0 }
    }

    /// Renders the id in its lowercase hyphenated text form.
    pub fn to_text(&self) -> (r: String)
        ensures
            r@ == uuid_chars(self.value),
    {
        let v = self.value;
        // nibbles[j] holds the j-th digit from the least significant end.
        let mut nibbles: Vec<u8> = Vec::new();
        let mut x: u128 = v;
        let mut j: usize = 0;
        while j < 32
            invariant
                nibbles@.len() == j,
                j <= 32,
                x == v as int / pow16(j as nat),
                forall|k: int| 0 <= k < j ==> nibbles@[k] == nibble_of(v, k),
            decreases 32 - j,
        {
            proof {
                lemma_pow16_le(0nat, j as nat);
                lemma_fundamental_div_mod(v as int / pow16(j as nat), 16);
                lemma_div_denominator(v as int, pow16(j as nat), 16);
                assert(pow16((j + 1) as nat) == pow16(j as nat) * 16);
            }
            nibbles.push((x % 16) as u8);
            x = x / 16;
            j = j + 1;
        }
        let mut s = String::new();
        let mut p: usize = 0;
        while p < 36
            invariant
                nibbles@.len() == 32,
                forall|k: int| 0 <= k < 32 ==> nibbles@[k] == nibble_of(v, k),
                p <= 36,
                s@ =~= uuid_chars(v).take(p as int),
            decreases 36 - p,
        {
            if p == 8 || p == 13 || p == 18 || p == 23 {
                push_dash(&mut s);
            } else {
                let q: usize = if p < 8 {
                    p
                } else if p < 13 {
                    p - 1
                } else if p < 18 {
                    p - 2
                } else if p < 23 {
                    p - 3
                } else {
                    p - 4
                };
                let d = nibbles[31 - q];
                assert(d < 16) by {
                    assert(nibbles@[31 - q] == nibble_of(v, 31 - q));
                }
                push_hex_char(&mut s, d);
            }
            assert(s@ =~= uuid_chars(v).take(p + 1));
            p = p + 1;
        }
        proof {
            assert(uuid_chars(v).take(36) =~= uuid_chars(v));
        }
        s
    }

    /// Parses the lowercase hyphenated text form of an id.
    pub fn parse_text(s: &str) -> (r: Option<Uuid>)
        ensures
            match r {
                Some(u) => spec_parse_uuid(s@) == Some(u.value),
                None => spec_parse_uuid(s@) is None,
            },
    {
        let n = s.unicode_len();
        if n != 36 {
            return None;
        }
        let mut v: u128 = 0;
        let mut p: usize = 0;
        while p < 36
            invariant
                s@.len() == 36,
                p <= 36,
                forall|t: int|
                    0 <= t < p ==> if is_dash_pos(t) {
                        s@[t] == '-'
                    } else {
                        hex_val(s@[t]) < 16
                    },
                v == uuid_prefix_val(s@, hex_pos(p as int)),
                0 <= uuid_prefix_val(s@, hex_pos(p as int)) < pow16(hex_pos(p as int) as nat),
            decreases 36 - p,
        {
            let c = s.get_char(p);
            if p == 8 || p == 13 || p == 18 || p == 23 {
                if c != '-' {
                    return None;
                }
            } else {
                let d: u8 = match c {
                    '0' => 0,
                    '1' => 1,
                    '2' => 2,
                    '3' => 3,
                    '4' => 4,
                    '5' => 5,
                    '6' => 6,
                    '7' => 7,
                    '8' => 8,
                    '9' => 9,
                    'a' => 10,
                    'b' => 11,
                    'c' => 12,
                    'd' => 13,
                    'e' => 14,
                    'f' => 15,
                    _ => {
                        return None;
                    },
                };
                assert(d == hex_val(c));
                assert(pow16((hex_pos(p as int) + 1) as nat) == 16 * pow16(
                    hex_pos(p as int) as nat,
                ));
                assert(pow16(32nat) == 0x1_0000_0000_0000_0000_0000_0000_0000_0000int) by {
                    reveal_with_fuel(pow16, 33);
                }
                proof {
                    lemma_pow16_le(hex_pos(p as int) as nat + 1, 32nat);
                }
                v = v * 16 + (d as u128);
            }
            proof {
                let pi = p as int;
                assert(!is_dash_pos(pi) ==> char_pos(hex_pos(pi)) == pi);
                assert(hex_pos(pi + 1) == hex_pos(pi) + (if is_dash_pos(pi) {
                    0int
                } else {
                    1int
                }));
            }
            p = p + 1;
        }
        assert(is_uuid_text(s@));
        assert(hex_pos(36) == 32);
        Some(Uuid { value: v })
    }
}

proof fn lemma_pow16_le(a: nat, b: nat)
    requires
        a <= b,
    ensures
        pow16(a) <= pow16(b),
        pow16(a) >= 1,
    decreases b,
{
    if a < b {
        lemma_pow16_le(a, (b - 1) as nat);
    } else if a == b && b > 0 {
        lemma_pow16_le((a - 1) as nat, (b - 1) as nat);
    }
}

/// Formatting an id and parsing the result gives the id back.
pub proof fn lemma_uuid_text_roundtrip(v: u128)
    ensures
        spec_parse_uuid(uuid_chars(v)) == Some(v),
{
    let s = uuid_chars(v);
    assert forall|p: int| 0 <= p < 36 implies (if is_dash_pos(p) {
        s[p] == '-'
    } else {
        hex_val(s[p]) < 16
    }) by {
        if !is_dash_pos(p) {
            lemma_hex_char_val(nibble_of(v, 31 - hex_pos(p)));
        }
    }
    assert(is_uuid_text(s));
    lemma_uuid_prefix_is_div(v, 32);
    assert(pow16(0nat) == 1);
    assert(uuid_prefix_val(s, 32) == v as int / 1);
    assert(v as int / 1 == v as int) by {
        lemma_fundamental_div_mod(v as int, 1);
    }
}

proof fn lemma_uuid_prefix_is_div(v: u128, n: int)
    requires
        0 <= n <= 32,
    ensures
        uuid_prefix_val(uuid_chars(v), n) == v as int / pow16((32 - n) as nat),
    decreases n,
{
    let s = uuid_chars(v);
    if n == 0 {
        lemma_pow16_le(0nat, 32nat);
        assert(v as int / pow16(32nat) == 0) by {
            assert(pow16(32nat) == 0x1_0000_0000_0000_0000_0000_0000_0000_0000int) by {
                reveal_with_fuel(pow16, 33);
            }
            lemma_basic_div(v as int, pow16(32nat));
        }
    } else {
        lemma_uuid_prefix_is_div(v, n - 1);
        let q = n - 1;
        let p = char_pos(q);
        assert(!is_dash_pos(p));
        assert(hex_pos(p) == q);
        assert(s[p] == hex_char(nibble_of(v, 32 - n)));
        lemma_hex_char_val(nibble_of(v, 32 - n));
        // v / 16^(33-n) * 16 + (v / 16^(32-n)) % 16 == v / 16^(32-n)
        let c = pow16((32 - n) as nat);
        lemma_pow16_le(0nat, (32 - n) as nat);
        lemma_div_denominator(v as int, c, 16);
        assert(pow16((33 - n) as nat) == 16 * c);
        lemma_fundamental_div_mod(v as int / c, 16);
        assert(uuid_prefix_val(s, n) == (v as int / c / 16) * 16 + (v as int / c) % 16);
    }
}

} // verus!
