//! Device IDs: 8-character identifiers over a restricted 31-symbol
//! alphabet (the digits 2-9 and the letters A-Z without O, I and L,
//! which are visually ambiguous), with conversions to and from a
//! compact numeric form (base-31) used for keying.

use vstd::prelude::*;

verus! {

/// Number of symbols in the restricted alphabet.
pub const ALPHABET_SIZE: u64 = 31;

/// Number of characters in a device ID.
pub const DEVICE_ID_LEN: usize = 8;

/// Number of distinct device IDs: `ALPHABET_SIZE ^ DEVICE_ID_LEN`.
pub const DEVICE_ID_SPACE: u64 = 852891037441;

/// Position of a character in the restricted alphabet, or -1 when the
/// character is not in the alphabet.
pub open spec fn spec_char_value(c: char) -> int {
    let v = c as u32;
    if 50 <= v <= 57 {  // '2' ..= '9'
        v - 50
    } else if 65 <= v <= 72 {  // 'A' ..= 'H'
        8 + (v - 65)
    } else if 74 <= v <= 75 {  // 'J' ..= 'K'
        16 + (v - 74)
    } else if 77 <= v <= 78 {  // 'M' ..= 'N'
        18 + (v - 77)
    } else if 80 <= v <= 90 {  // 'P' ..= 'Z'
        20 + (v - 80)
    } else {
        -1
    }
}

/// Whether a character belongs to the restricted alphabet.
pub open spec fn is_id_char(c: char) -> bool {
    spec_char_value(c) >= 0
}

/// Whether a character sequence is a well-formed device ID: exactly 8
/// characters, each drawn from the restricted alphabet.
pub open spec fn valid_device_id(s: Seq<char>) -> bool {
    &&& s.len() == DEVICE_ID_LEN
    &&& forall|i: int| 0 <= i < s.len() ==> is_id_char(#[trigger] s[i])
}

/// Numeric form of a device ID prefix: the base-31 value of the first
/// `n` characters.
pub open spec fn spec_id_index_prefix(s: Seq<char>, n: int) -> int
    decreases n,
{
    if n <= 0 {
        0
    } else {
        spec_id_index_prefix(s, n - 1) * (ALPHABET_SIZE as int) + spec_char_value(s[n - 1])
    }
}

/// Numeric form of a device ID: its base-31 value.
pub open spec fn spec_id_index(s: Seq<char>) -> int {
    spec_id_index_prefix(s, s.len() as int)
}

/// Position of a character in the alphabet.
pub fn char_value(c: char) -> (r: Option<u8>)
    ensures
        r matches Some(v) ==> spec_char_value(c) == v as int,
        r is None <==> !is_id_char(c),
{
    let v = c as u32;
    if 50 <= v && v <= 57 {
        Some((v - 50) as u8)
    } else if 65 <= v && v <= 72 {
        Some((8 + (v - 65)) as u8)
    } else if 74 <= v && v <= 75 {
        Some((16 + (v - 74)) as u8)
    } else if 77 <= v && v <= 78 {
        Some((18 + (v - 77)) as u8)
    } else if 80 <= v && v <= 90 {
        Some((20 + (v - 80)) as u8)
    } else {
        None
    }
}

/// The alphabet in order: the value of a character is its position here.
pub open spec fn spec_value_char(v: int) -> char {
    spec_alphabet_str()@[v]
}

/// The alphabet as a character sequence.
pub open spec fn spec_alphabet_str() -> &'static str {
    "23456789ABCDEFGHJKMNPQRSTUVWXYZ"
}

/// Characters of the alphabet, by position.
fn alphabet_char_str(v: u8) -> (r: &'static str)
    requires
        v < ALPHABET_SIZE,
    ensures
        r@ =~= seq![spec_value_char(v as int)],
{
    let a = "23456789ABCDEFGHJKMNPQRSTUVWXYZ";
    proof {
        reveal_strlit("23456789ABCDEFGHJKMNPQRSTUVWXYZ");
        assert(a.is_ascii());
    }
    let r = a.substring_ascii(v as usize, v as usize + 1);
    r
}

/// Every alphabet character evaluates back to its position.
pub proof fn lemma_value_char_roundtrip(v: int)
    requires
        0 <= v < ALPHABET_SIZE,
    ensures
        spec_char_value(spec_value_char(v)) == v,
        is_id_char(spec_value_char(v)),
{
    reveal_strlit("23456789ABCDEFGHJKMNPQRSTUVWXYZ");
}

/// Two alphabet characters with the same value are the same character.
pub proof fn lemma_char_value_injective(c1: char, c2: char)
    requires
        is_id_char(c1),
        is_id_char(c2),
        spec_char_value(c1) == spec_char_value(c2),
    ensures
        c1 == c2,
{
    vstd::utf8::char_u32_cast(c1, c1 as u32);
    vstd::utf8::char_u32_cast(c2, c2 as u32);
}

/// Whether a string is a well-formed device ID.
pub fn is_valid_device_id(s: &str) -> (r: bool)
    ensures
        r == valid_device_id(s@),
{
    let len = s.unicode_len();
    if len != DEVICE_ID_LEN {
        return false;
    }
    let mut i: usize = 0;
    while i < len
        invariant
            len == s@.len() == DEVICE_ID_LEN,
            0 <= i <= len,
            forall|j: int| 0 <= j < i ==> is_id_char(#[trigger] s@[j]),
        decreases len - i,
    {
        let c = s.get_char(i);
        if char_value(c).is_none() {
            return false;
        }
        i += 1;
    }
    true
}

/// `ALPHABET_SIZE ^ k`.
pub open spec fn pow31(k: nat) -> int
    decreases k,
{
    if k == 0 {
        1
    } else {
        (ALPHABET_SIZE as int) * pow31((k - 1) as nat)
    }
}

/// The numeric form of a prefix depends only on the characters of that
/// prefix.
pub proof fn lemma_prefix_agree(s1: Seq<char>, s2: Seq<char>, n: int)
    requires
        0 <= n <= s1.len(),
        n <= s2.len(),
        forall|i: int| 0 <= i < n ==> s1[i] == s2[i],
    ensures
        spec_id_index_prefix(s1, n) == spec_id_index_prefix(s2, n),
    decreases n,
{
    if n > 0 {
        lemma_prefix_agree(s1, s2, n - 1);
    }
}

/// The numeric form of an `n`-character prefix of alphabet characters
/// lies in `[0, ALPHABET_SIZE ^ n)`.
pub proof fn lemma_prefix_bounds(s: Seq<char>, n: int)
    requires
        0 <= n <= s.len(),
        forall|i: int| 0 <= i < n ==> is_id_char(#[trigger] s[i]),
    ensures
        0 <= spec_id_index_prefix(s, n) < pow31(n as nat),
    decreases n,
{
    if n > 0 {
        lemma_prefix_bounds(s, n - 1);
        let p = spec_id_index_prefix(s, n - 1);
        let v = spec_char_value(s[n - 1]);
        assert(0 <= v < ALPHABET_SIZE as int);
        assert(p * (ALPHABET_SIZE as int) + v < pow31((n - 1) as nat) * (ALPHABET_SIZE as int))
            by (nonlinear_arith)
            requires
                0 <= p,
                p <= pow31((n - 1) as nat) - 1,
                0 <= v < (ALPHABET_SIZE as int),
                pow31((n - 1) as nat) >= 1,
        ;
        assert(pow31((n - 1) as nat) * (ALPHABET_SIZE as int) == pow31(n as nat)) by {
            assert(pow31(n as nat) == (ALPHABET_SIZE as int) * pow31((n - 1) as nat));
        }
        assert(0 <= p * (ALPHABET_SIZE as int) + v) by (nonlinear_arith)
            requires
                0 <= p,
                0 <= v,
        ;
    }
}

/// Ground values of `pow31` up to the device ID length.
pub proof fn lemma_pow31_values()
    ensures
        pow31(7) == 27512614111,
        pow31(8) == DEVICE_ID_SPACE,
{
    assert(pow31(0) == 1);
    assert(pow31(1) == 31);
    assert(pow31(2) == 961);
    assert(pow31(3) == 29791);
    assert(pow31(4) == 923521);
    assert(pow31(5) == 28629151);
    assert(pow31(6) == 887503681);
    assert(pow31(7) == 27512614111);
    assert(pow31(8) == 852891037441);
}

/// The numeric form of a device ID lies in `[0, DEVICE_ID_SPACE)`.
pub proof fn lemma_id_index_bounds(s: Seq<char>)
    requires
        valid_device_id(s),
    ensures
        0 <= spec_id_index(s) < DEVICE_ID_SPACE,
{
    lemma_prefix_bounds(s, s.len() as int);
    lemma_pow31_values();
}

/// Two valid device IDs with the same numeric form are the same ID.
pub proof fn lemma_id_index_injective(s1: Seq<char>, s2: Seq<char>)
    requires
        valid_device_id(s1),
        valid_device_id(s2),
        spec_id_index(s1) == spec_id_index(s2),
    ensures
        s1 == s2,
{
    lemma_prefix_injective(s1, s2, DEVICE_ID_LEN as int);
    assert(s1 =~= s2);
}

proof fn lemma_prefix_injective(s1: Seq<char>, s2: Seq<char>, n: int)
    requires
        0 <= n <= s1.len() && n <= s2.len(),
        forall|i: int| 0 <= i < n ==> is_id_char(#[trigger] s1[i]),
        forall|i: int| 0 <= i < n ==> is_id_char(#[trigger] s2[i]),
        spec_id_index_prefix(s1, n) == spec_id_index_prefix(s2, n),
    ensures
        forall|i: int| 0 <= i < n ==> s1[i] == s2[i],
    decreases n,
{
    if n > 0 {
        let a = ALPHABET_SIZE as int;
        let p1 = spec_id_index_prefix(s1, n - 1);
        let p2 = spec_id_index_prefix(s2, n - 1);
        let v1 = spec_char_value(s1[n - 1]);
        let v2 = spec_char_value(s2[n - 1]);
        assert(p1 * a + v1 == p2 * a + v2);
        assert(0 <= v1 < a && 0 <= v2 < a);
        assert(p1 == p2 && v1 == v2) by (nonlinear_arith)
            requires
                p1 * a + v1 == p2 * a + v2,
                0 <= v1 < a,
                0 <= v2 < a,
                a > 0,
        ;
        lemma_char_value_injective(s1[n - 1], s2[n - 1]);
        lemma_prefix_injective(s1, s2, n - 1);
    }
}

/// Numeric form of a device ID, used for keying the directory and the
/// registries.  `None` when the string is not a well-formed device ID.
pub fn device_id_index(s: &str) -> (r: Option<u64>)
    ensures
        r matches Some(n) ==> valid_device_id(s@) && n == spec_id_index(s@) && n
            < DEVICE_ID_SPACE,
        r is None <==> !valid_device_id(s@),
{
    let len = s.unicode_len();
    if len != DEVICE_ID_LEN {
        return None;
    }
    let mut acc: u64 = 0;
    let mut i: usize = 0;
    while i < len
        invariant
            len == s@.len() == DEVICE_ID_LEN,
            0 <= i <= len,
            forall|j: int| 0 <= j < i ==> is_id_char(#[trigger] s@[j]),
            acc == spec_id_index_prefix(s@, i as int),
            acc < pow31(i as nat),
        decreases len - i,
    {
        let c = s.get_char(i);
        let v = match char_value(c) {
            Some(v) => v,
            None => {
                return None;
            },
        };
        proof {
            lemma_prefix_bounds(s@, i + 1);
            lemma_pow31_values();
            lemma_pow31_increases((i + 1) as nat, 8);
        }
        acc = acc * (ALPHABET_SIZE as u64) + (v as u64);
        i += 1;
    }
    proof {
        lemma_id_index_bounds(s@);
    }
    Some(acc)
}

/// Device ID with the given numeric form: the inverse of
/// [`device_id_index`] on well-formed IDs.
pub fn index_device_id(n: u64) -> (r: String)
    requires
        n < DEVICE_ID_SPACE,
    ensures
        valid_device_id(r@),
        spec_id_index(r@) == n,
{
    proof {
        lemma_pow31_values();
    }
    let mut r = String::new();
    let mut rem: u64 = n;
    let mut p: u64 = 27512614111;
    let mut i: usize = 0;
    while i < DEVICE_ID_LEN
        invariant
            0 <= i <= DEVICE_ID_LEN,
            r@.len() == i,
            forall|j: int| 0 <= j < i ==> is_id_char(#[trigger] r@[j]),
            n == spec_id_index_prefix(r@, i as int) * pow31((DEVICE_ID_LEN - i) as nat) + rem,
            rem < pow31((DEVICE_ID_LEN - i) as nat),
            i < DEVICE_ID_LEN ==> p == pow31((DEVICE_ID_LEN - 1 - i) as nat),
            n < DEVICE_ID_SPACE,
        decreases DEVICE_ID_LEN - i,
    {
        proof {
            lemma_pow31_values();
            lemma_pow31_increases(0, (DEVICE_ID_LEN - 1 - i) as nat);
        }
        let d = rem / p;
        let ghost pg = p as int;
        let ghost remg = rem as int;
        proof {
            assert(pow31((DEVICE_ID_LEN - i) as nat) == 31 * pow31((DEVICE_ID_LEN - 1 - i) as nat));
            assert(remg / pg < 31 && remg == pg * (remg / pg) + remg % pg && 0 <= remg % pg < pg)
                by (nonlinear_arith)
                requires
                    0 <= remg,
                    pg >= 1,
                    remg < 31 * pg,
            ;
        }
        let cs = alphabet_char_str(d as u8);
        let ghost old_r = r@;
        let ghost old_rem = rem as int;
        r.append(cs);
        rem = rem % p;
        proof {
            let c = spec_value_char(d as int);
            lemma_value_char_roundtrip(d as int);
            assert(r@ =~= old_r + seq![c]);
            lemma_prefix_agree(old_r, r@, i as int);
            assert(spec_id_index_prefix(r@, i + 1) == spec_id_index_prefix(r@, i as int) * (
            ALPHABET_SIZE as int) + spec_char_value(c));
            let pre = spec_id_index_prefix(old_r, i as int);
            let k = (DEVICE_ID_LEN - 1 - i) as nat;
            assert((pre * (31 * pow31(k)) + old_rem) == (pre * 31 + d) * pow31(k) + (old_rem - d
                * pow31(k))) by (nonlinear_arith);
            assert(pg * (d as int) == (d as int) * pg) by (nonlinear_arith);
            assert(old_rem - d as int * pg == rem as int);
        }
        i += 1;
        if i < DEVICE_ID_LEN {
            let ghost k2 = (DEVICE_ID_LEN - i) as nat;
            proof {
                assert(pow31(k2) == 31 * pow31((k2 - 1) as nat));
                assert(pg == 31 * pow31((k2 - 1) as nat) ==> pg / 31 == pow31((k2 - 1) as nat))
                    by (nonlinear_arith)
                    requires
                        pow31((k2 - 1) as nat) >= 0,
                ;
            }
            p = p / 31;
        }
    }
    proof {
        assert(pow31(0) == 1);
    }
    r
}

/// Fresh device IDs drawn from a deterministic pseudo-random walk over
/// the whole ID space.  The caller supplies the starting seed; every ID
/// this produces is well-formed.
pub struct DeviceIdGenerator {
    state: u64,
}

impl DeviceIdGenerator {
    /// A generator starting from the given seed.
    pub fn new(seed: u64) -> (r: DeviceIdGenerator) {
        DeviceIdGenerator { state: seed }
    }

    /// The next candidate device ID.
    pub fn next_device_id(&mut self) -> (r: String)
        ensures
            valid_device_id(r@),
    {
        self.state = self.state.wrapping_mul(6364136223846793005).wrapping_add(
            1442695040888963407,
        );
        let idx = self.state % DEVICE_ID_SPACE;
        index_device_id(idx)
    }
}

/// `pow31` grows with its exponent.
pub proof fn lemma_pow31_increases(a: nat, b: nat)
    requires
        a <= b,
    ensures
        pow31(a) <= pow31(b),
    decreases b,
{
    if a < b {
        lemma_pow31_increases(a, (b - 1) as nat);
        assert(pow31(b) == 31 * pow31((b - 1) as nat));
        assert(pow31((b - 1) as nat) >= 1) by {
            lemma_pow31_increases(0, (b - 1) as nat);
        }
    }
}

} // verus!
