//! Primitives of the compact wire encoding: little-endian byte groups,
//! variable-length integers, booleans, byte blobs and UTF-8 strings.
//! Every primitive has a specification-level encoder, an executable
//! encoder and parser proved against it, and round-trip lemmas.  The
//! parsers accept only the canonical encoding of a value, so a parsed
//! value pins the bytes it was parsed from.

use vstd::prelude::*;

verus! {

/// `256 ^ k`.
pub open spec fn pow256(k: nat) -> int
    decreases k,
{
    if k == 0 {
        1
    } else {
        256 * pow256((k - 1) as nat)
    }
}

/// Ground values of `pow256` for the widths in use.
pub proof fn lemma_pow256_values()
    ensures
        pow256(1) == 0x100,
        pow256(2) == 0x10000,
        pow256(4) == 0x100000000,
        pow256(8) == 0x10000000000000000,
{
    assert(pow256(0) == 1);
    assert(pow256(1) == 0x100);
    assert(pow256(2) == 0x10000);
    assert(pow256(3) == 0x1000000);
    assert(pow256(4) == 0x100000000);
    assert(pow256(5) == 0x10000000000);
    assert(pow256(6) == 0x1000000000000);
    assert(pow256(7) == 0x100000000000000);
    assert(pow256(8) == 0x10000000000000000);
}

/// The `k` little-endian bytes of `n` (dropping higher bytes).
pub open spec fn spec_le_bytes(n: int, k: nat) -> Seq<u8>
    decreases k,
{
    if k == 0 {
        seq![]
    } else {
        seq![(n % 256) as u8] + spec_le_bytes(n / 256, (k - 1) as nat)
    }
}

/// The value of a little-endian byte group.
pub open spec fn spec_le_value(b: Seq<u8>) -> int
    decreases b.len(),
{
    if b.len() == 0 {
        0
    } else {
        b[0] + 256 * spec_le_value(b.drop_first())
    }
}

/// A `k`-byte group has length `k`.
pub proof fn lemma_le_bytes_len(n: int, k: nat)
    ensures
        spec_le_bytes(n, k).len() == k,
    decreases k,
{
    if k > 0 {
        lemma_le_bytes_len(n / 256, (k - 1) as nat);
    }
}

/// The value of a byte group is bounded by `256 ^ len`.
pub proof fn lemma_le_value_bound(b: Seq<u8>)
    ensures
        0 <= spec_le_value(b) < pow256(b.len()),
    decreases b.len(),
{
    if b.len() == 0 {
    } else {
        lemma_le_value_bound(b.drop_first());
        let v = spec_le_value(b.drop_first());
        assert(b[0] + 256 * v < 256 * pow256((b.len() - 1) as nat)) by (nonlinear_arith)
            requires
                0 <= b[0] < 256,
                0 <= v,
                v <= pow256((b.len() - 1) as nat) - 1,
        ;
        assert(0 <= b[0] + 256 * v) by (nonlinear_arith)
            requires
                0 <= b[0],
                0 <= v,
        ;
    }
}

/// Reading back the bytes of `n` yields `n` modulo `256 ^ k`.
pub proof fn lemma_le_roundtrip(n: int, k: nat)
    requires
        0 <= n,
    ensures
        spec_le_value(spec_le_bytes(n, k)) == n % pow256(k),
    decreases k,
{
    if k == 0 {
        assert(n % 1 == 0) by (nonlinear_arith)
            requires
                n >= 0,
        ;
    } else {
        let b = spec_le_bytes(n, k);
        lemma_le_bytes_len(n / 256, (k - 1) as nat);
        assert(b.drop_first() =~= spec_le_bytes(n / 256, (k - 1) as nat));
        lemma_le_roundtrip(n / 256, (k - 1) as nat);
        let p = pow256((k - 1) as nat);
        lemma_pow256_increases(0, (k - 1) as nat);
        vstd::arithmetic::div_mod::lemma_mod_breakdown(n, 256, p);
    }
}

/// A byte group is the canonical encoding of its own value.
pub proof fn lemma_le_bytes_of_value(b: Seq<u8>)
    ensures
        spec_le_bytes(spec_le_value(b), b.len()) == b,
    decreases b.len(),
{
    if b.len() > 0 {
        let v = spec_le_value(b);
        let rest = spec_le_value(b.drop_first());
        lemma_le_value_bound(b.drop_first());
        assert(v % 256 == b[0] && v / 256 == rest) by (nonlinear_arith)
            requires
                v == b[0] + 256 * rest,
                0 <= b[0] < 256,
                0 <= rest,
        ;
        lemma_le_bytes_of_value(b.drop_first());
        assert(spec_le_bytes(v, b.len()) =~= b);
    }
}

/// Appends the `k` little-endian bytes of `n`.
pub fn write_le_bytes(out: &mut Vec<u8>, n: u64, k: usize)
    requires
        k <= 8,
    ensures
        final(out)@ == old(out)@ + spec_le_bytes(n as int, k as nat),
{
    let mut rem: u64 = n;
    let mut i: usize = 0;
    while i < k
        invariant
            0 <= i <= k,
            out@ == old(out)@ + spec_le_bytes(n as int, i as nat),
            rem == spec_shifted(n as int, i as nat),
        decreases k - i,
    {
        out.push((rem % 256) as u8);
        proof {
            lemma_le_bytes_snoc(n as int, i as nat);
        }
        rem = rem / 256;
        i += 1;
    }
}

/// `n` shifted right by `k` bytes.
pub open spec fn spec_shifted(n: int, k: nat) -> int
    decreases k,
{
    if k == 0 {
        n
    } else {
        spec_shifted(n, (k - 1) as nat) / 256
    }
}

proof fn lemma_shifted_step(n: int, i: nat)
    requires
        i >= 1,
    ensures
        spec_shifted(n / 256, (i - 1) as nat) == spec_shifted(n, i),
    decreases i,
{
    if i == 1 {
        assert(spec_shifted(n / 256, 0) == n / 256);
        assert(spec_shifted(n, 0) == n);
        assert(spec_shifted(n, 1) == n / 256);
    } else {
        lemma_shifted_step(n, (i - 1) as nat);
    }
}

proof fn lemma_le_bytes_snoc(n: int, i: nat)
    requires
        n >= 0,
    ensures
        spec_le_bytes(n, (i + 1) as nat) == spec_le_bytes(n, i) + seq![
            (spec_shifted(n, i) % 256) as u8,
        ],
    decreases i,
{
    if i == 0 {
        assert(spec_le_bytes(n / 256, 0) =~= Seq::<u8>::empty());
        assert(spec_le_bytes(n, 1) =~= seq![(n % 256) as u8]);
        assert(spec_le_bytes(n, 0) =~= Seq::<u8>::empty());
        assert(spec_le_bytes(n, 1) =~= spec_le_bytes(n, 0) + seq![(n % 256) as u8]);
    } else {
        lemma_le_bytes_snoc(n / 256, (i - 1) as nat);
        lemma_shifted_step(n, i);
        assert(spec_le_bytes(n, (i + 1) as nat) =~= spec_le_bytes(n, i) + seq![
            (spec_shifted(n, i) % 256) as u8,
        ]);
    }
}

/// Reads a `k`-byte little-endian group at `pos`.  `None` exactly when
/// the buffer is too short.
pub fn read_le_bytes(buf: &Vec<u8>, pos: usize, k: usize) -> (r: Option<u64>)
    requires
        1 <= k <= 8,
    ensures
        pos + k <= buf@.len() ==> (r matches Some(v) && v == spec_le_value(
            buf@.subrange(pos as int, pos + k),
        )),
        pos + k > buf@.len() ==> r is None,
{
    let blen = buf.len();
    if blen < k || pos > blen - k {
        return None;
    }
    let mut acc: u64 = 0;
    let mut j: usize = k;
    while j > 0
        invariant
            0 <= j <= k <= 8,
            blen == buf@.len(),
            pos + k <= blen,
            acc == spec_le_value(buf@.subrange(pos + j, pos + k)),
            acc < pow256((k - j) as nat),
        decreases j,
    {
        j -= 1;
        let b = buf[pos + j];
        proof {
            lemma_pow256_values();
            lemma_pow256_increases((k - j - 1) as nat, 7);
            let s = buf@.subrange(pos + j, pos + k as int);
            assert(s.drop_first() =~= buf@.subrange(pos + j + 1, pos + k as int));
            assert(acc * 256 + b < 256 * pow256((k - j - 1) as nat)) by (nonlinear_arith)
                requires
                    0 <= b < 256,
                    0 <= acc,
                    acc <= pow256((k - j - 1) as nat) - 1,
            ;
            assert(b + 256 * acc == acc * 256 + b);
        }
        acc = acc * 256 + b as u64;
    }
    proof {
        assert(buf@.subrange(pos as int, pos + k as int) == buf@.subrange(
            pos + 0,
            pos + k as int,
        ));
    }
    Some(acc)
}

/// Variable-length encoding of a 64-bit value: one byte below 251,
/// otherwise a width tag followed by the little-endian bytes of the
/// value in the smallest of 2, 4 or 8 bytes that holds it.
pub open spec fn spec_varint(n: u64) -> Seq<u8> {
    if n < 251 {
        seq![n as u8]
    } else if n < 0x10000 {
        seq![251u8] + spec_le_bytes(n as int, 2)
    } else if n < 0x100000000 {
        seq![252u8] + spec_le_bytes(n as int, 4)
    } else {
        seq![253u8] + spec_le_bytes(n as int, 8)
    }
}

/// Parses a variable-length integer at `pos`, accepting only the
/// canonical width for the value.
pub open spec fn spec_parse_varint(s: Seq<u8>, pos: int) -> Option<(u64, int)> {
    if !(0 <= pos < s.len()) {
        None
    } else {
        let tag = s[pos];
        if tag < 251 {
            Some((tag as u64, pos + 1))
        } else if tag == 251 {
            if pos + 3 <= s.len() {
                let v = spec_le_value(s.subrange(pos + 1, pos + 3));
                if 251 <= v < 0x10000 {
                    Some((v as u64, pos + 3))
                } else {
                    None
                }
            } else {
                None
            }
        } else if tag == 252 {
            if pos + 5 <= s.len() {
                let v = spec_le_value(s.subrange(pos + 1, pos + 5));
                if 0x10000 <= v < 0x100000000 {
                    Some((v as u64, pos + 5))
                } else {
                    None
                }
            } else {
                None
            }
        } else if tag == 253 {
            if pos + 9 <= s.len() {
                let v = spec_le_value(s.subrange(pos + 1, pos + 9));
                if 0x100000000 <= v {
                    Some((v as u64, pos + 9))
                } else {
                    None
                }
            } else {
                None
            }
        } else {
            None
        }
    }
}

/// Parsing an encoded value embedded at `pos` yields that value and
/// stops right after it.
pub proof fn lemma_parse_varint_roundtrip(s: Seq<u8>, pos: int, n: u64)
    requires
        0 <= pos,
        pos + spec_varint(n).len() <= s.len(),
        s.subrange(pos, pos + spec_varint(n).len() as int) == spec_varint(n),
    ensures
        spec_parse_varint(s, pos) == Some((n, pos + spec_varint(n).len() as int)),
{
    let v = spec_varint(n);
    lemma_pow256_values();
    if n < 251 {
        assert(s[pos] == v[0]);
    } else if n < 0x10000 {
        lemma_le_bytes_len(n as int, 2);
        assert(v[0] == 251);
        assert(s.subrange(pos, pos + v.len() as int)[0] == s[pos]);
        assert(s[pos] == 251);
        assert(s.subrange(pos + 1, pos + 3) =~= v.subrange(1, 3));
        assert(v.subrange(1, 3) =~= spec_le_bytes(n as int, 2));
        lemma_le_roundtrip(n as int, 2);
        vstd::arithmetic::div_mod::lemma_small_mod(n as nat, pow256(2) as nat);
    } else if n < 0x100000000 {
        lemma_le_bytes_len(n as int, 4);
        assert(v[0] == 252);
        assert(s.subrange(pos, pos + v.len() as int)[0] == s[pos]);
        assert(s[pos] == 252);
        assert(s.subrange(pos + 1, pos + 5) =~= v.subrange(1, 5));
        assert(v.subrange(1, 5) =~= spec_le_bytes(n as int, 4));
        lemma_le_roundtrip(n as int, 4);
        vstd::arithmetic::div_mod::lemma_small_mod(n as nat, pow256(4) as nat);
    } else {
        lemma_le_bytes_len(n as int, 8);
        assert(v[0] == 253);
        assert(s.subrange(pos, pos + v.len() as int)[0] == s[pos]);
        assert(s[pos] == 253);
        assert(s.subrange(pos + 1, pos + 9) =~= v.subrange(1, 9));
        assert(v.subrange(1, 9) =~= spec_le_bytes(n as int, 8));
        lemma_le_roundtrip(n as int, 8);
        vstd::arithmetic::div_mod::lemma_small_mod(n as nat, pow256(8) as nat);
    }
}

/// A parsed value pins the bytes it was parsed from: they are exactly
/// the canonical encoding of the value.
pub proof fn lemma_parse_varint_sound(s: Seq<u8>, pos: int)
    requires
        spec_parse_varint(s, pos) is Some,
    ensures
        ({
            let (v, end) = spec_parse_varint(s, pos)->Some_0;
            &&& pos < end <= s.len()
            &&& end - pos == spec_varint(v).len()
            &&& s.subrange(pos, end) == spec_varint(v)
        }),
{
    let (v, end) = spec_parse_varint(s, pos)->Some_0;
    let tag = s[pos];
    lemma_pow256_values();
    if tag < 251 {
        assert(s.subrange(pos, end) =~= spec_varint(v));
    } else if tag == 251 {
        let b = s.subrange(pos + 1, pos + 3);
        lemma_le_bytes_of_value(b);
        assert(spec_varint(v) == seq![251u8] + spec_le_bytes(v as int, 2));
        assert(s.subrange(pos, end) =~= seq![251u8] + b);
    } else if tag == 252 {
        let b = s.subrange(pos + 1, pos + 5);
        lemma_le_bytes_of_value(b);
        assert(spec_varint(v) == seq![252u8] + spec_le_bytes(v as int, 4));
        assert(s.subrange(pos, end) =~= seq![252u8] + b);
    } else {
        let b = s.subrange(pos + 1, pos + 9);
        lemma_le_value_bound(b);
        lemma_le_bytes_of_value(b);
        assert(spec_varint(v) == seq![253u8] + spec_le_bytes(v as int, 8));
        assert(s.subrange(pos, end) =~= seq![253u8] + b);
    }
}

/// Appends the variable-length encoding of `n`.
pub fn write_varint(out: &mut Vec<u8>, n: u64)
    ensures
        final(out)@ == old(out)@ + spec_varint(n),
{
    if n < 251 {
        out.push(n as u8);
        proof {
            assert(out@ =~= old(out)@ + spec_varint(n));
        }
    } else if n < 0x10000 {
        out.push(251);
        write_le_bytes(out, n, 2);
        proof {
            assert(out@ =~= old(out)@ + spec_varint(n));
        }
    } else if n < 0x100000000 {
        out.push(252);
        write_le_bytes(out, n, 4);
        proof {
            assert(out@ =~= old(out)@ + spec_varint(n));
        }
    } else {
        out.push(253);
        write_le_bytes(out, n, 8);
        proof {
            assert(out@ =~= old(out)@ + spec_varint(n));
        }
    }
}

/// Reads a variable-length integer, exactly as [`spec_parse_varint`].
pub fn read_varint(buf: &Vec<u8>, pos: usize) -> (r: Option<(u64, usize)>)
    ensures
        match r {
            Some((v, end)) => spec_parse_varint(buf@, pos as int) == Some((v, end as int)),
            None => spec_parse_varint(buf@, pos as int) is None,
        },
{
    proof {
        lemma_pow256_values();
    }
    if pos >= buf.len() {
        return None;
    }
    let tag = buf[pos];
    if tag < 251 {
        Some((tag as u64, pos + 1))
    } else if tag == 251 {
        match read_le_bytes(buf, pos + 1, 2) {
            Some(v) => {
                proof {
                    lemma_le_value_bound(buf@.subrange(pos + 1, pos + 3));
                }
                if 251 <= v {
                    Some((v, pos + 3))
                } else {
                    None
                }
            },
            None => None,
        }
    } else if tag == 252 {
        match read_le_bytes(buf, pos + 1, 4) {
            Some(v) => {
                proof {
                    lemma_le_value_bound(buf@.subrange(pos + 1, pos + 5));
                }
                if 0x10000 <= v {
                    Some((v, pos + 5))
                } else {
                    None
                }
            },
            None => None,
        }
    } else if tag == 253 {
        match read_le_bytes(buf, pos + 1, 8) {
            Some(v) => {
                proof {
                    lemma_le_value_bound(buf@.subrange(pos + 1, pos + 9));
                }
                if 0x100000000 <= v {
                    Some((v, pos + 9))
                } else {
                    None
                }
            },
            None => None,
        }
    } else {
        None
    }
}

/// `pow256` grows with its exponent.
pub proof fn lemma_pow256_increases(a: nat, b: nat)
    requires
        a <= b,
    ensures
        pow256(a) <= pow256(b),
    decreases b,
{
    if a < b {
        lemma_pow256_increases(a, (b - 1) as nat);
        assert(pow256((b - 1) as nat) >= 1) by {
            lemma_pow256_increases(0, (b - 1) as nat);
        }
    }
}

/// A subrange of an embedded byte group is embedded at the shifted
/// position.
pub proof fn lemma_sub_embed(s: Seq<u8>, pos: int, whole: Seq<u8>, off: int, part: Seq<u8>)
    requires
        0 <= pos,
        pos + whole.len() <= s.len(),
        s.subrange(pos, pos + whole.len() as int) == whole,
        0 <= off,
        off + part.len() <= whole.len(),
        whole.subrange(off, off + part.len() as int) == part,
    ensures
        s.subrange(pos + off, pos + off + part.len() as int) == part,
{
    assert(s.subrange(pos + off, pos + off + part.len() as int) =~= part) by {
        assert(forall|i: int|
            0 <= i < part.len() ==> #[trigger] s.subrange(pos + off, pos + off + part.len() as int)[i]
                == s.subrange(pos, pos + whole.len() as int)[off + i]);
        assert(forall|i: int|
            0 <= i < part.len() ==> whole[off + i] == #[trigger] whole.subrange(
                off,
                off + part.len() as int,
            )[i]);
    }
}

/// A variable-length integer takes between one and nine bytes.
pub proof fn lemma_varint_len(n: u64)
    ensures
        1 <= spec_varint(n).len() <= 9,
{
    if n < 251 {
    } else if n < 0x10000 {
        lemma_le_bytes_len(n as int, 2);
    } else if n < 0x100000000 {
        lemma_le_bytes_len(n as int, 4);
    } else {
        lemma_le_bytes_len(n as int, 8);
    }
}

/// Encoding of a boolean: one byte, 0 or 1.
pub open spec fn spec_bool_bytes(b: bool) -> Seq<u8> {
    if b {
        seq![1u8]
    } else {
        seq![0u8]
    }
}

/// Parses a boolean; any byte other than 0 or 1 is rejected.
pub open spec fn spec_parse_bool(s: Seq<u8>, pos: int) -> Option<(bool, int)> {
    if !(0 <= pos < s.len()) {
        None
    } else if s[pos] == 0 {
        Some((false, pos + 1))
    } else if s[pos] == 1 {
        Some((true, pos + 1))
    } else {
        None
    }
}

/// Appends the encoding of a boolean.
pub fn write_bool(out: &mut Vec<u8>, b: bool)
    ensures
        final(out)@ == old(out)@ + spec_bool_bytes(b),
{
    if b {
        out.push(1);
    } else {
        out.push(0);
    }
    proof {
        assert(out@ =~= old(out)@ + spec_bool_bytes(b));
    }
}

/// Reads a boolean, exactly as [`spec_parse_bool`].
pub fn read_bool(buf: &Vec<u8>, pos: usize) -> (r: Option<(bool, usize)>)
    ensures
        match r {
            Some((b, end)) => spec_parse_bool(buf@, pos as int) == Some((b, end as int)),
            None => spec_parse_bool(buf@, pos as int) is None,
        },
{
    if pos >= buf.len() {
        return None;
    }
    let t = buf[pos];
    if t == 0 {
        Some((false, pos + 1))
    } else if t == 1 {
        Some((true, pos + 1))
    } else {
        None
    }
}

/// Encoding of a signed 64-bit value: a sign byte, then the magnitude
/// (for a negative value `x`, the magnitude of `-(x + 1)`).
pub open spec fn spec_i64_bytes(x: i64) -> Seq<u8> {
    if x >= 0 {
        seq![0u8] + spec_varint(x as u64)
    } else {
        seq![1u8] + spec_varint((-(x + 1)) as u64)
    }
}

/// Parses a signed 64-bit value.
pub open spec fn spec_parse_i64(s: Seq<u8>, pos: int) -> Option<(i64, int)> {
    if !(0 <= pos < s.len()) {
        None
    } else if s[pos] == 0 {
        match spec_parse_varint(s, pos + 1) {
            Some((v, end)) => if v <= i64::MAX as u64 {
                Some((v as i64, end))
            } else {
                None
            },
            None => None,
        }
    } else if s[pos] == 1 {
        match spec_parse_varint(s, pos + 1) {
            Some((v, end)) => if v <= i64::MAX as u64 {
                Some(((-(v as int) - 1) as i64, end))
            } else {
                None
            },
            None => None,
        }
    } else {
        None
    }
}

/// Appends the encoding of a signed 64-bit value.
pub fn write_i64(out: &mut Vec<u8>, x: i64)
    ensures
        final(out)@ == old(out)@ + spec_i64_bytes(x),
{
    if x >= 0 {
        out.push(0);
        write_varint(out, x as u64);
    } else {
        out.push(1);
        write_varint(out, (-(x + 1)) as u64);
    }
    proof {
        assert(out@ =~= old(out)@ + spec_i64_bytes(x));
    }
}

/// Reads a signed 64-bit value, exactly as [`spec_parse_i64`].
pub fn read_i64(buf: &Vec<u8>, pos: usize) -> (r: Option<(i64, usize)>)
    ensures
        match r {
            Some((x, end)) => spec_parse_i64(buf@, pos as int) == Some((x, end as int)),
            None => spec_parse_i64(buf@, pos as int) is None,
        },
{
    if pos >= buf.len() {
        return None;
    }
    let t = buf[pos];
    if t == 0 {
        match read_varint(buf, pos + 1) {
            Some((v, end)) => if v <= i64::MAX as u64 {
                Some((v as i64, end))
            } else {
                None
            },
            None => None,
        }
    } else if t == 1 {
        match read_varint(buf, pos + 1) {
            Some((v, end)) => if v <= i64::MAX as u64 {
                Some((-(v as i64) - 1, end))
            } else {
                None
            },
            None => None,
        }
    } else {
        None
    }
}

/// Parsing an encoded signed value embedded at `pos` yields it back.
pub proof fn lemma_parse_i64_roundtrip(s: Seq<u8>, pos: int, x: i64)
    requires
        0 <= pos,
        pos + spec_i64_bytes(x).len() <= s.len(),
        s.subrange(pos, pos + spec_i64_bytes(x).len() as int) == spec_i64_bytes(x),
    ensures
        spec_parse_i64(s, pos) == Some((x, pos + spec_i64_bytes(x).len() as int)),
{
    let v = spec_i64_bytes(x);
    let m: u64 = if x >= 0 {
        x as u64
    } else {
        (-(x + 1)) as u64
    };
    assert(v == seq![if x >= 0 { 0u8 } else { 1u8 }] + spec_varint(m));
    assert(s.subrange(pos, pos + v.len() as int)[0] == s[pos]);
    assert(s.subrange(pos + 1, pos + v.len() as int) =~= v.subrange(1, v.len() as int));
    assert(v.subrange(1, v.len() as int) =~= spec_varint(m));
    lemma_parse_varint_roundtrip(s, pos + 1, m);
}

/// A parsed signed value pins its bytes.
pub proof fn lemma_parse_i64_sound(s: Seq<u8>, pos: int)
    requires
        spec_parse_i64(s, pos) is Some,
    ensures
        ({
            let (x, end) = spec_parse_i64(s, pos)->Some_0;
            &&& pos < end <= s.len()
            &&& end - pos == spec_i64_bytes(x).len()
            &&& s.subrange(pos, end) == spec_i64_bytes(x)
        }),
{
    let (x, end) = spec_parse_i64(s, pos)->Some_0;
    lemma_parse_varint_sound(s, pos + 1);
    let (m, vend) = spec_parse_varint(s, pos + 1)->Some_0;
    assert(s.subrange(pos, end) =~= seq![s[pos]] + s.subrange(pos + 1, end));
}

/// Encoding of a byte blob: its length, then its bytes.
pub open spec fn spec_bytes_field(b: Seq<u8>) -> Seq<u8> {
    spec_varint(b.len() as u64) + b
}

/// Parses a byte blob.
pub open spec fn spec_parse_bytes(s: Seq<u8>, pos: int) -> Option<(Seq<u8>, int)> {
    match spec_parse_varint(s, pos) {
        Some((n, p)) => if p + n <= s.len() {
            Some((s.subrange(p, p + n as int), p + n as int))
        } else {
            None
        },
        None => None,
    }
}

/// Appends the encoding of a byte blob.
pub fn write_bytes_field(out: &mut Vec<u8>, b: &Vec<u8>)
    ensures
        final(out)@ == old(out)@ + spec_bytes_field(b@),
{
    write_varint(out, b.len() as u64);
    let mut i: usize = 0;
    while i < b.len()
        invariant
            0 <= i <= b@.len(),
            out@ == old(out)@ + spec_varint(b@.len() as u64) + b@.subrange(0, i as int),
        decreases b@.len() - i,
    {
        out.push(b[i]);
        proof {
            assert(out@ =~= old(out)@ + spec_varint(b@.len() as u64) + b@.subrange(0, i + 1));
        }
        i += 1;
    }
    proof {
        assert(b@.subrange(0, b@.len() as int) =~= b@);
        assert(out@ =~= old(out)@ + spec_bytes_field(b@));
    }
}

/// Reads a byte blob, exactly as [`spec_parse_bytes`].
pub fn read_bytes_field(buf: &Vec<u8>, pos: usize) -> (r: Option<(Vec<u8>, usize)>)
    ensures
        match r {
            Some((b, end)) => spec_parse_bytes(buf@, pos as int) == Some((b@, end as int)),
            None => spec_parse_bytes(buf@, pos as int) is None,
        },
{
    let (n, p) = match read_varint(buf, pos) {
        Some(r) => r,
        None => {
            return None;
        },
    };
    let blen = buf.len();
    if n > blen as u64 || p > blen - n as usize {
        return None;
    }
    let n = n as usize;
    let mut b: Vec<u8> = Vec::new();
    let mut i: usize = 0;
    while i < n
        invariant
            0 <= i <= n,
            p + n <= blen == buf@.len(),
            b@ == buf@.subrange(p as int, p + i as int),
        decreases n - i,
    {
        b.push(buf[p + i]);
        proof {
            assert(b@ =~= buf@.subrange(p as int, p + (i + 1)));
        }
        i += 1;
    }
    Some((b, p + n))
}

/// Parsing an encoded blob embedded at `pos` yields it back.
pub proof fn lemma_parse_bytes_roundtrip(s: Seq<u8>, pos: int, b: Seq<u8>)
    requires
        0 <= pos,
        b.len() <= u64::MAX,
        pos + spec_bytes_field(b).len() <= s.len(),
        s.subrange(pos, pos + spec_bytes_field(b).len() as int) == spec_bytes_field(b),
    ensures
        spec_parse_bytes(s, pos) == Some((b, pos + spec_bytes_field(b).len() as int)),
{
    let vl = spec_varint(b.len() as u64);
    let fl = spec_bytes_field(b).len() as int;
    let full = s.subrange(pos, pos + fl);
    assert(s.subrange(pos, pos + vl.len() as int) =~= vl) by {
        assert(forall|i: int|
            0 <= i < vl.len() ==> full[i] == #[trigger] s.subrange(pos, pos + vl.len() as int)[i]);
    }
    lemma_parse_varint_roundtrip(s, pos, b.len() as u64);
    assert(s.subrange(pos + vl.len() as int, pos + fl) =~= b) by {
        assert(forall|i: int|
            0 <= i < b.len() ==> full[vl.len() + i] == #[trigger] s.subrange(
                pos + vl.len() as int,
                pos + fl,
            )[i]);
        assert(forall|i: int| 0 <= i < b.len() ==> spec_bytes_field(b)[vl.len() + i] == b[i]);
    }
}

/// A parsed blob pins its bytes.
pub proof fn lemma_parse_bytes_sound(s: Seq<u8>, pos: int)
    requires
        spec_parse_bytes(s, pos) is Some,
    ensures
        ({
            let (b, end) = spec_parse_bytes(s, pos)->Some_0;
            &&& pos < end <= s.len()
            &&& end - pos == spec_bytes_field(b).len()
            &&& s.subrange(pos, end) == spec_bytes_field(b)
        }),
{
    let (b, end) = spec_parse_bytes(s, pos)->Some_0;
    lemma_parse_varint_sound(s, pos);
    let (n, p) = spec_parse_varint(s, pos)->Some_0;
    assert(s.subrange(pos, end) =~= s.subrange(pos, p) + s.subrange(p, end));
}

/// Encoding of a string: the UTF-8 bytes of its characters, as a blob.
pub open spec fn spec_string_bytes(s: Seq<char>) -> Seq<u8> {
    spec_bytes_field(vstd::utf8::encode_utf8(s))
}

/// Parses a string; a blob that is not valid UTF-8 is rejected.
pub open spec fn spec_parse_string(s: Seq<u8>, pos: int) -> Option<(Seq<char>, int)> {
    match spec_parse_bytes(s, pos) {
        Some((b, end)) => if vstd::utf8::valid_utf8(b) {
            Some((vstd::utf8::decode_utf8(b), end))
        } else {
            None
        },
        None => None,
    }
}

/// Relies on `String::from_utf8`: succeeds exactly on valid UTF-8 and
/// then holds exactly the given bytes.
#[verifier::external_body]
fn string_from_utf8(v: Vec<u8>) -> (r: Option<String>)
    ensures
        match r {
            Some(s) => vstd::utf8::valid_utf8(v@) && s@ == vstd::utf8::decode_utf8(v@),
            None => !vstd::utf8::valid_utf8(v@),
        },
{
    String::from_utf8(v).ok()
}

/// Appends the encoding of a string.
pub fn write_string(out: &mut Vec<u8>, s: &str)
    ensures
        final(out)@ == old(out)@ + spec_string_bytes(s@),
{
    let b = s.as_bytes_vec();
    write_bytes_field(out, &b);
}

/// Reads a string, exactly as [`spec_parse_string`].
pub fn read_string(buf: &Vec<u8>, pos: usize) -> (r: Option<(String, usize)>)
    ensures
        match r {
            Some((st, end)) => spec_parse_string(buf@, pos as int) == Some((st@, end as int)),
            None => spec_parse_string(buf@, pos as int) is None,
        },
{
    let (b, end) = match read_bytes_field(buf, pos) {
        Some(r) => r,
        None => {
            return None;
        },
    };
    match string_from_utf8(b) {
        Some(st) => Some((st, end)),
        None => None,
    }
}

/// Parsing an encoded string embedded at `pos` yields its characters.
pub proof fn lemma_parse_string_roundtrip(s: Seq<u8>, pos: int, cs: Seq<char>)
    requires
        0 <= pos,
        vstd::utf8::encode_utf8(cs).len() <= u64::MAX,
        pos + spec_string_bytes(cs).len() <= s.len(),
        s.subrange(pos, pos + spec_string_bytes(cs).len() as int) == spec_string_bytes(cs),
    ensures
        spec_parse_string(s, pos) == Some((cs, pos + spec_string_bytes(cs).len() as int)),
{
    lemma_parse_bytes_roundtrip(s, pos, vstd::utf8::encode_utf8(cs));
    vstd::utf8::encode_utf8_valid_utf8(cs);
    vstd::utf8::encode_utf8_decode_utf8(cs);
}

/// A parsed string pins its bytes.
pub proof fn lemma_parse_string_sound(s: Seq<u8>, pos: int)
    requires
        spec_parse_string(s, pos) is Some,
    ensures
        ({
            let (cs, end) = spec_parse_string(s, pos)->Some_0;
            &&& pos < end <= s.len()
            &&& end - pos == spec_string_bytes(cs).len()
            &&& s.subrange(pos, end) == spec_string_bytes(cs)
        }),
{
    lemma_parse_bytes_sound(s, pos);
    let (b, end) = spec_parse_bytes(s, pos)->Some_0;
    vstd::utf8::decode_utf8_encode_utf8(b);
}

/// Encoding of an optional string: a presence byte, then the string.
pub open spec fn spec_opt_string_bytes(os: Option<Seq<char>>) -> Seq<u8> {
    match os {
        None => seq![0u8],
        Some(cs) => seq![1u8] + spec_string_bytes(cs),
    }
}

/// Parses an optional string.
pub open spec fn spec_parse_opt_string(s: Seq<u8>, pos: int) -> Option<(Option<Seq<char>>, int)> {
    if !(0 <= pos < s.len()) {
        None
    } else if s[pos] == 0 {
        Some((None, pos + 1))
    } else if s[pos] == 1 {
        match spec_parse_string(s, pos + 1) {
            Some((cs, end)) => Some((Some(cs), end)),
            None => None,
        }
    } else {
        None
    }
}

/// Appends the encoding of an optional string.
pub fn write_opt_string(out: &mut Vec<u8>, s: &Option<String>)
    ensures
        final(out)@ == old(out)@ + spec_opt_string_bytes(match s {
            Some(st) => Some(st@),
            None => None,
        }),
{
    match s {
        None => {
            out.push(0);
            proof {
                assert(out@ =~= old(out)@ + spec_opt_string_bytes(None));
            }
        },
        Some(st) => {
            out.push(1);
            write_string(out, st.as_str());
            proof {
                assert(out@ =~= old(out)@ + spec_opt_string_bytes(Some(st@)));
            }
        },
    }
}

/// Reads an optional string, exactly as [`spec_parse_opt_string`].
pub fn read_opt_string(buf: &Vec<u8>, pos: usize) -> (r: Option<(Option<String>, usize)>)
    ensures
        match r {
            Some((os, end)) => spec_parse_opt_string(buf@, pos as int) == Some(
                (
                    match os {
                        Some(st) => Some(st@),
                        None => None,
                    },
                    end as int,
                ),
            ),
            None => spec_parse_opt_string(buf@, pos as int) is None,
        },
{
    if pos >= buf.len() {
        return None;
    }
    let t = buf[pos];
    if t == 0 {
        Some((None, pos + 1))
    } else if t == 1 {
        match read_string(buf, pos + 1) {
            Some((st, end)) => Some((Some(st), end)),
            None => None,
        }
    } else {
        None
    }
}

/// Parsing an encoded optional string embedded at `pos` yields it back.
pub proof fn lemma_parse_opt_string_roundtrip(s: Seq<u8>, pos: int, os: Option<Seq<char>>)
    requires
        0 <= pos,
        (os matches Some(cs) ==> vstd::utf8::encode_utf8(cs).len() <= u64::MAX),
        pos + spec_opt_string_bytes(os).len() <= s.len(),
        s.subrange(pos, pos + spec_opt_string_bytes(os).len() as int) == spec_opt_string_bytes(os),
    ensures
        spec_parse_opt_string(s, pos) == Some((os, pos + spec_opt_string_bytes(os).len() as int)),
{
    let v = spec_opt_string_bytes(os);
    assert(s.subrange(pos, pos + v.len() as int)[0] == s[pos]);
    match os {
        None => {},
        Some(cs) => {
            assert(s.subrange(pos + 1, pos + v.len() as int) =~= v.subrange(1, v.len() as int));
            assert(v.subrange(1, v.len() as int) =~= spec_string_bytes(cs));
            lemma_parse_string_roundtrip(s, pos + 1, cs);
        },
    }
}


/// Encoding of an unsigned 32-bit value.
pub open spec fn spec_u32_bytes(n: u32) -> Seq<u8> {
    spec_varint(n as u64)
}

/// Parses an unsigned 32-bit value; larger values are rejected.
pub open spec fn spec_parse_u32(s: Seq<u8>, pos: int) -> Option<(u32, int)> {
    match spec_parse_varint(s, pos) {
        Some((v, end)) => if v <= u32::MAX as u64 {
            Some((v as u32, end))
        } else {
            None
        },
        None => None,
    }
}

/// Appends the encoding of an unsigned 32-bit value.
pub fn write_u32(out: &mut Vec<u8>, n: u32)
    ensures
        final(out)@ == old(out)@ + spec_u32_bytes(n),
{
    write_varint(out, n as u64);
}

/// Reads an unsigned 32-bit value, exactly as [`spec_parse_u32`].
pub fn read_u32(buf: &Vec<u8>, pos: usize) -> (r: Option<(u32, usize)>)
    ensures
        match r {
            Some((n, end)) => spec_parse_u32(buf@, pos as int) == Some((n, end as int)),
            None => spec_parse_u32(buf@, pos as int) is None,
        },
{
    match read_varint(buf, pos) {
        Some((v, end)) => if v <= u32::MAX as u64 {
            Some((v as u32, end))
        } else {
            None
        },
        None => None,
    }
}

/// Parsing an encoded 32-bit value embedded at `pos` yields it back.
pub proof fn lemma_parse_u32_roundtrip(s: Seq<u8>, pos: int, n: u32)
    requires
        0 <= pos,
        pos + spec_u32_bytes(n).len() <= s.len(),
        s.subrange(pos, pos + spec_u32_bytes(n).len() as int) == spec_u32_bytes(n),
    ensures
        spec_parse_u32(s, pos) == Some((n, pos + spec_u32_bytes(n).len() as int)),
{
    lemma_parse_varint_roundtrip(s, pos, n as u64);
}


/// Encoding of a raw byte.
pub open spec fn spec_u8_bytes(n: u8) -> Seq<u8> {
    seq![n]
}

/// Parses a raw byte.
pub open spec fn spec_parse_u8(s: Seq<u8>, pos: int) -> Option<(u8, int)> {
    if 0 <= pos < s.len() {
        Some((s[pos], pos + 1))
    } else {
        None
    }
}

/// Appends a raw byte.
pub fn write_u8(out: &mut Vec<u8>, n: u8)
    ensures
        final(out)@ == old(out)@ + spec_u8_bytes(n),
{
    out.push(n);
    proof {
        assert(out@ =~= old(out)@ + spec_u8_bytes(n));
    }
}

/// Reads a raw byte, exactly as [`spec_parse_u8`].
pub fn read_u8(buf: &Vec<u8>, pos: usize) -> (r: Option<(u8, usize)>)
    ensures
        match r {
            Some((n, end)) => spec_parse_u8(buf@, pos as int) == Some((n, end as int)),
            None => spec_parse_u8(buf@, pos as int) is None,
        },
{
    if pos < buf.len() {
        Some((buf[pos], pos + 1))
    } else {
        None
    }
}

} // verus!
