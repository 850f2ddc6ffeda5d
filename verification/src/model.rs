//! Mathematical model of the SQLite variable-length integer wire format.
//!
//! A varint is one to nine bytes long. Each of the first eight bytes carries
//! seven payload bits in its low bits; a set high bit (the continuation bit)
//! means that more bytes follow. A ninth byte, when reached, carries all
//! eight of its bits and is always the last byte, whatever its high bit says.
//! Payload chunks appear most-significant first, and the accumulated 64-bit
//! pattern is read back as a two's-complement signed value.

use vstd::prelude::*;

verus! {

/// Largest unsigned 64-bit pattern whose encoding is shorter than nine
/// bytes. Every pattern above it (all negative values included) occupies
/// exactly nine bytes on the wire.
pub const MAX_SHORT_PATTERN: u64 = 0x00ff_ffff_ffff_ffff;

/// Index just past the leading varint of `b` when the scan starts at byte
/// `i`: the scan ends at the first byte with a clear high bit, or at the
/// ninth byte unconditionally.
pub open spec fn probe_from(b: Seq<u8>, i: int) -> int
    decreases 8 - i,
{
    if i >= 8 {
        9
    } else if b[i] < 0x80 {
        i + 1
    } else {
        probe_from(b, i + 1)
    }
}

/// How many bytes the leading varint of `b` occupies, between 1 and 9.
pub open spec fn varint_length(b: Seq<u8>) -> int {
    probe_from(b, 0)
}

/// Whether `b` holds a complete leading varint: either nine bytes are
/// available, or some byte among the first eight ends the scan early.
pub open spec fn has_complete_varint(b: Seq<u8>) -> bool {
    b.len() >= 9 || exists|i: int| 0 <= i < b.len() && i < 8 && b[i] < 0x80
}

/// The accumulator after consuming the first `i` bytes of `b`: each of the
/// first eight bytes contributes its low seven bits, the ninth byte all
/// eight of its bits.
pub open spec fn acc_after(b: Seq<u8>, i: int) -> u64
    decreases i,
{
    if i <= 0 {
        0
    } else if i >= 9 {
        (acc_after(b, 8) << 8) | (b[8] as u64)
    } else {
        (acc_after(b, i - 1) << 7) | ((b[i - 1] & 0x7f) as u64)
    }
}

/// The unsigned 64-bit pattern carried by the leading varint of `b`.
pub open spec fn varint_raw(b: Seq<u8>) -> u64 {
    acc_after(b, varint_length(b))
}

/// The value carried by the leading varint of `b`: the accumulated pattern
/// reinterpreted as a two's-complement signed 64-bit integer.
pub open spec fn varint_value(b: Seq<u8>) -> i64 {
    varint_raw(b) as i64
}

/// The fewest bytes that can carry the pattern `u` in seven-bit chunks:
/// the least `n` in 1..=8 with `u < 2^(7n)`.
pub open spec fn min_varint_len(u: u64) -> int
    recommends
        u <= MAX_SHORT_PATTERN,
{
    if u < 0x80 {
        1
    } else if u < 0x4000 {
        2
    } else if u < 0x20_0000 {
        3
    } else if u < 0x1000_0000 {
        4
    } else if u < 0x8_0000_0000 {
        5
    } else if u < 0x400_0000_0000 {
        6
    } else if u < 0x2_0000_0000_0000 {
        7
    } else {
        8
    }
}

/// How many bytes the encoding of `v` occupies: nine for every pattern
/// above `MAX_SHORT_PATTERN`, and otherwise the minimal chunk count.
pub open spec fn encoded_len(v: i64) -> int {
    if (v as u64) > MAX_SHORT_PATTERN {
        9
    } else {
        min_varint_len(v as u64)
    }
}

/// The scan always ends within nine bytes, and never before the byte it
/// started on.
pub proof fn lemma_probe_from_range(b: Seq<u8>, i: int)
    requires
        0 <= i <= 8,
    ensures
        i < probe_from(b, i) <= 9,
    decreases 8 - i,
{
    if i < 8 && b[i] >= 0x80 {
        lemma_probe_from_range(b, i + 1);
    }
}

/// A scan over bytes whose continuation bits are set up to a terminal byte
/// (or up to the forced ninth byte) ends exactly there.
pub proof fn lemma_probe_from_terminated(b: Seq<u8>, i: int, n: int)
    requires
        0 <= i < n <= 9,
        n <= b.len(),
        forall|j: int| i <= j < n - 1 ==> b[j] >= 0x80,
        n < 9 ==> b[n - 1] < 0x80,
    ensures
        probe_from(b, i) == n,
    decreases n - i,
{
    if i < n - 1 {
        lemma_probe_from_terminated(b, i + 1, n);
    }
}

/// The accumulator over the first `i` bytes ignores anything pushed after
/// them.
pub proof fn lemma_acc_after_push(b: Seq<u8>, x: u8, i: int)
    requires
        0 <= i <= b.len(),
    ensures
        acc_after(b.push(x), i) == acc_after(b, i),
    decreases i,
{
    if i >= 9 {
        lemma_acc_after_push(b, x, 8);
    } else if i > 0 {
        lemma_acc_after_push(b, x, i - 1);
    }
}

/// Seven more payload bits extend the shifted-out prefix of `u` by exactly
/// one chunk.
pub(crate) proof fn lemma_chunk_shift(u: u64, s: u64, s7: u64)
    by (bit_vector)
    requires
        s <= 49,
        s7 == s + 7,
    ensures
        ((u >> s7) << 7) | ((u >> s) & 0x7f) == u >> s,
{
}

/// A seven-bit chunk survives the round trip through a byte, with or
/// without the continuation bit.
pub(crate) proof fn lemma_chunk_byte(c: u64)
    by (bit_vector)
    requires
        c <= 0x7f,
    ensures
        ((((c as u8) | 0x80) & 0x7f) as u64) == c,
        (((c as u8) & 0x7f) as u64) == c,
        ((c as u8) | 0x80) >= 0x80,
        (c as u8) < 0x80,
{
}

/// Shifting a pattern out by as many bits as its minimal chunk count
/// carries leaves nothing behind.
pub(crate) proof fn lemma_min_len_shift(u: u64, n: u64)
    by (bit_vector)
    requires
        u <= 0x00ff_ffff_ffff_ffff,
        n == min_varint_len(u),
    ensures
        u >> (7 * n) == 0,
        1 <= n <= 8,
{
}

/// The low byte and the high fifty-six bits of `u` recompose to `u`.
pub(crate) proof fn lemma_nine_byte_recompose(u: u64, w: u64)
    by (bit_vector)
    requires
        w == u >> 8,
    ensures
        (w << 8) | (((u & 0xff) as u8) as u64) == u,
        w >> 56 == 0,
        w <= 0x00ff_ffff_ffff_ffff,
        ((u & 0xff) as u8) as u64 == u & 0xff,
{
}

/// A signed value and its unsigned 64-bit pattern stand for each other:
/// the cast round-trips, and exactly the patterns above `MAX_SHORT_PATTERN`
/// (all negative values among them) need the nine-byte form.
pub(crate) proof fn lemma_pattern_roundtrip(v: i64)
    by (bit_vector)
    ensures
        ((v as u64) as i64) == v,
        v < 0 ==> (v as u64) > 0x00ff_ffff_ffff_ffff,
        (v as u64) <= 0x00ff_ffff_ffff_ffff ==> 0 <= v && v == (v as u64),
{
}

/// An accumulator fed `i` seven-bit chunks stays below `2^(7i)`.
pub proof fn lemma_acc_after_fits(b: Seq<u8>, i: int)
    requires
        0 <= i <= 8,
    ensures
        acc_after(b, i) < (1u64 << ((7 * i) as u64)),
    decreases i,
{
    if i == 0 {
        assert(0 < (1u64 << 0u64)) by (bit_vector);
    } else {
        lemma_acc_after_fits(b, i - 1);
        let a: u64 = acc_after(b, i - 1);
        let x: u8 = b[i - 1];
        let s: u64 = ((7 * (i - 1)) as u64);
        let s7: u64 = ((7 * i) as u64);
        assert(((x & 0x7f) as u64) <= 0x7f) by (bit_vector);
        lemma_shift7_bound(a, ((x & 0x7f) as u64), s, s7);
    }
}

/// Oring a seven-bit chunk under a bounded accumulator keeps it bounded.
pub(crate) proof fn lemma_shift7_bound(a: u64, c: u64, s: u64, s7: u64)
    by (bit_vector)
    requires
        a < (1u64 << s),
        c <= 0x7f,
        s <= 49,
        s7 == s + 7,
    ensures
        ((a << 7) | c) < (1u64 << s7),
{
}

/// A pattern needing `m` chunks dwarfs anything `n < m` chunks can carry.
pub(crate) proof fn lemma_min_len_gap(u: u64, raw: u64, n: u64)
    by (bit_vector)
    requires
        u <= 0x00ff_ffff_ffff_ffff,
        1 <= n,
        (n as int) < min_varint_len(u),
        raw < (1u64 << (7 * n)),
    ensures
        raw != u,
        raw < 0x8000_0000_0000_0000,
{
}

/// Minimality law: a byte sequence shorter than the minimal chunk count of
/// `v`'s pattern never decodes to `v`. No leading byte of a minimal
/// encoding could be dropped without changing the value.
pub proof fn lemma_minimal_length(b: Seq<u8>, v: i64)
    requires
        0 <= v <= MAX_SHORT_PATTERN,
        varint_length(b) < min_varint_len(v as u64),
    ensures
        varint_value(b) != v,
{
    let n: int = varint_length(b);
    lemma_probe_from_range(b, 0);
    lemma_acc_after_fits(b, n);
    lemma_min_len_gap(v as u64, varint_raw(b), n as u64);
}

/// Nine-byte law: every negative value is encoded in exactly nine bytes.
pub proof fn lemma_negative_forces_nine_bytes(v: i64)
    requires
        v < 0,
    ensures
        encoded_len(v) == 9,
{
    lemma_pattern_roundtrip(v);
}

} // verus!
