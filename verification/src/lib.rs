//! A codec for SQLite-style variable-length integers.
//!
//! Signed 64-bit values travel as one to nine bytes: the first eight bytes
//! each carry seven payload bits under a continuation flag in the high bit,
//! and a ninth byte, when reached, carries a full eight bits and always ends
//! the varint. The module [`model`] states the format mathematically; the
//! functions here are proved against it.

use vstd::prelude::*;

pub mod model;

verus! {

use crate::model::acc_after;
use crate::model::encoded_len;
use crate::model::has_complete_varint;
use crate::model::lemma_acc_after_push;
use crate::model::lemma_chunk_byte;
use crate::model::lemma_chunk_shift;
use crate::model::lemma_min_len_shift;
use crate::model::lemma_nine_byte_recompose;
use crate::model::lemma_pattern_roundtrip;
use crate::model::lemma_probe_from_terminated;
use crate::model::min_varint_len;
use crate::model::probe_from;
use crate::model::varint_length;
use crate::model::varint_value;
use crate::model::MAX_SHORT_PATTERN;

/// Read the leading varint of `bytes`: its signed 64-bit value and how many
/// bytes it occupied.
///
/// The caller must supply a complete varint: either nine bytes, or a
/// terminal byte (high bit clear) among the first eight. For unchecked
/// input, use [`try_read_varint`].
pub fn read_varint(bytes: &[u8]) -> (r: (i64, usize))
    requires
        has_complete_varint(bytes@),
    ensures
        r.0 == varint_value(bytes@),
        r.1 == varint_length(bytes@),
        1 <= r.1 <= 9,
{
    let mut acc: u64 = 0;
    let mut i: usize = 0;
    loop
        invariant
            0 <= i <= 8,
            i <= bytes@.len(),
            has_complete_varint(bytes@),
            acc == acc_after(bytes@, i as int),
            probe_from(bytes@, i as int) == varint_length(bytes@),
            forall|j: int| 0 <= j < i ==> bytes@[j] >= 0x80,
        decreases 9 - i,
    {
        if i == 8 {
            acc = (acc << 8) | (bytes[8] as u64);
            return (#[verifier::truncate] (acc as i64), 9);
        }
        let byte: u8 = bytes[i];
        acc = (acc << 7) | ((byte & 0x7f) as u64);
        if byte < 0x80 {
            return (#[verifier::truncate] (acc as i64), i + 1);
        }
        i = i + 1;
    }
}

/// Read how long the leading varint of `bytes` is, in bytes.
///
/// The caller must supply a complete varint: either nine bytes, or a
/// terminal byte (high bit clear) among the first eight. For unchecked
/// input, use [`try_read_varint_byte_length`].
pub fn read_varint_byte_length(bytes: &[u8]) -> (n: usize)
    requires
        has_complete_varint(bytes@),
    ensures
        n == varint_length(bytes@),
        1 <= n <= 9,
{
    let mut i: usize = 0;
    loop
        invariant
            0 <= i <= 8,
            i <= bytes@.len(),
            has_complete_varint(bytes@),
            probe_from(bytes@, i as int) == varint_length(bytes@),
            forall|j: int| 0 <= j < i ==> bytes@[j] >= 0x80,
        decreases 9 - i,
    {
        if i == 8 {
            return 9;
        }
        if bytes[i] < 0x80 {
            return i + 1;
        }
        i = i + 1;
    }
}

/// Why reading a varint failed.
#[derive(Clone, Copy, Debug, PartialEq, Eq, Structural)]
pub enum VarintError {
    /// The input ended before the leading varint was complete: fewer than
    /// nine bytes were supplied and none of them had a clear high bit.
    InsufficientInput,
}

/// Check whether `bytes` holds a complete leading varint, so that reading
/// it stays within bounds.
pub fn varint_is_complete(bytes: &[u8]) -> (c: bool)
    ensures
        c == has_complete_varint(bytes@),
{
    if bytes.len() >= 9 {
        return true;
    }
    let n: usize = bytes.len();
    let mut i: usize = 0;
    while i < n
        invariant
            i <= n,
            n == bytes@.len(),
            n < 9,
            forall|j: int| 0 <= j < i ==> bytes@[j] >= 0x80,
        decreases n - i,
    {
        if bytes[i] < 0x80 {
            return true;
        }
        i = i + 1;
    }
    false
}

/// Read the leading varint of `bytes`, reporting an error instead of
/// reading out of bounds when the input is too short to hold one.
pub fn try_read_varint(bytes: &[u8]) -> (r: Result<(i64, usize), VarintError>)
    ensures
        match r {
            Ok(p) => has_complete_varint(bytes@) && p.0 == varint_value(bytes@) && p.1
                == varint_length(bytes@),
            Err(e) => !has_complete_varint(bytes@) && e == VarintError::InsufficientInput,
        },
{
    if varint_is_complete(bytes) {
        Ok(read_varint(bytes))
    } else {
        Err(VarintError::InsufficientInput)
    }
}

/// Read how long the leading varint of `bytes` is, reporting an error
/// instead of guessing when the input is too short to hold one.
pub fn try_read_varint_byte_length(bytes: &[u8]) -> (r: Result<usize, VarintError>)
    ensures
        match r {
            Ok(n) => has_complete_varint(bytes@) && n == varint_length(bytes@),
            Err(e) => !has_complete_varint(bytes@) && e == VarintError::InsufficientInput,
        },
{
    if varint_is_complete(bytes) {
        Ok(read_varint_byte_length(bytes))
    } else {
        Err(VarintError::InsufficientInput)
    }
}

/// Serialize a signed 64-bit value to its varint byte representation.
///
/// The encoding is minimal: a pattern at most [`MAX_SHORT_PATTERN`] takes
/// the fewest seven-bit chunks that carry it, and any larger pattern —
/// every negative value among them — takes exactly nine bytes. Decoding
/// the result gives back `input`: the round trip is lossless.
pub fn serialize_to_varint(input: i64) -> (r: Vec<u8>)
    ensures
        varint_value(r@) == input,
        varint_length(r@) == r@.len(),
        r@.len() == encoded_len(input),
        has_complete_varint(r@),
        input < 0 ==> r@.len() == 9,
{
    let u: u64 = #[verifier::truncate] (input as u64);
    proof {
        lemma_pattern_roundtrip(input);
    }
    let mut out: Vec<u8> = Vec::new();
    if u > MAX_SHORT_PATTERN {
        let w: u64 = u >> 8;
        proof {
            lemma_nine_byte_recompose(u, w);
        }
        let mut k: usize = 0;
        while k < 8
            invariant
                k <= 8,
                out@.len() == k,
                w == u >> 8,
                acc_after(out@, k as int) == w >> (7 * (8 - k)),
                forall|j: int| 0 <= j < k ==> out@[j] >= 0x80,
            decreases 8 - k,
        {
            let s: u64 = 7 * ((7 - k) as u64);
            let chunk: u64 = (w >> s) & 0x7f;
            let byte: u8 = (#[verifier::truncate] (chunk as u8)) | 0x80;
            proof {
                assert(((w >> s) & 0x7f) <= 0x7f) by (bit_vector);
                lemma_chunk_byte(chunk);
                lemma_acc_after_push(out@, byte, k as int);
                lemma_chunk_shift(w, s, (s + 7) as u64);
            }
            out.push(byte);
            k = k + 1;
        }
        proof {
            assert(w >> 0 == w) by (bit_vector);
        }
        let last: u8 = #[verifier::truncate] ((u & 0xff) as u8);
        proof {
            lemma_acc_after_push(out@, last, 8);
        }
        out.push(last);
        proof {
            lemma_probe_from_terminated(out@, 0, 9);
        }
        out
    } else {
        let n: usize = if u < 0x80 {
            1
        } else if u < 0x4000 {
            2
        } else if u < 0x20_0000 {
            3
        } else if u < 0x1000_0000 {
            4
        } else if u < 0x8_0000_0000 {
            5
        } else if u < 0x400_0000_0000 {
            6
        } else if u < 0x2_0000_0000_0000 {
            7
        } else {
            8
        };
        proof {
            lemma_min_len_shift(u, n as u64);
        }
        let mut k: usize = 0;
        while k < n
            invariant
                k <= n,
                1 <= n <= 8,
                out@.len() == k,
                u <= MAX_SHORT_PATTERN,
                n == min_varint_len(u),
                acc_after(out@, k as int) == u >> (7 * (n - k)),
                forall|j: int| 0 <= j < k ==> (out@[j] >= 0x80 <==> j < n - 1),
            decreases n - k,
        {
            let s: u64 = 7 * ((n - 1 - k) as u64);
            let chunk: u64 = (u >> s) & 0x7f;
            let mut byte: u8 = #[verifier::truncate] (chunk as u8);
            if k + 1 < n {
                byte = byte | 0x80;
            }
            proof {
                assert(((u >> s) & 0x7f) <= 0x7f) by (bit_vector);
                lemma_chunk_byte(chunk);
                lemma_acc_after_push(out@, byte, k as int);
                lemma_chunk_shift(u, s, (s + 7) as u64);
            }
            out.push(byte);
            k = k + 1;
        }
        proof {
            assert(u >> 0 == u) by (bit_vector);
            lemma_probe_from_terminated(out@, 0, n as int);
            assert(out@[n - 1] < 0x80);
        }
        out
    }
}

} // verus!
