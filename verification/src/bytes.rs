//! Little-endian integers, as the audio packets and the waveform frames carry them.

use vstd::prelude::*;

verus! {

/// The number that `bytes` spells, least significant byte first.
pub open spec fn le_value(bytes: Seq<u8>) -> nat
    decreases bytes.len(),
{
    if bytes.len() == 0 {
        0
    } else {
        bytes[0] as nat + 256 * le_value(bytes.drop_first())
    }
}

/// The `n` low bytes of `v`, least significant first.
pub open spec fn le_bytes(v: nat, n: nat) -> Seq<u8>
    decreases n,
{
    if n == 0 {
        Seq::empty()
    } else {
        seq![(v % 256) as u8] + le_bytes(v / 256, (n - 1) as nat)
    }
}

/// How many numbers fit in `n` bytes.
pub open spec fn byte_span(n: nat) -> nat
    decreases n,
{
    if n == 0 {
        1
    } else {
        256 * byte_span((n - 1) as nat)
    }
}

/// Two's complement: the number in `-m/2 .. m/2` that is `v` modulo `m`.
pub open spec fn to_signed(v: nat, m: nat) -> int {
    if 2 * v < m {
        v as int
    } else {
        v - m
    }
}

/// Two's complement: the number in `0 .. m` that is `x` modulo `m`.
pub open spec fn to_unsigned(x: int, m: nat) -> nat {
    if x < 0 {
        (x + m) as nat
    } else {
        x as nat
    }
}

/// The signed 16-bit number at `at`.
pub open spec fn le_i16(bytes: Seq<u8>, at: int) -> i16 {
    to_signed(le_value(bytes.subrange(at, at + 2)), 0x1_0000) as i16
}

/// The signed 32-bit number at `at`.
pub open spec fn le_i32(bytes: Seq<u8>, at: int) -> i32 {
    to_signed(le_value(bytes.subrange(at, at + 4)), 0x1_0000_0000) as i32
}

/// Writing a number in `n` bytes and reading those bytes gives the number back.
pub proof fn law_le_round_trip(v: nat, n: nat)
    requires
        v < byte_span(n),
    ensures
        le_bytes(v, n).len() == n,
        le_value(le_bytes(v, n)) == v,
    decreases n,
{
    if n > 0 {
        law_le_round_trip(v / 256, (n - 1) as nat);
        assert(le_bytes(v, n).drop_first() =~= le_bytes(v / 256, (n - 1) as nat));
    }
}

/// A sample written as two bytes reads back as itself.
pub proof fn law_sample_round_trip(bytes: Seq<u8>, at: int, sample: i16)
    requires
        0 <= at <= bytes.len() - 2,
        bytes.subrange(at, at + 2) == le_bytes(to_unsigned(sample as int, 0x1_0000), 2),
    ensures
        le_i16(bytes, at) == sample,
{
    assert(byte_span(2) == 0x1_0000) by {
        reveal_with_fuel(byte_span, 3);
    }
    law_le_round_trip(to_unsigned(sample as int, 0x1_0000), 2);
}

/// Reads the signed 16-bit number at `at`.
pub fn read_i16(data: &[u8], at: usize) -> (value: i16)
    requires
        at + 2 <= data@.len(),
    ensures
        value == le_i16(data@, at as int),
{
    let raw: i32 = data[at] as i32 + 256 * data[at + 1] as i32;
    proof {
        reveal_with_fuel(le_value, 3);
    }
    if raw < 0x8000 {
        raw as i16
    } else {
        (raw - 0x1_0000) as i16
    }
}

/// Reads the signed 32-bit number at `at`.
pub fn read_i32(data: &[u8], at: usize) -> (value: i32)
    requires
        at + 4 <= data@.len(),
    ensures
        value == le_i32(data@, at as int),
{
    let raw: i64 = data[at] as i64 + 0x100 * data[at + 1] as i64 + 0x1_0000 * data[at + 2] as i64
        + 0x100_0000 * data[at + 3] as i64;
    proof {
        reveal_with_fuel(le_value, 5);
    }
    if raw < 0x8000_0000 {
        raw as i32
    } else {
        (raw - 0x1_0000_0000) as i32
    }
}

/// Appends the `n` low bytes of `v`, least significant first.
pub fn push_le(out: &mut Vec<u8>, v: u64, n: usize)
    ensures
        final(out)@ == old(out)@ + le_bytes(v as nat, n as nat),
    decreases n,
{
    if n > 0 {
        out.push((v % 256) as u8);
        push_le(out, v / 256, n - 1);
    }
}

/// Appends a sample as two bytes.
pub fn push_sample(out: &mut Vec<u8>, sample: i16)
    ensures
        final(out)@ == old(out)@ + le_bytes(to_unsigned(sample as int, 0x1_0000), 2),
{
    let raw: u64 = if sample < 0 {
        (sample as i32 + 0x1_0000) as u64
    } else {
        sample as u64
    };
    push_le(out, raw, 2);
}

/// A sample is what its two bytes say: the first counts once, the second 256 times, and the whole
/// is taken modulo 65536.
pub proof fn law_sample_is_its_two_bytes(bytes: Seq<u8>, at: int)
    requires
        0 <= at <= bytes.len() - 2,
    ensures
        (le_i16(bytes, at) - (bytes[at] + 256 * bytes[at + 1])) % 0x1_0000 == 0,
{
    reveal_with_fuel(le_value, 3);
}

/// A packet number is what its four bytes say, the first of which counts least.
pub proof fn law_packet_number_is_its_four_bytes(bytes: Seq<u8>, at: int)
    requires
        0 <= at <= bytes.len() - 4,
    ensures
        (le_i32(bytes, at) - (bytes[at] + 0x100 * bytes[at + 1] + 0x1_0000 * bytes[at + 2]
            + 0x100_0000 * bytes[at + 3])) % 0x1_0000_0000 == 0,
{
    reveal_with_fuel(le_value, 5);
}

/// Byte `k` of a number counts `256` to the power `k`.
pub proof fn law_bytes_are_base_256_digits(v: nat, n: nat, k: nat)
    requires
        k < n,
    ensures
        le_bytes(v, n).len() == n,
        le_bytes(v, n)[k as int] == (v as int / vstd::arithmetic::power::pow(256, k)) % 256,
    decreases n,
{
    reveal(vstd::arithmetic::power::pow);
    lemma_le_bytes_len(v, n);
    if k > 0 {
        let p = vstd::arithmetic::power::pow(256, (k - 1) as nat);
        law_bytes_are_base_256_digits(v / 256, (n - 1) as nat, (k - 1) as nat);
        vstd::arithmetic::power::lemma_pow_positive(256, (k - 1) as nat);
        vstd::arithmetic::div_mod::lemma_div_denominator(v as int, 256, p);
        assert(le_bytes(v, n)[k as int] == le_bytes(v / 256, (n - 1) as nat)[k - 1]);
    } else {
        assert(v as int / 1 == v);
    }
}

proof fn lemma_le_bytes_len(v: nat, n: nat)
    ensures
        le_bytes(v, n).len() == n,
    decreases n,
{
    if n > 0 {
        lemma_le_bytes_len(v / 256, (n - 1) as nat);
    }
}

/// What is read at a place are the bytes that stand there.
pub proof fn law_reading_takes_the_bytes_there(data: &[u8], at: usize, sample: i16, number: i32)
    requires
        at + 4 <= data@.len(),
        call_ensures(read_i16, (data, at), sample),
        call_ensures(read_i32, (data, at), number),
    ensures
        (sample - (data@[at as int] + 256 * data@[at + 1])) % 0x1_0000 == 0,
        (number - (data@[at as int] + 0x100 * data@[at + 1] + 0x1_0000 * data@[at + 2] + 0x100_0000
            * data@[at + 3])) % 0x1_0000_0000 == 0,
{
    law_sample_is_its_two_bytes(data@, at as int);
    law_packet_number_is_its_four_bytes(data@, at as int);
}

} // verus!
