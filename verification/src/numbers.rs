//! Variable-length integers and wrapping sequence numbers, as provided by
//! `bevy_stardust_extras::numbers`, together with their byte-level models.
use vstd::prelude::*;
use vstd::arithmetic::div_mod::*;
use vstd::arithmetic::mul::*;
use bevy_stardust_extras::numbers::{Sequence, VarInt};

verus! {

/// `256` raised to the power `n`.
pub open spec fn pow256(n: nat) -> nat
    decreases n,
{
    if n == 0 {
        1
    } else {
        256 * pow256((n - 1) as nat)
    }
}

/// The integer whose little-endian bytes are `s`.
pub open spec fn le_value(s: Seq<u8>) -> nat
    decreases s.len(),
{
    if s.len() == 0 {
        0
    } else {
        s[0] as nat + 256 * le_value(s.drop_first())
    }
}

/// The `n` least significant bytes of `x`, least significant first.
pub open spec fn le_bytes(x: nat, n: nat) -> Seq<u8>
    decreases n,
{
    if n == 0 {
        Seq::empty()
    } else {
        seq![(x % 256) as u8] + le_bytes(x / 256, (n - 1) as nat)
    }
}

/// Big-endian bytes of a `u16`.
pub open spec fn be_u16_bytes(v: u16) -> Seq<u8> {
    seq![(v / 256) as u8, (v % 256) as u8]
}

/// The `u16` whose big-endian bytes are `hi`, `lo`.
pub open spec fn be_u16_value(hi: u8, lo: u8) -> u16 {
    (hi * 256 + lo) as u16
}

/// The encoded length of a variable-length integer: 1, 2, 4 or 8 bytes.
pub open spec fn varint_len(v: nat) -> nat {
    if v <= 63 {
        1
    } else if v <= 16383 {
        2
    } else if v <= 1073741823 {
        4
    } else {
        8
    }
}

/// The two-bit length tag stored in the low bits of the first byte.
pub open spec fn varint_tag(len: nat) -> nat {
    if len == 1 {
        0
    } else if len == 2 {
        1
    } else if len == 4 {
        2
    } else {
        3
    }
}

/// The total encoded length announced by the first byte of a variable-length integer.
pub open spec fn varint_tagged_len(first: u8) -> nat {
    if first % 4 == 0 {
        1
    } else if first % 4 == 1 {
        2
    } else if first % 4 == 2 {
        4
    } else {
        8
    }
}

/// The bytes of a variable-length integer: the value shifted left by two,
/// with the length tag in the two low bits, in little-endian order.
pub open spec fn varint_encoding(v: nat) -> Seq<u8> {
    le_bytes(4 * v + varint_tag(varint_len(v)), varint_len(v))
}

/// Decodes a variable-length integer at the start of `s`, giving the value
/// and the number of bytes it took, or `None` if `s` is too short.
pub open spec fn varint_decode(s: Seq<u8>) -> Option<(nat, nat)> {
    if s.len() == 0 {
        None
    } else {
        let n = varint_tagged_len(s[0]);
        if s.len() < n {
            None
        } else {
            Some((le_value(s.take(n as int)) / 4, n))
        }
    }
}

/// Whether sequence number `a` comes after `b`, taking wrap-around into account:
/// `a` is newer if it is ahead of `b` by at most half the range of `u16`.
pub open spec fn seq_newer(a: u16, b: u16) -> bool {
    ||| (a > b && a - b <= 32768)
    ||| (a < b && b - a > 32768)
}

/// Reads a variable-length integer from the start of `buf` with
/// `bevy_stardust_extras::numbers::VarInt::read`, returning its value and the
/// bytes that follow it. The contract restates the decoding in that source:
/// the low two bits of the first byte select a length of 1, 2, 4 or 8 bytes,
/// and the value is the little-endian integer of those bytes shifted right by two.
#[verifier::external_body]
pub(crate) fn varint_read(buf: &[u8]) -> (r: Result<(u64, &[u8]), ()>)
    ensures
        match r {
            Ok((v, rest)) => match varint_decode(buf@) {
                Some((dv, n)) => v == dv && rest@ == buf@.skip(n as int),
                None => false,
            },
            Err(_) => varint_decode(buf@) is None,
        },
{
    let mut b = buf;
    match VarInt::read(&mut b) {
        Ok(v) => Ok((u64::from(v), b)),
        Err(e) => Err(e),
    }
}

/// Appends `value` to `buf` as a variable-length integer with
/// `bevy_stardust_extras::numbers::VarInt::write`. That function refuses, and writes
/// nothing, when the encoded length exceeds what `BufMut::remaining_mut` reports for a
/// `Vec<u8>` (`isize::MAX` minus its length); otherwise it appends the encoding.
#[verifier::external_body]
pub(crate) fn varint_write(value: u32, buf: &mut Vec<u8>) -> (r: Result<(), ()>)
    ensures
        r is Ok <==> old(buf)@.len() + varint_len(value as nat) <= isize::MAX,
        r is Ok ==> final(buf)@ == old(buf)@ + varint_encoding(value as nat),
        r is Err ==> final(buf)@ == old(buf)@,
{
    VarInt::from_u32(value).write(buf)
}

/// The encoded length of `value` as computed by `VarInt::len_u32`.
#[verifier::external_body]
pub(crate) fn varint_len_u32(value: u32) -> (r: u8)
    ensures
        r == varint_len(value as nat),
{
    VarInt::len_u32(value)
}

/// The encoded length of `VarInt::from_u32(value)` as computed by `VarInt::len`,
/// which measures the held value against the same bounds as `len_u32`.
#[verifier::external_body]
pub(crate) fn varint_encoded_len(value: u32) -> (r: u8)
    ensures
        r == varint_len(value as nat),
{
    VarInt::from_u32(value).len()
}

/// Compares two sequence numbers with the `Ord` of
/// `bevy_stardust_extras::numbers::Sequence<u16>`: true when `a` is greater,
/// that is newer than `b` under wrap-around.
#[verifier::external_body]
pub(crate) fn sequence_newer(a: u16, b: u16) -> (r: bool)
    ensures
        r == seq_newer(a, b),
{
    Sequence::from(a) > Sequence::from(b)
}

/// The sequence number after `v`: one more, wrapping from the maximum to `0`.
pub open spec fn next_seq(v: u16) -> u16 {
    if v == u16::MAX {
        0
    } else {
        (v + 1) as u16
    }
}

/// Advances a sequence number by one, wrapping at the maximum, with the `+`
/// of `bevy_stardust_extras::numbers::Sequence<u16>`, which adds with
/// `u16::wrapping_add`.
#[verifier::external_body]
pub(crate) fn sequence_increment(v: u16) -> (r: u16)
    ensures
        r == next_seq(v),
{
    (Sequence::from(v) + 1u16).inner()
}

/// `le_bytes` produces exactly `n` bytes.
pub proof fn lemma_le_bytes_len(x: nat, n: nat)
    ensures
        le_bytes(x, n).len() == n,
    decreases n,
{
    if n > 0 {
        lemma_le_bytes_len(x / 256, (n - 1) as nat);
    }
}

/// Reading back the `n` little-endian bytes of `x` gives `x` modulo `256^n`.
pub proof fn lemma_le_roundtrip(x: nat, n: nat)
    ensures
        pow256(n) > 0,
        le_value(le_bytes(x, n)) == x % pow256(n),
    decreases n,
{
    if n == 0 {
        assert(le_bytes(x, n) =~= Seq::<u8>::empty());
    } else {
        let m = (n - 1) as nat;
        lemma_le_roundtrip(x / 256, m);
        let s = le_bytes(x, n);
        assert(s.drop_first() =~= le_bytes(x / 256, m));
        assert(s[0] == (x % 256) as u8);
        lemma_mod_breakdown(x as int, 256, pow256(m) as int);
        lemma_mul_strictly_positive(256, pow256(m) as int);
    }
}

/// The first byte of an encoding carries the tag of the encoding's length.
pub proof fn lemma_varint_first_byte(v: nat)
    requires
        v <= u32::MAX,
    ensures
        varint_encoding(v).len() == varint_len(v),
        varint_tagged_len(varint_encoding(v)[0]) == varint_len(v),
        le_value(varint_encoding(v)) == 4 * v + varint_tag(varint_len(v)),
{
    let n = varint_len(v);
    let x = 4 * v + varint_tag(n);
    lemma_le_bytes_len(x, n);
    lemma_le_roundtrip(x, n);
    assert(pow256(1) == 256) by { reveal_with_fuel(pow256, 2); }
    assert(pow256(2) == 65536) by { reveal_with_fuel(pow256, 3); }
    assert(pow256(4) == 4294967296) by { reveal_with_fuel(pow256, 5); }
    assert(pow256(8) == 18446744073709551616) by { reveal_with_fuel(pow256, 9); }
    assert(x < pow256(n));
    lemma_small_mod(x, pow256(n));
    let b0 = varint_encoding(v)[0];
    assert(b0 == (x % 256) as u8);
    lemma_mod_mod(x as int, 4, 64);
    assert((x % 256) % 4 == x % 4);
    assert(x % 4 == varint_tag(n)) by {
        lemma_mod_multiples_vanish(v as int, varint_tag(n) as int, 4);
        lemma_small_mod(varint_tag(n), 4);
    }
}

/// Decoding an encoded variable-length integer, whatever follows it,
/// gives back the value and the length of its encoding.
pub proof fn lemma_varint_roundtrip(v: nat, rest: Seq<u8>)
    requires
        v <= u32::MAX,
    ensures
        varint_decode(varint_encoding(v) + rest) == Some((v, varint_len(v))),
{
    let e = varint_encoding(v);
    let n = varint_len(v);
    lemma_varint_first_byte(v);
    let s = e + rest;
    assert(s[0] == e[0]);
    assert(s.take(n as int) =~= e);
    lemma_fundamental_div_mod_converse(
        (4 * v + varint_tag(n)) as int,
        4,
        v as int,
        varint_tag(n) as int,
    );
}

} // verus!
