//! Protobuf wire primitives: varints, zigzag, fixed-width integers and
//! length-delimited runs, each as a mathematical function on byte sequences
//! with an executable counterpart.

use vstd::bytes::*;
use vstd::prelude::*;
use vstd::slice::slice_subrange;

verus! {

/// The varint encoding of `v`: seven bits per byte, least significant group
/// first, the high bit set on every byte but the last.
pub open spec fn varint(v: u64) -> Seq<u8>
    decreases v,
{
    if v < 128 {
        seq![v as u8]
    } else {
        seq![(v % 128 + 128) as u8] + varint(v / 128)
    }
}

/// The value and the length of the varint at the front of `b`, whatever its
/// size: `None` when `b` ends before a byte without the high bit.
pub open spec fn varint_prefix(b: Seq<u8>) -> Option<(nat, nat)>
    decreases b.len(),
{
    if b.len() == 0 {
        None
    } else if b[0] < 128 {
        Some((b[0] as nat, 1nat))
    } else {
        match varint_prefix(b.drop_first()) {
            Some((v, n)) => Some((((b[0] - 128) + 128 * v) as nat, n + 1)),
            None => None,
        }
    }
}

/// The varint at the front of `b` and the number of bytes it takes. It is
/// refused when it is cut short, longer than ten bytes, or worth more than
/// 64 bits.
pub open spec fn parse_varint(b: Seq<u8>) -> Option<(u64, nat)> {
    match varint_prefix(b) {
        Some((v, n)) => if n <= 10 && v <= u64::MAX {
            Some((v as u64, n))
        } else {
            None
        },
        None => None,
    }
}

spec fn pow128(i: nat) -> nat
    decreases i,
{
    if i == 0 {
        1
    } else {
        128 * pow128((i - 1) as nat)
    }
}

proof fn lemma_pow128_values()
    ensures
        pow128(0) == 1,
        pow128(1) == 0x80,
        pow128(2) == 0x4000,
        pow128(3) == 0x20_0000,
        pow128(4) == 0x1000_0000,
        pow128(5) == 0x8_0000_0000,
        pow128(6) == 0x400_0000_0000,
        pow128(7) == 0x2_0000_0000_0000,
        pow128(8) == 0x100_0000_0000_0000,
        pow128(9) == 0x8000_0000_0000_0000,
{
    reveal_with_fuel(pow128, 11);
}

/// A varint is between one and ten bytes long.
pub proof fn lemma_varint_len(v: u64)
    ensures
        1 <= varint(v).len() <= 10,
{
    assert(v * pow128(0) == v) by (nonlinear_arith)
        requires
            pow128(0) == 1,
    ;
    lemma_varint_len_bound(v, 0);
}

proof fn lemma_varint_len_bound(v: u64, k: nat)
    requires
        k <= 9,
        v * pow128(k) <= u64::MAX,
    ensures
        1 <= varint(v).len() <= 10 - k,
    decreases v,
{
    if v >= 128 {
        lemma_pow128_values();
        assert(k <= 8) by {
            if k == 9 {
                assert(v * pow128(9) >= 128 * 0x8000_0000_0000_0000) by (nonlinear_arith)
                    requires
                        v >= 128,
                        pow128(9) == 0x8000_0000_0000_0000,
                ;
            }
        }
        assert((v / 128) * pow128(k + 1) <= v * pow128(k)) by (nonlinear_arith)
            requires
                pow128(k + 1) == 128 * pow128(k),
                v >= 0,
                pow128(k) >= 0,
        ;
        lemma_varint_len_bound(v / 128, k + 1);
    }
}

/// A varint is at least one byte long and lies within the bytes it is read
/// from.
pub proof fn lemma_varint_prefix_positive(b: Seq<u8>)
    ensures
        varint_prefix(b) matches Some((v, n)) ==> 1 <= n <= b.len(),
    decreases b.len(),
{
    if b.len() > 0 && b[0] >= 128 {
        lemma_varint_prefix_positive(b.drop_first());
    }
}

/// Reading back what `varint` wrote gives the value and the length written,
/// whatever follows.
pub proof fn lemma_varint_round_trip(v: u64, rest: Seq<u8>)
    ensures
        parse_varint(varint(v) + rest) == Some((v, varint(v).len())),
{
    lemma_varint_len(v);
    lemma_varint_prefix_of_varint(v, rest);
}

proof fn lemma_varint_prefix_of_varint(v: u64, rest: Seq<u8>)
    ensures
        varint_prefix(varint(v) + rest) == Some((v as nat, varint(v).len())),
    decreases v,
{
    let s = varint(v) + rest;
    if v < 128 {
        assert(s[0] == v as u8);
    } else {
        let low = (v % 128 + 128) as u8;
        assert(s[0] == low);
        assert(s.drop_first() =~= varint(v / 128) + rest);
        lemma_varint_prefix_of_varint(v / 128, rest);
    }
}

/// What follows a varint does not change how it reads.
pub proof fn lemma_parse_varint_stable(a: Seq<u8>, b: Seq<u8>)
    requires
        parse_varint(a) is Some,
    ensures
        parse_varint(a + b) == parse_varint(a),
{
    lemma_varint_prefix_stable(a, b);
}

proof fn lemma_varint_prefix_stable(a: Seq<u8>, b: Seq<u8>)
    requires
        varint_prefix(a) is Some,
    ensures
        varint_prefix(a + b) == varint_prefix(a),
    decreases a.len(),
{
    assert((a + b)[0] == a[0]);
    if a[0] >= 128 {
        assert((a + b).drop_first() =~= a.drop_first() + b);
        lemma_varint_prefix_stable(a.drop_first(), b);
    }
}

spec fn shifted(r: Option<(nat, nat)>, acc: nat, mul: nat, i: nat) -> Option<(nat, nat)> {
    match r {
        Some((v, n)) => Some((acc + mul * v, n + i)),
        None => None,
    }
}

/// Appends the varint encoding of `v` to `out`.
pub fn write_varint(out: &mut Vec<u8>, v: u64)
    ensures
        final(out)@ == old(out)@ + varint(v),
{
    let mut rest: u64 = v;
    while rest >= 128
        invariant
            out@ + varint(rest) == old(out)@ + varint(v),
        decreases rest,
    {
        let low: u64 = rest % 128 + 128;
        let ghost before = out@;
        out.push(low as u8);
        proof {
            assert(before + varint(rest) == (before + seq![low as u8]) + varint(rest / 128));
        }
        rest = rest / 128;
    }
    let ghost before = out@;
    out.push(rest as u8);
    assert(before + varint(rest) == before.push(rest as u8));
}

/// Reads the varint that starts at `pos`: its value and the position after
/// it, or `None` where `parse_varint` refuses it.
pub fn read_varint(bytes: &[u8], pos: usize) -> (r: Option<(u64, usize)>)
    requires
        pos <= bytes@.len(),
    ensures
        match parse_varint(bytes@.skip(pos as int)) {
            Some((v, n)) => r matches Some((value, next)) && value == v && next == pos + n && next
                <= bytes@.len(),
            None => r is None,
        },
{
    let ghost whole = bytes@.skip(pos as int);
    let mut acc: u64 = 0;
    let mut mul: u64 = 1;
    let mut i: usize = 0;
    proof {
        lemma_pow128_values();
        assert(bytes@.skip(pos as int + 0) == whole);
    }
    // nine bytes of seven bits each
    while i < 9
        invariant
            i <= 9,
            pos + i <= bytes@.len(),
            bytes@.len() == bytes.len(),
            whole == bytes@.skip(pos as int),
            mul == pow128(i as nat),
            acc < mul,
            varint_prefix(whole) == shifted(
                varint_prefix(bytes@.skip(pos + i)),
                acc as nat,
                mul as nat,
                i as nat,
            ),
        decreases 9 - i,
    {
        proof {
            lemma_pow128_values();
        }
        let ghost tail = bytes@.skip(pos + i);
        if pos + i >= bytes.len() {
            return None;
        }
        let byte: u8 = bytes[pos + i];
        assert(tail[0] == byte);
        assert(tail.drop_first() =~= bytes@.skip(pos + i + 1));
        assert(mul <= 0x100_0000_0000_0000);
        if byte < 128 {
            assert(acc + mul * byte < mul * 128 <= u64::MAX) by (nonlinear_arith)
                requires
                    acc < mul,
                    byte < 128,
                    mul <= 0x100_0000_0000_0000,
            ;
            return Some((acc + mul * (byte as u64), pos + i + 1));
        }
        assert(acc + mul * (byte - 128) < mul * 128 <= u64::MAX) by (nonlinear_arith)
            requires
                acc < mul,
                128 <= byte < 256,
                mul <= 0x100_0000_0000_0000,
        ;
        let ghost old_acc = acc;
        let ghost old_mul = mul;
        acc = acc + mul * ((byte - 128) as u64);
        mul = mul * 128;
        i = i + 1;
        proof {
            assert(pow128(i as nat) == 128 * pow128((i - 1) as nat));
            match varint_prefix(tail.drop_first()) {
                Some((v, n)) => {
                    assert(old_acc + old_mul * ((byte - 128) + 128 * v) == acc + mul * v)
                        by (nonlinear_arith)
                        requires
                            acc == old_acc + old_mul * (byte - 128),
                            mul == old_mul * 128,
                    ;
                },
                None => {},
            }
        }
    }
    // the tenth byte holds the last bit, and ends the varint
    let ghost tail = bytes@.skip(pos + 9);
    if pos + 9 >= bytes.len() {
        return None;
    }
    let byte: u8 = bytes[pos + 9];
    proof {
        lemma_pow128_values();
        assert(tail[0] == byte);
        lemma_varint_prefix_positive(tail.drop_first());
    }
    if byte > 1 {
        assert(byte < 128 ==> acc + mul * byte > u64::MAX) by (nonlinear_arith)
            requires
                mul == 0x8000_0000_0000_0000,
                byte >= 2,
                acc >= 0,
        ;
        return None;
    }
    assert(acc + mul * byte <= u64::MAX) by (nonlinear_arith)
        requires
            acc < mul,
            byte <= 1,
            mul == 0x8000_0000_0000_0000,
    ;
    Some((acc + mul * (byte as u64), pos + 10))
}

/// The eight bytes of `v`, least significant first.
pub open spec fn fixed64(v: u64) -> Seq<u8> {
    spec_u64_to_le_bytes(v)
}

/// The four bytes of `v`, least significant first.
pub open spec fn fixed32(v: u32) -> Seq<u8> {
    spec_u32_to_le_bytes(v)
}

/// The 64-bit integer in the first eight bytes of `b`.
pub open spec fn parse_fixed64(b: Seq<u8>) -> Option<u64> {
    if b.len() >= 8 {
        Some(spec_u64_from_le_bytes(b.subrange(0, 8)))
    } else {
        None
    }
}

/// The 32-bit integer in the first four bytes of `b`.
pub open spec fn parse_fixed32(b: Seq<u8>) -> Option<u32> {
    if b.len() >= 4 {
        Some(spec_u32_from_le_bytes(b.subrange(0, 4)))
    } else {
        None
    }
}

/// Reading back what `fixed64` wrote gives the value, whatever follows.
pub proof fn lemma_fixed64_round_trip(v: u64, rest: Seq<u8>)
    ensures
        fixed64(v).len() == 8,
        parse_fixed64(fixed64(v) + rest) == Some(v),
{
    lemma_auto_spec_u64_to_from_le_bytes();
    assert((fixed64(v) + rest).subrange(0, 8) =~= fixed64(v));
}

/// Reading back what `fixed32` wrote gives the value, whatever follows.
pub proof fn lemma_fixed32_round_trip(v: u32, rest: Seq<u8>)
    ensures
        fixed32(v).len() == 4,
        parse_fixed32(fixed32(v) + rest) == Some(v),
{
    lemma_auto_spec_u32_to_from_le_bytes();
    assert((fixed32(v) + rest).subrange(0, 4) =~= fixed32(v));
}

/// Appends the bytes of `src` to `out`.
pub fn write_bytes(out: &mut Vec<u8>, src: &[u8])
    ensures
        final(out)@ == old(out)@ + src@,
{
    let mut i: usize = 0;
    while i < src.len()
        invariant
            i <= src@.len(),
            src@.len() == src.len(),
            out@ == old(out)@ + src@.take(i as int),
        decreases src.len() - i,
    {
        let ghost before = out@;
        out.push(src[i]);
        assert(out@ =~= old(out)@ + src@.take(i + 1));
        i = i + 1;
    }
    assert(src@.take(i as int) =~= src@);
}

/// Appends the eight little-endian bytes of `v` to `out`.
pub fn write_fixed64(out: &mut Vec<u8>, v: u64)
    ensures
        final(out)@ == old(out)@ + fixed64(v),
{
    let le = u64_to_le_bytes(v);
    write_bytes(out, le.as_slice());
}

/// Appends the four little-endian bytes of `v` to `out`.
pub fn write_fixed32(out: &mut Vec<u8>, v: u32)
    ensures
        final(out)@ == old(out)@ + fixed32(v),
{
    let le = u32_to_le_bytes(v);
    write_bytes(out, le.as_slice());
}

/// Reads the eight bytes that start at `pos` as a little-endian integer.
pub fn read_fixed64(bytes: &[u8], pos: usize) -> (r: Option<(u64, usize)>)
    requires
        pos <= bytes@.len(),
    ensures
        match parse_fixed64(bytes@.skip(pos as int)) {
            Some(v) => r matches Some((value, next)) && value == v && next == pos + 8 && next
                <= bytes@.len(),
            None => r is None,
        },
{
    if bytes.len() - pos < 8 {
        return None;
    }
    let part = slice_subrange(bytes, pos, pos + 8);
    assert(part@ =~= bytes@.skip(pos as int).subrange(0, 8));
    Some((u64_from_le_bytes(part), pos + 8))
}

/// Reads the four bytes that start at `pos` as a little-endian integer.
pub fn read_fixed32(bytes: &[u8], pos: usize) -> (r: Option<(u32, usize)>)
    requires
        pos <= bytes@.len(),
    ensures
        match parse_fixed32(bytes@.skip(pos as int)) {
            Some(v) => r matches Some((value, next)) && value == v && next == pos + 4 && next
                <= bytes@.len(),
            None => r is None,
        },
{
    if bytes.len() - pos < 4 {
        return None;
    }
    let part = slice_subrange(bytes, pos, pos + 4);
    assert(part@ =~= bytes@.skip(pos as int).subrange(0, 4));
    Some((u32_from_le_bytes(part), pos + 4))
}

/// The zigzag code of a signed 32-bit integer: 0, -1, 1, -2, ... become
/// 0, 1, 2, 3, ...
pub open spec fn zigzag32(v: i32) -> u32 {
    if v >= 0 {
        (2 * v) as u32
    } else {
        (-2 * v - 1) as u32
    }
}

/// The signed integer that a zigzag code stands for.
pub open spec fn unzigzag32(u: u32) -> i32 {
    if u % 2 == 0 {
        (u / 2) as i32
    } else {
        (-(u / 2) - 1) as i32
    }
}

/// `unzigzag32` undoes `zigzag32`.
pub proof fn lemma_zigzag32_round_trip(v: i32)
    ensures
        unzigzag32(zigzag32(v)) == v,
{
}

/// The zigzag code of `v`.
pub fn zigzag32_encode(v: i32) -> (u: u32)
    ensures
        u == zigzag32(v),
{
    let wide: i64 = v as i64;
    if wide >= 0 {
        (2 * wide) as u32
    } else {
        let flipped: i64 = -(wide + 1);
        (2 * flipped + 1) as u32
    }
}

/// The signed integer that the zigzag code `u` stands for.
pub fn zigzag32_decode(u: u32) -> (v: i32)
    ensures
        v == unzigzag32(u),
{
    let half: i64 = (u / 2) as i64;
    if u % 2 == 0 {
        half as i32
    } else {
        (-(half + 1)) as i32
    }
}

/// The low 32 bits of a varint's value, as an unsigned field holds them.
pub open spec fn low32(v: u64) -> u32 {
    (v % 0x1_0000_0000) as u32
}

/// The low 32 bits of a varint's value as a two's complement integer, as an
/// `int32` or enumeration field holds them.
pub open spec fn low32_signed(v: u64) -> i32 {
    let low = v % 0x1_0000_0000;
    if low < 0x8000_0000 {
        low as i32
    } else {
        (low - 0x1_0000_0000) as i32
    }
}

/// The varint value that stands for a signed 64-bit integer: its two's
/// complement.
pub open spec fn unsigned64(v: i64) -> u64 {
    if v >= 0 {
        v as u64
    } else {
        (v + 0x1_0000_0000_0000_0000) as u64
    }
}

/// The signed 64-bit integer whose two's complement `u` is.
pub open spec fn signed64(u: u64) -> i64 {
    if u < 0x8000_0000_0000_0000 {
        u as i64
    } else {
        (u - 0x1_0000_0000_0000_0000) as i64
    }
}

/// The low 32 bits of `v`.
pub fn low32_of(v: u64) -> (r: u32)
    ensures
        r == low32(v),
{
    (v % 0x1_0000_0000) as u32
}

/// The low 32 bits of `v` as a two's complement integer.
pub fn low32_signed_of(v: u64) -> (r: i32)
    ensures
        r == low32_signed(v),
{
    let low: u64 = v % 0x1_0000_0000;
    if low < 0x8000_0000 {
        low as i32
    } else {
        (low as i64 - 0x1_0000_0000) as i32
    }
}

/// The two's complement of `v`.
pub fn unsigned64_of(v: i64) -> (r: u64)
    ensures
        r == unsigned64(v),
{
    if v >= 0 {
        v as u64
    } else {
        (v as i128 + 0x1_0000_0000_0000_0000) as u64
    }
}

/// The signed integer whose two's complement `u` is.
pub fn signed64_of(u: u64) -> (r: i64)
    ensures
        r == signed64(u),
{
    if u < 0x8000_0000_0000_0000 {
        u as i64
    } else {
        (u as i128 - 0x1_0000_0000_0000_0000) as i64
    }
}

} // verus!
