//! The byte format of what nodes exchange, which is that of bincode's standard
//! configuration: integers in a variable-length encoding with little-endian bytes, signed
//! integers through zigzag codes, and byte strings with their length in front.

use crate::primitives::pow256;
use vstd::prelude::*;
use vstd::slice::slice_subrange;

verus! {

/// The `width` little-endian bytes of `n`; what of `n` does not fit into them is cut off.
pub open spec fn le_bytes(n: nat, width: nat) -> Seq<u8>
    decreases width,
{
    if width == 0 {
        Seq::empty()
    } else {
        seq![(n % 256) as u8] + le_bytes(n / 256, (width - 1) as nat)
    }
}

/// The number that a byte string denotes when read as a little-endian integer.
pub open spec fn le_value(bytes: Seq<u8>) -> nat
    decreases bytes.len(),
{
    if bytes.len() == 0 {
        0
    } else {
        bytes[0] as nat + 256 * le_value(bytes.drop_first())
    }
}

/// `le_bytes` writes as many bytes as it is asked for.
pub proof fn lemma_le_bytes_len(n: nat, width: nat)
    ensures
        le_bytes(n, width).len() == width,
    decreases width,
{
    if width > 0 {
        lemma_le_bytes_len(n / 256, (width - 1) as nat);
    }
}

/// A little-endian byte string of length `k` denotes a number below `256^k`.
pub proof fn lemma_le_value_bound(bytes: Seq<u8>)
    ensures
        le_value(bytes) < pow256(bytes.len()),
    decreases bytes.len(),
{
    if bytes.len() > 0 {
        lemma_le_value_bound(bytes.drop_first());
    }
}

/// A number that fits into `width` bytes is read back from its little-endian bytes.
pub proof fn lemma_le_round_trip(n: nat, width: nat)
    requires
        n < pow256(width),
    ensures
        le_value(le_bytes(n, width)) == n,
    decreases width,
{
    if width > 0 {
        let bytes = le_bytes(n, width);
        let rest = le_bytes(n / 256, (width - 1) as nat);
        assert(bytes.drop_first() =~= rest);
        assert(n / 256 < pow256((width - 1) as nat));
        lemma_le_round_trip(n / 256, (width - 1) as nat);
    }
}

/// The powers of 256 at the widths of the integers on the wire.
pub proof fn lemma_pow256_widths()
    ensures
        pow256(0) == 1,
        pow256(1) == 0x100,
        pow256(2) == 0x1_0000,
        pow256(4) == 0x1_0000_0000,
        pow256(8) == 0x1_0000_0000_0000_0000,
{
    reveal_with_fuel(pow256, 5);
    assert(pow256(4) == 0x1_0000_0000);
    assert(pow256(8) == 256 * (256 * (256 * (256 * pow256(4)))));
}

/// A higher power of 256 is not smaller.
pub proof fn lemma_pow256_monotone(a: nat, b: nat)
    requires
        a <= b,
    ensures
        pow256(a) <= pow256(b),
        pow256(a) >= 1,
    decreases b,
{
    if a < b {
        lemma_pow256_monotone(a, (b - 1) as nat);
    } else if a > 0 {
        lemma_pow256_monotone((a - 1) as nat, (a - 1) as nat);
    }
}

/// An unsigned integer in the variable-length encoding: below 251 as one byte, else as a
/// marker byte and the little-endian bytes of the smallest of the widths 2, 4 and 8 that
/// holds it.
pub open spec fn varint(n: nat) -> Seq<u8> {
    if n < 251 {
        seq![n as u8]
    } else if n < 0x1_0000 {
        seq![251u8] + le_bytes(n, 2)
    } else if n < 0x1_0000_0000 {
        seq![252u8] + le_bytes(n, 4)
    } else {
        seq![253u8] + le_bytes(n, 8)
    }
}

/// The integer at the front of `bytes` with the number of bytes that it takes, as a reader
/// of the variable-length encoding finds it. Every width that is wide enough is accepted,
/// the smallest or not; the width 8 only where `wide` says that the integer read may have
/// 64 bits, else only up to 32.
pub open spec fn varint_parsed(bytes: Seq<u8>, wide: bool) -> Option<(nat, nat)> {
    if bytes.len() == 0 {
        None
    } else if bytes[0] <= 250 {
        Some((bytes[0] as nat, 1))
    } else if bytes[0] == 251 {
        if bytes.len() >= 3 {
            Some((le_value(bytes.subrange(1, 3)), 3))
        } else {
            None
        }
    } else if bytes[0] == 252 {
        if bytes.len() >= 5 {
            Some((le_value(bytes.subrange(1, 5)), 5))
        } else {
            None
        }
    } else if bytes[0] == 253 && wide {
        if bytes.len() >= 9 {
            Some((le_value(bytes.subrange(1, 9)), 9))
        } else {
            None
        }
    } else {
        None
    }
}

/// What a reader finds is below `2^32`, or `2^64` for a wide integer, and takes no more
/// bytes than there are.
pub proof fn lemma_varint_parsed_bound(bytes: Seq<u8>, wide: bool)
    ensures
        match varint_parsed(bytes, wide) {
            Some((n, used)) => {
                &&& 1 <= used <= bytes.len()
                &&& used <= 9
                &&& n < 0x1_0000_0000_0000_0000
                &&& !wide ==> n < 0x1_0000_0000
            },
            None => true,
        },
{
    lemma_pow256_widths();
    if bytes.len() >= 3 {
        lemma_le_value_bound(bytes.subrange(1, 3));
    }
    if bytes.len() >= 5 {
        lemma_le_value_bound(bytes.subrange(1, 5));
    }
    if bytes.len() >= 9 {
        lemma_le_value_bound(bytes.subrange(1, 9));
    }
}

/// An integer that was written is read back, whatever follows it.
pub proof fn lemma_varint_round_trip(n: nat, rest: Seq<u8>, wide: bool)
    requires
        n < 0x1_0000_0000 || (wide && n < 0x1_0000_0000_0000_0000),
    ensures
        varint_parsed(varint(n) + rest, wide) == Some((n, varint(n).len())),
{
    lemma_pow256_widths();
    let bytes = varint(n) + rest;
    if n < 251 {
    } else if n < 0x1_0000 {
        lemma_le_bytes_len(n, 2);
        lemma_le_round_trip(n, 2);
        assert(bytes.subrange(1, 3) =~= le_bytes(n, 2));
    } else if n < 0x1_0000_0000 {
        lemma_le_bytes_len(n, 4);
        lemma_le_round_trip(n, 4);
        assert(bytes.subrange(1, 5) =~= le_bytes(n, 4));
    } else {
        lemma_le_bytes_len(n, 8);
        lemma_le_round_trip(n, 8);
        assert(bytes.subrange(1, 9) =~= le_bytes(n, 8));
    }
}

/// The unsigned integer that stands for a signed one: the non-negative ones become the
/// even numbers, the negative ones the odd numbers.
pub open spec fn zigzag(v: i32) -> nat {
    if v >= 0 {
        (2 * v) as nat
    } else {
        (-2 * v - 1) as nat
    }
}

/// The signed integer that an unsigned one stands for.
pub open spec fn unzigzag(n: nat) -> int {
    if n % 2 == 0 {
        (n / 2) as int
    } else {
        -(n / 2) - 1
    }
}

/// A byte string with its length in front.
pub open spec fn length_prefixed(bytes: Seq<u8>) -> Seq<u8> {
    varint(bytes.len()) + bytes
}

/// The byte string at the front of `input` with the number of bytes that it takes with its
/// length, as a reader finds it; `None` where the length cannot be read or promises more
/// bytes than follow.
pub open spec fn bytes_parsed(input: Seq<u8>) -> Option<(Seq<u8>, nat)> {
    match varint_parsed(input, true) {
        None => None,
        Some((n, used)) => if used + n <= input.len() {
            Some((input.subrange(used as int, (used + n) as int), used + n))
        } else {
            None
        },
    }
}

/// A byte string that was written with its length is read back, whatever follows it.
pub proof fn lemma_bytes_round_trip(bytes: Seq<u8>, rest: Seq<u8>)
    requires
        bytes.len() < 0x1_0000_0000_0000_0000,
    ensures
        bytes_parsed(length_prefixed(bytes) + rest) == Some(
            (bytes, length_prefixed(bytes).len()),
        ),
{
    let head = varint(bytes.len());
    let input = length_prefixed(bytes) + rest;
    assert(input =~= head + (bytes + rest));
    lemma_varint_round_trip(bytes.len(), bytes + rest, true);
    assert(input.subrange(head.len() as int, (head.len() + bytes.len()) as int) =~= bytes);
}

/// Appends the bytes of `part` to `out`.
pub fn append(out: &mut Vec<u8>, part: &[u8])
    ensures
        final(out)@ == old(out)@ + part@,
{
    let mut i: usize = 0;
    while i < part.len()
        invariant
            0 <= i <= part.len(),
            out@ == old(out)@ + part@.take(i as int),
        decreases part.len() - i,
    {
        out.push(part[i]);
        assert(part@.take(i + 1) =~= part@.take(i as int).push(part@[i as int]));
        i += 1;
    }
    assert(part@.take(part.len() as int) =~= part@);
}

/// Appends the `width` little-endian bytes of `n` to `out`.
fn write_le(out: &mut Vec<u8>, n: u64, width: usize)
    ensures
        final(out)@ == old(out)@ + le_bytes(n as nat, width as nat),
{
    let mut rest: u64 = n;
    let mut i: usize = 0;
    while i < width
        invariant
            0 <= i <= width,
            old(out)@ + le_bytes(n as nat, width as nat) == out@ + le_bytes(
                rest as nat,
                (width - i) as nat,
            ),
        decreases width - i,
    {
        proof {
            let tail = le_bytes((rest / 256) as nat, (width - i - 1) as nat);
            assert(out@ + le_bytes(rest as nat, (width - i) as nat) =~= out@.push(
                (rest % 256) as u8,
            ) + tail);
        }
        out.push((rest % 256) as u8);
        rest = rest / 256;
        i += 1;
    }
    assert(out@ + le_bytes(rest as nat, 0) =~= out@);
}

/// Reads the little-endian integer of `width` bytes that starts at `start`.
fn read_le(bytes: &[u8], start: usize, width: usize) -> (n: u64)
    requires
        width <= 8,
        start + width <= bytes@.len(),
    ensures
        n == le_value(bytes@.subrange(start as int, start + width)),
{
    let total = bytes.len();
    let mut value: u64 = 0;
    let mut i: usize = width;
    while i > 0
        invariant
            0 <= i <= width <= 8,
            start + width <= total,
            total == bytes@.len(),
            value == le_value(bytes@.subrange(start + i, start + width)),
        decreases i,
    {
        proof {
            let longer = bytes@.subrange(start + i - 1, start + width);
            assert(longer.drop_first() =~= bytes@.subrange(start + i, start + width));
            assert(longer[0] == bytes@[start + i - 1]);
            lemma_le_value_bound(longer);
            lemma_pow256_monotone(longer.len(), 8);
            lemma_pow256_widths();
        }
        i -= 1;
        value = value * 256 + bytes[start + i] as u64;
    }
    value
}

/// Appends `n` in the variable-length encoding to `out`.
pub fn write_varint(out: &mut Vec<u8>, n: u64)
    ensures
        final(out)@ == old(out)@ + varint(n as nat),
{
    if n < 251 {
        out.push(n as u8);
        assert(out@ =~= old(out)@ + varint(n as nat));
    } else if n < 0x1_0000 {
        out.push(251);
        write_le(out, n, 2);
        assert(out@ =~= old(out)@ + varint(n as nat));
    } else if n < 0x1_0000_0000 {
        out.push(252);
        write_le(out, n, 4);
        assert(out@ =~= old(out)@ + varint(n as nat));
    } else {
        out.push(253);
        write_le(out, n, 8);
        assert(out@ =~= old(out)@ + varint(n as nat));
    }
}

/// Reads the integer at the front of `bytes`, and says how many bytes it takes.
pub fn read_varint(bytes: &[u8], wide: bool) -> (res: Option<(u64, usize)>)
    ensures
        match res {
            Some((n, used)) => varint_parsed(bytes@, wide) == Some((n as nat, used as nat)),
            None => varint_parsed(bytes@, wide).is_none(),
        },
{
    if bytes.len() == 0 {
        return None;
    }
    let marker = bytes[0];
    if marker <= 250 {
        Some((marker as u64, 1))
    } else if marker == 251 {
        if bytes.len() >= 3 {
            Some((read_le(bytes, 1, 2), 3))
        } else {
            None
        }
    } else if marker == 252 {
        if bytes.len() >= 5 {
            Some((read_le(bytes, 1, 4), 5))
        } else {
            None
        }
    } else if marker == 253 && wide {
        if bytes.len() >= 9 {
            Some((read_le(bytes, 1, 8), 9))
        } else {
            None
        }
    } else {
        None
    }
}

/// Appends a signed integer to `out`: its zigzag code in the variable-length encoding.
pub fn write_i32(out: &mut Vec<u8>, v: i32)
    ensures
        final(out)@ == old(out)@ + varint(zigzag(v)),
{
    let wide: i64 = v as i64;
    let code: i64 = if wide >= 0 {
        2 * wide
    } else {
        0 - 2 * wide - 1
    };
    write_varint(out, code as u64);
}

/// The signed integer at the front of `bytes` with the number of bytes that it takes.
pub open spec fn i32_parsed(bytes: Seq<u8>) -> Option<(i32, nat)> {
    match varint_parsed(bytes, false) {
        Some((n, used)) => Some((unzigzag(n) as i32, used)),
        None => None,
    }
}

/// Reads the signed integer at the front of `bytes`, and says how many bytes it takes.
pub fn read_i32(bytes: &[u8]) -> (res: Option<(i32, usize)>)
    ensures
        res == match i32_parsed(bytes@) {
            Some((v, used)) => Some((v, used as usize)),
            None => None,
        },
        res.is_some() ==> 1 <= res.unwrap().1 <= bytes@.len(),
{
    proof {
        lemma_varint_parsed_bound(bytes@, false);
    }
    match read_varint(bytes, false) {
        Some((n, used)) => {
            let v: i64 = if n % 2 == 0 {
                (n / 2) as i64
            } else {
                -((n / 2) as i64) - 1
            };
            Some((v as i32, used))
        },
        None => None,
    }
}

/// A signed integer that was written is read back, whatever follows it.
pub proof fn lemma_i32_round_trip(v: i32, rest: Seq<u8>)
    ensures
        i32_parsed(varint(zigzag(v)) + rest) == Some((v, varint(zigzag(v)).len())),
{
    lemma_varint_round_trip(zigzag(v), rest, false);
}

/// Appends a byte string with its length in front to `out`.
pub fn write_bytes(out: &mut Vec<u8>, bytes: &[u8])
    ensures
        final(out)@ == old(out)@ + length_prefixed(bytes@),
{
    write_varint(out, bytes.len() as u64);
    append(out, bytes);
    assert(out@ =~= old(out)@ + length_prefixed(bytes@));
}

/// Reads the byte string at the front of `input`, and says how many bytes it takes with
/// its length.
pub fn read_bytes(input: &[u8]) -> (res: Option<(&[u8], usize)>)
    ensures
        match res {
            Some((bytes, used)) => bytes_parsed(input@) == Some((bytes@, used as nat)),
            None => bytes_parsed(input@).is_none(),
        },
        res.is_some() ==> 1 <= res.unwrap().1 <= input@.len(),
{
    proof {
        lemma_varint_parsed_bound(input@, true);
    }
    match read_varint(input, true) {
        None => None,
        Some((n, used)) => {
            if n <= (input.len() - used) as u64 {
                let end = used + n as usize;
                Some((slice_subrange(input, used, end), end))
            } else {
                None
            }
        },
    }
}

} // verus!
