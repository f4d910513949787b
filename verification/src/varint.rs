//! Variable-length encoding of 32-bit integers: seven value bits per byte,
//! least-significant group first, high bit of a byte set when more bytes follow.

use vstd::prelude::*;

verus! {

/// The canonical encoding of `n`: at most five bytes, the last one below 0x80.
pub open spec fn varint(n: u32) -> Seq<u8>
    decreases n,
{
    if n < 0x80 {
        seq![n as u8]
    } else {
        seq![((n % 0x80) + 0x80) as u8] + varint(n / 0x80)
    }
}

/// Result of parsing a varint from the front of a byte sequence.
pub enum VarintStep {
    /// The bytes run out before the final (high-bit-clear) byte.
    Incomplete,
    /// More than five bytes carry the continuation bit: not a 32-bit varint.
    TooLong,
    /// A complete varint: its (untruncated) value and the bytes it occupies.
    Done { value: nat, consumed: int },
}

/// Parse a varint from the front of `s`, allowing at most `limit` bytes.
pub open spec fn take_varint_limited(s: Seq<u8>, limit: nat) -> VarintStep
    decreases limit,
{
    if limit == 0 {
        VarintStep::TooLong
    } else if s.len() == 0 {
        VarintStep::Incomplete
    } else if s[0] < 0x80 {
        VarintStep::Done { value: s[0] as nat, consumed: 1 }
    } else {
        match take_varint_limited(s.skip(1), (limit - 1) as nat) {
            VarintStep::Done { value, consumed } => VarintStep::Done {
                value: (s[0] - 0x80) as nat + 0x80 * value,
                consumed: consumed + 1,
            },
            step => step,
        }
    }
}

/// Parse a 32-bit varint (at most five bytes) from the front of `s`.
pub open spec fn take_varint(s: Seq<u8>) -> VarintStep {
    take_varint_limited(s, 5)
}

/// The low 32 bits of a parsed value.
pub open spec fn trunc32(v: nat) -> u32 {
    (v % 0x1_0000_0000) as u32
}

/// A parsed varint occupies at least one byte and no more than the input.
pub proof fn lemma_take_varint_limited_bounds(s: Seq<u8>, limit: nat)
    ensures
        take_varint_limited(s, limit) matches VarintStep::Done { consumed, .. } ==> 1 <= consumed
            <= s.len(),
    decreases limit,
{
    if limit > 0 && s.len() > 0 && s[0] >= 0x80 {
        lemma_take_varint_limited_bounds(s.skip(1), (limit - 1) as nat);
    }
}

/// A parsed varint occupies at least one byte and no more than the input.
pub proof fn lemma_take_varint_bounds(s: Seq<u8>)
    ensures
        take_varint(s) matches VarintStep::Done { consumed, .. } ==> 1 <= consumed <= s.len(),
{
    lemma_take_varint_limited_bounds(s, 5);
}

/// The canonical encoding uses between one and five bytes.
pub proof fn lemma_varint_len(n: u32)
    ensures
        1 <= varint(n).len() <= 5,
{
    reveal_with_fuel(varint, 6);
    if n >= 0x80 {
        let n1 = n / 0x80;
        let n2 = n1 / 0x80;
        let n3 = n2 / 0x80;
        let n4 = n3 / 0x80;
        assert(n1 < 0x2000000) by (nonlinear_arith)
            requires n < 0x100000000u64 && n1 == n / 0x80;
        assert(n2 < 0x40000) by (nonlinear_arith)
            requires n1 < 0x2000000 && n2 == n1 / 0x80;
        assert(n3 < 0x800) by (nonlinear_arith)
            requires n2 < 0x40000 && n3 == n2 / 0x80;
        assert(n4 < 0x10) by (nonlinear_arith)
            requires n3 < 0x800 && n4 == n3 / 0x80;
        if n1 < 0x80 {
            assert(varint(n).len() == 2);
        } else if n2 < 0x80 {
            assert(varint(n).len() == 3);
        } else if n3 < 0x80 {
            assert(varint(n).len() == 4);
        } else {
            assert(varint(n).len() == 5);
        }
    }
}

proof fn lemma_take_varint_limited_roundtrip(n: u32, rest: Seq<u8>, limit: nat)
    requires
        varint(n).len() <= limit,
    ensures
        take_varint_limited(varint(n) + rest, limit) == (VarintStep::Done {
            value: n as nat,
            consumed: varint(n).len() as int,
        }),
    decreases n,
{
    let s = varint(n) + rest;
    if n < 0x80 {
        assert(s[0] == n as u8);
    } else {
        let tail = n / 0x80;
        assert(s[0] == ((n % 0x80) + 0x80) as u8);
        assert(s.skip(1) =~= varint(tail) + rest);
        lemma_take_varint_limited_roundtrip(tail, rest, (limit - 1) as nat);
        assert(n as nat == (n % 0x80) as nat + 0x80 * (tail as nat)) by (nonlinear_arith)
            requires tail == n / 0x80;
    }
}

/// Decoding the canonical encoding of `n`, whatever follows it, yields `n`
/// and consumes exactly the encoding.
pub proof fn lemma_varint_roundtrip(n: u32, rest: Seq<u8>)
    ensures
        take_varint(varint(n) + rest) == (VarintStep::Done {
            value: n as nat,
            consumed: varint(n).len() as int,
        }),
{
    lemma_varint_len(n);
    lemma_take_varint_limited_roundtrip(n, rest, 5);
}

/// Append the canonical encoding of `n` to `out`.
pub fn write_varint(out: &mut Vec<u8>, n: u32)
    ensures
        final(out)@ == old(out)@ + varint(n),
    decreases n,
{
    if n < 0x80 {
        out.push(n as u8);
        assert(out@ =~= old(out)@ + varint(n));
    } else {
        out.push(((n % 0x80) + 0x80) as u8);
        write_varint(out, n / 0x80);
        assert(out@ =~= old(out)@ + varint(n));
    }
}

/// Result of reading a varint from a buffer.
pub enum VarintRead {
    /// The buffer ends before the final byte.
    Incomplete,
    /// More than five bytes carry the continuation bit.
    TooLong,
    /// A complete varint: its value truncated to 32 bits, and its byte count.
    Value { value: u32, consumed: usize },
}

/// 0x80 raised to `i`.
pub open spec fn pow128(i: nat) -> nat
    decreases i,
{
    if i == 0 {
        1
    } else {
        0x80 * pow128((i - 1) as nat)
    }
}

proof fn lemma_pow128_le(i: nat)
    requires
        i <= 4,
    ensures
        pow128(i) <= 0x80 * 0x80 * 0x80 * 0x80,
{
    reveal_with_fuel(pow128, 5);
    if i == 0 {
    } else if i == 1 {
    } else if i == 2 {
    } else if i == 3 {
    } else {
        assert(i == 4);
    }
}

/// How the parse at offset `i` relates the whole parse to the accumulator
/// gathered from the first `i` continuation bytes.
spec fn parse_extends(orig: Seq<u8>, i: int, acc: nat, mult: nat) -> bool {
    match take_varint_limited(orig.skip(i), (5 - i) as nat) {
        VarintStep::Done { value, consumed } => take_varint(orig) == (VarintStep::Done {
            value: acc + mult * value,
            consumed: consumed + i,
        }),
        VarintStep::Incomplete => take_varint(orig) is Incomplete,
        VarintStep::TooLong => take_varint(orig) is TooLong,
    }
}

/// Read a varint from `buf` starting at `start`, exactly as [`take_varint`]
/// describes on the corresponding suffix.
pub fn read_varint(buf: &Vec<u8>, start: usize) -> (r: VarintRead)
    requires
        start <= buf@.len(),
    ensures
        match take_varint(buf@.skip(start as int)) {
            VarintStep::Incomplete => r is Incomplete,
            VarintStep::TooLong => r is TooLong,
            VarintStep::Done { value, consumed } => r matches VarintRead::Value {
                value: rv,
                consumed: rc,
            } && rv == trunc32(value) && rc == consumed,
        },
{
    let ghost orig: Seq<u8> = buf@.skip(start as int);
    proof {
        assert(orig.skip(0) =~= orig);
    }
    let mut acc: u64 = 0;
    let mut mult: u64 = 1;
    let mut i: usize = 0;
    loop
        invariant
            start <= buf@.len(),
            i <= 5,
            i <= orig.len(),
            orig == buf@.skip(start as int),
            mult == pow128(i as nat),
            acc < mult,
            parse_extends(orig, i as int, acc as nat, mult as nat),
        decreases 5 - i,
    {
        if i == 5 {
            assert(take_varint_limited(orig.skip(i as int), 0) is TooLong);
            return VarintRead::TooLong;
        }
        if buf.len() - start <= i {
            assert(orig.skip(i as int).len() == 0);
            return VarintRead::Incomplete;
        }
        proof {
            lemma_pow128_le(i as nat);
        }
        let b = buf[start + i];
        assert(b == orig.skip(i as int)[0]);
        let low = (b % 0x80) as u64;
        assert(mult * low < mult * 0x80) by (nonlinear_arith)
            requires low < 0x80 && mult >= 1;
        assert(mult * 0x80 <= 0x80 * 0x80 * 0x80 * 0x80 * 0x80) by (nonlinear_arith)
            requires mult <= 0x80 * 0x80 * 0x80 * 0x80;
        let acc2 = acc + mult * low;
        assert(acc2 < mult * 0x80) by (nonlinear_arith)
            requires acc < mult && low < 0x80 && acc2 == acc + mult * low;
        if b < 0x80 {
            assert(take_varint_limited(orig.skip(i as int), (5 - i) as nat) == (VarintStep::Done {
                value: b as nat,
                consumed: 1int,
            }));
            let value = (acc2 % 0x1_0000_0000) as u32;
            return VarintRead::Value { value, consumed: i + 1 };
        }
        proof {
            assert(orig.skip(i as int).skip(1) =~= orig.skip(i as int + 1));
            let step2 = take_varint_limited(orig.skip(i as int + 1), (5 - (i + 1)) as nat);
            match step2 {
                VarintStep::Done { value: v2, consumed: c2 } => {
                    assert(take_varint_limited(orig.skip(i as int), (5 - i) as nat)
                        == (VarintStep::Done {
                        value: (b - 0x80) as nat + 0x80 * v2,
                        consumed: c2 + 1,
                    }));
                    assert(acc as nat + mult as nat * ((b - 0x80) as nat + 0x80 * v2)
                        == acc2 as nat + (mult as nat * 0x80) * v2) by (nonlinear_arith)
                        requires
                            acc2 == acc + mult * ((b % 0x80) as u64),
                            b >= 0x80,
                    ;
                },
                _ => {},
            }
        }
        acc = acc2;
        mult = mult * 0x80;
        i = i + 1;
    }
}

} // verus!
