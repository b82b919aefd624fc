//! Wire primitives: big-endian integers on byte sequences.
//!
//! `be_bytes` and `from_be` are the specification-level encoders and
//! decoders; the executable readers and writers are proved to match them
//! exactly, and the lemmas at the end show the two are mutually inverse.

use vstd::prelude::*;

use crate::types::IpfixError;

verus! {

/// 256 to the power `n`: the number of values a big-endian `n`-byte field
/// can carry.
pub open spec fn pow256(n: nat) -> nat
    decreases n,
{
    if n == 0 {
        1
    } else {
        256 * pow256((n - 1) as nat)
    }
}

/// The `n` big-endian bytes of `x` (most significant byte first).
pub open spec fn be_bytes(x: nat, n: nat) -> Seq<u8>
    decreases n,
{
    if n == 0 {
        Seq::empty()
    } else {
        be_bytes(x / 256, (n - 1) as nat) + seq![(x % 256) as u8]
    }
}

/// The value of a big-endian byte sequence.
pub open spec fn from_be(s: Seq<u8>) -> nat
    decreases s.len(),
{
    if s.len() == 0 {
        0
    } else {
        from_be(s.drop_last()) * 256 + (s.last() as nat)
    }
}

/// `n` zero bytes, as written for set padding.
pub open spec fn zero_bytes(n: nat) -> Seq<u8> {
    Seq::new(n, |i: int| 0u8)
}

pub proof fn lemma_be_bytes_len(x: nat, n: nat)
    ensures
        be_bytes(x, n).len() == n,
    decreases n,
{
    if n > 0 {
        lemma_be_bytes_len(x / 256, (n - 1) as nat);
    }
}

/// Decoding the encoding of any value that fits gives the value back.
pub proof fn lemma_from_be_of_be_bytes(x: nat, n: nat)
    requires
        x < pow256(n),
    ensures
        from_be(be_bytes(x, n)) == x,
    decreases n,
{
    if n == 0 {
    } else {
        let hi = be_bytes(x / 256, (n - 1) as nat);
        lemma_be_bytes_len(x / 256, (n - 1) as nat);
        assert((hi + seq![(x % 256) as u8]).drop_last() =~= hi);
        assert(x / 256 < pow256((n - 1) as nat)) by {
            vstd::arithmetic::div_mod::lemma_div_is_ordered_by_denominator(x as int, 1, 256);
            vstd::arithmetic::div_mod::lemma_div_by_multiple_is_strongly_ordered(
                x as int,
                pow256(n) as int,
                pow256((n - 1) as nat) as int,
                256,
            );
        }
        lemma_from_be_of_be_bytes(x / 256, (n - 1) as nat);
        vstd::arithmetic::div_mod::lemma_fundamental_div_mod(x as int, 256);
    }
}

/// Encoding the value of any byte sequence gives the sequence back.
pub proof fn lemma_be_bytes_of_from_be(s: Seq<u8>)
    ensures
        be_bytes(from_be(s), s.len()) == s,
    decreases s.len(),
{
    if s.len() == 0 {
        assert(be_bytes(from_be(s), s.len()) =~= s);
    } else {
        let v = from_be(s) as int;
        let hi = from_be(s.drop_last()) as int;
        let lo = s.last() as int;
        assert(v == hi * 256 + lo);
        assert(v / 256 == hi && v % 256 == lo) by {
            vstd::arithmetic::div_mod::lemma_fundamental_div_mod_converse(v, 256, hi, lo);
        }
        lemma_be_bytes_of_from_be(s.drop_last());
        assert(be_bytes(from_be(s), s.len()) =~= s);
    }
}

/// The value of a byte sequence fits its width.
pub proof fn lemma_from_be_bound(s: Seq<u8>)
    ensures
        from_be(s) < pow256(s.len() as nat),
    decreases s.len(),
{
    if s.len() > 0 {
        lemma_from_be_bound(s.drop_last());
        let hi = from_be(s.drop_last());
        let w = pow256((s.len() - 1) as nat);
        assert(hi * 256 <= (w - 1) * 256) by (nonlinear_arith)
            requires hi <= w - 1, w >= 1;
    }
}

/// Concrete widths of the small powers used throughout the codec.
pub proof fn lemma_pow256_values()
    ensures
        pow256(0) == 1,
        pow256(1) == 0x100,
        pow256(2) == 0x10000,
        pow256(3) == 0x1000000,
        pow256(4) == 0x100000000,
        pow256(8) == 0x10000000000000000,
{
    reveal_with_fuel(pow256, 9);
}

// ---------------------------------------------------------------------------
// Specification-level reads
// ---------------------------------------------------------------------------

/// Read `n` big-endian bytes at `pos`, bounded by `end`.
pub open spec fn spec_read_be(b: Seq<u8>, pos: int, end: int, n: int) -> Result<
    (nat, int),
    IpfixError,
> {
    if pos + n <= end {
        Ok((from_be(b.subrange(pos, pos + n)), pos + n))
    } else {
        Err(IpfixError::UnexpectedEof { pos: pos as usize })
    }
}

pub open spec fn spec_read_u8(b: Seq<u8>, pos: int, end: int) -> Result<(u8, int), IpfixError> {
    match spec_read_be(b, pos, end, 1) {
        Ok((v, p)) => Ok((v as u8, p)),
        Err(e) => Err(e),
    }
}

pub open spec fn spec_read_u16(b: Seq<u8>, pos: int, end: int) -> Result<(u16, int), IpfixError> {
    match spec_read_be(b, pos, end, 2) {
        Ok((v, p)) => Ok((v as u16, p)),
        Err(e) => Err(e),
    }
}

pub open spec fn spec_read_u32(b: Seq<u8>, pos: int, end: int) -> Result<(u32, int), IpfixError> {
    match spec_read_be(b, pos, end, 4) {
        Ok((v, p)) => Ok((v as u32, p)),
        Err(e) => Err(e),
    }
}

pub open spec fn spec_read_u64(b: Seq<u8>, pos: int, end: int) -> Result<(u64, int), IpfixError> {
    match spec_read_be(b, pos, end, 8) {
        Ok((v, p)) => Ok((v as u64, p)),
        Err(e) => Err(e),
    }
}

// ---------------------------------------------------------------------------
// Executable reads
// ---------------------------------------------------------------------------

/// Read one byte.
pub fn read_u8(b: &[u8], pos: usize, end: usize) -> (r: Result<(u8, usize), IpfixError>)
    requires
        pos <= end,
        end <= b@.len(),
    ensures
        match r {
            Ok((v, p)) => spec_read_u8(b@, pos as int, end as int) == Ok::<_, IpfixError>(
                (v, p as int),
            ),
            Err(e) => spec_read_u8(b@, pos as int, end as int) == Err::<(u8, int), _>(e),
        },
{
    if end - pos >= 1 {
        let v: u8 = b[pos];
        proof {
            reveal_with_fuel(from_be, 3);
            let s = b@.subrange(pos as int, pos + 1);
            assert(s.drop_last() =~= Seq::<u8>::empty());
            assert(from_be(s) == v);
        }
        Ok((v, pos + 1))
    } else {
        Err(IpfixError::UnexpectedEof { pos })
    }
}

/// Read a big-endian `u16`.
pub fn read_u16(b: &[u8], pos: usize, end: usize) -> (r: Result<(u16, usize), IpfixError>)
    requires
        pos <= end,
        end <= b@.len(),
    ensures
        match r {
            Ok((v, p)) => spec_read_u16(b@, pos as int, end as int) == Ok::<_, IpfixError>(
                (v, p as int),
            ),
            Err(e) => spec_read_u16(b@, pos as int, end as int) == Err::<(u16, int), _>(e),
        },
{
    if end - pos >= 2 {
        let v: u16 = (b[pos] as u16) * 256 + (b[pos + 1] as u16);
        proof {
            reveal_with_fuel(from_be, 4);
            let s = b@.subrange(pos as int, pos + 2);
            assert(s.drop_last() =~= b@.subrange(pos as int, pos + 1));
            assert(b@.subrange(pos as int, pos + 1).drop_last() =~= Seq::<u8>::empty());
            assert(from_be(s) == v);
        }
        Ok((v, pos + 2))
    } else {
        Err(IpfixError::UnexpectedEof { pos })
    }
}

/// Read a big-endian `u32`.
pub fn read_u32(b: &[u8], pos: usize, end: usize) -> (r: Result<(u32, usize), IpfixError>)
    requires
        pos <= end,
        end <= b@.len(),
    ensures
        match r {
            Ok((v, p)) => spec_read_u32(b@, pos as int, end as int) == Ok::<_, IpfixError>(
                (v, p as int),
            ),
            Err(e) => spec_read_u32(b@, pos as int, end as int) == Err::<(u32, int), _>(e),
        },
{
    if end - pos >= 4 {
        let mut v: u32 = 0;
        let mut i: usize = 0;
        while i < 4
            invariant
                i <= 4,
                pos + 4 <= end <= b@.len(),
                v == from_be(b@.subrange(pos as int, pos + i)),
                v < pow256(i as nat),
            decreases 4 - i,
        {
            proof {
                lemma_pow256_values();
                reveal_with_fuel(pow256, 9);
                assert(b@.subrange(pos as int, pos + i + 1).drop_last() =~= b@.subrange(
                    pos as int,
                    pos + i,
                ));
            }
            v = v * 256 + (b[pos + i] as u32);
            i = i + 1;
        }
        proof {
            lemma_pow256_values();
        }
        Ok((v, pos + 4))
    } else {
        Err(IpfixError::UnexpectedEof { pos })
    }
}

/// Read a big-endian `u64`.
pub fn read_u64(b: &[u8], pos: usize, end: usize) -> (r: Result<(u64, usize), IpfixError>)
    requires
        pos <= end,
        end <= b@.len(),
    ensures
        match r {
            Ok((v, p)) => spec_read_u64(b@, pos as int, end as int) == Ok::<_, IpfixError>(
                (v, p as int),
            ),
            Err(e) => spec_read_u64(b@, pos as int, end as int) == Err::<(u64, int), _>(e),
        },
{
    if end - pos >= 8 {
        let mut v: u64 = 0;
        let mut i: usize = 0;
        while i < 8
            invariant
                i <= 8,
                pos + 8 <= end <= b@.len(),
                v == from_be(b@.subrange(pos as int, pos + i)),
                v < pow256(i as nat),
            decreases 8 - i,
        {
            proof {
                lemma_pow256_values();
                reveal_with_fuel(pow256, 9);
                assert(b@.subrange(pos as int, pos + i + 1).drop_last() =~= b@.subrange(
                    pos as int,
                    pos + i,
                ));
            }
            v = v * 256 + (b[pos + i] as u64);
            i = i + 1;
        }
        proof {
            lemma_pow256_values();
        }
        Ok((v, pos + 8))
    } else {
        Err(IpfixError::UnexpectedEof { pos })
    }
}

// ---------------------------------------------------------------------------
// Executable writes
// ---------------------------------------------------------------------------

/// Append the two big-endian bytes of `x`.
pub fn push_u16(out: &mut Vec<u8>, x: u16)
    ensures
        final(out)@ == old(out)@ + be_bytes(x as nat, 2),
{
    let hi: u8 = (x / 256) as u8;
    let lo: u8 = (x % 256) as u8;
    out.push(hi);
    out.push(lo);
    proof {
        reveal_with_fuel(be_bytes, 4);
        assert(x / 256 < 256);
        assert(be_bytes(x as nat, 2) =~= seq![hi, lo]);
        assert(final(out)@ =~= old(out)@ + be_bytes(x as nat, 2));
    }
}

/// Append the four big-endian bytes of `x`.
pub fn push_u32(out: &mut Vec<u8>, x: u32)
    ensures
        final(out)@ == old(out)@ + be_bytes(x as nat, 4),
{
    let b3: u8 = (x % 256) as u8;
    let x1: u32 = x / 256;
    let b2: u8 = (x1 % 256) as u8;
    let x2: u32 = x1 / 256;
    let b1: u8 = (x2 % 256) as u8;
    let x3: u32 = x2 / 256;
    let b0: u8 = (x3 % 256) as u8;
    out.push(b0);
    out.push(b1);
    out.push(b2);
    out.push(b3);
    proof {
        reveal_with_fuel(be_bytes, 6);
        assert(x3 < 256);
        assert(be_bytes(x as nat, 4) =~= seq![b0, b1, b2, b3]);
        assert(final(out)@ =~= old(out)@ + be_bytes(x as nat, 4));
    }
}

/// Append the eight big-endian bytes of `x`.
pub fn push_u64(out: &mut Vec<u8>, x: u64)
    ensures
        final(out)@ == old(out)@ + be_bytes(x as nat, 8),
{
    let b7: u8 = (x % 256) as u8;
    let x1: u64 = x / 256;
    let b6: u8 = (x1 % 256) as u8;
    let x2: u64 = x1 / 256;
    let b5: u8 = (x2 % 256) as u8;
    let x3: u64 = x2 / 256;
    let b4: u8 = (x3 % 256) as u8;
    let x4: u64 = x3 / 256;
    let b3: u8 = (x4 % 256) as u8;
    let x5: u64 = x4 / 256;
    let b2: u8 = (x5 % 256) as u8;
    let x6: u64 = x5 / 256;
    let b1: u8 = (x6 % 256) as u8;
    let x7: u64 = x6 / 256;
    let b0: u8 = (x7 % 256) as u8;
    out.push(b0);
    out.push(b1);
    out.push(b2);
    out.push(b3);
    out.push(b4);
    out.push(b5);
    out.push(b6);
    out.push(b7);
    proof {
        reveal_with_fuel(be_bytes, 10);
        assert(x7 < 256);
        assert(be_bytes(x as nat, 8) =~= seq![b0, b1, b2, b3, b4, b5, b6, b7]);
        assert(final(out)@ =~= old(out)@ + be_bytes(x as nat, 8));
    }
}

} // verus!
