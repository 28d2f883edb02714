//! Little-endian integers as they lie in account data.

use vstd::prelude::*;

verus! {

/// The number that bytes stand for, least significant byte first.
pub open spec fn le_value(bytes: Seq<u8>) -> nat
    decreases bytes.len(),
{
    if bytes.len() == 0 {
        0
    } else {
        bytes[0] as nat + 256 * le_value(bytes.drop_first())
    }
}

/// The `width` bytes of `data` from position `at` on.
pub open spec fn field(data: Seq<u8>, at: int, width: int) -> Seq<u8> {
    data.subrange(at, at + width)
}

/// The value of a field of `width` bytes is its first byte plus 256 times the
/// value of the rest.
proof fn lemma_field_step(data: Seq<u8>, at: int, width: int)
    requires
        0 <= at,
        0 < width,
        at + width <= data.len(),
    ensures
        le_value(field(data, at, width)) == data[at] as nat + 256 * le_value(
            field(data, at + 1, width - 1),
        ),
{
    assert(field(data, at, width).drop_first() =~= field(data, at + 1, width - 1));
}

proof fn lemma_field_empty(data: Seq<u8>, at: int)
    requires
        0 <= at <= data.len(),
    ensures
        le_value(field(data, at, 0)) == 0,
{
}

/// The value of four bytes, written out.
proof fn lemma_field_4(data: Seq<u8>, at: int)
    requires
        0 <= at,
        at + 4 <= data.len(),
    ensures
        le_value(field(data, at, 4)) == data[at] as nat + 0x100 * (data[at + 1] as nat) + 0x1_0000
            * (data[at + 2] as nat) + 0x100_0000 * (data[at + 3] as nat),
{
    lemma_field_step(data, at, 4);
    lemma_field_step(data, at + 1, 3);
    lemma_field_step(data, at + 2, 2);
    lemma_field_step(data, at + 3, 1);
    lemma_field_empty(data, at + 4);
}

/// The value of eight bytes is that of the lower four plus 2^32 times that of
/// the upper four; likewise for sixteen bytes and 2^64.
proof fn lemma_field_split(data: Seq<u8>, at: int, low: int, high: int)
    requires
        0 <= at,
        0 <= low,
        0 <= high,
        at + low + high <= data.len(),
    ensures
        le_value(field(data, at, low + high)) == le_value(field(data, at, low)) + pow256(
            low as nat,
        ) * le_value(field(data, at + low, high)),
    decreases low,
{
    let rest = le_value(field(data, at + low, high));
    if low == 0 {
        assert(field(data, at, 0) =~= Seq::<u8>::empty());
        assert(pow256(0) == 1);
        assert(pow256(0) * rest == rest) by (nonlinear_arith)
            requires
                pow256(0) == 1,
        ;
    } else {
        lemma_field_step(data, at, low + high);
        lemma_field_step(data, at, low);
        lemma_field_split(data, at + 1, low - 1, high);
        let below = pow256((low - 1) as nat);
        assert(pow256(low as nat) == 256 * below);
        assert(256 * (below * rest) == pow256(low as nat) * rest) by (nonlinear_arith)
            requires
                pow256(low as nat) == 256 * below,
        ;
        assert(field(data, at + 1 + (low - 1), high) == field(data, at + low, high));
        assert(le_value(field(data, at + 1, low - 1 + high)) == le_value(
            field(data, at + 1, low - 1),
        ) + below * rest);
    }
}

/// 256 to the power of `n`.
pub open spec fn pow256(n: nat) -> nat
    decreases n,
{
    if n == 0 {
        1
    } else {
        256 * pow256((n - 1) as nat)
    }
}

proof fn lemma_pow256_4()
    ensures
        pow256(4) == 0x1_0000_0000,
        pow256(8) == 0x1_0000_0000_0000_0000,
{
    reveal_with_fuel(pow256, 9);
}

/// The 32-bit number at position `at`.
pub fn read_u32(data: &[u8], at: usize) -> (value: u32)
    requires
        at + 4 <= data@.len(),
    ensures
        value == le_value(field(data@, at as int, 4)),
{
    proof {
        lemma_field_4(data@, at as int);
    }
    // A length fits in `usize`, and with it every position up to it.
    let _len = data.len();
    let b0 = data[at] as u32;
    let b1 = data[at + 1] as u32;
    let b2 = data[at + 2] as u32;
    let b3 = data[at + 3] as u32;
    b0 + 0x100 * b1 + 0x1_0000 * b2 + 0x100_0000 * b3
}

/// The 64-bit number at position `at`.
pub fn read_u64(data: &[u8], at: usize) -> (value: u64)
    requires
        at + 8 <= data@.len(),
    ensures
        value == le_value(field(data@, at as int, 8)),
{
    proof {
        lemma_field_split(data@, at as int, 4, 4);
        lemma_pow256_4();
    }
    // A length fits in `usize`, and with it every position up to it.
    let _len = data.len();
    let low: u64 = read_u32(data, at) as u64;
    let high: u64 = read_u32(data, at + 4) as u64;
    assert(0x1_0000_0000 * high <= 0xffff_ffff_0000_0000) by (nonlinear_arith)
        requires
            high <= 0xffff_ffff,
    ;
    low + 0x1_0000_0000 * high
}

/// The 128-bit number at position `at`.
pub fn read_u128(data: &[u8], at: usize) -> (value: u128)
    requires
        at + 16 <= data@.len(),
    ensures
        value == le_value(field(data@, at as int, 16)),
{
    proof {
        lemma_field_split(data@, at as int, 8, 8);
        lemma_pow256_4();
    }
    // A length fits in `usize`, and with it every position up to it.
    let _len = data.len();
    let low: u128 = read_u64(data, at) as u128;
    let high: u128 = read_u64(data, at + 8) as u128;
    assert(0x1_0000_0000_0000_0000 * high <= 0xffff_ffff_ffff_ffff_0000_0000_0000_0000)
        by (nonlinear_arith)
        requires
            high <= 0xffff_ffff_ffff_ffff,
    ;
    low + 0x1_0000_0000_0000_0000 * high
}

} // verus!
