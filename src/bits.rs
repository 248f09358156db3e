//! Bit-field extraction and two's-complement sign extension on 32-bit words.

use vstd::arithmetic::div_mod::{lemma_fundamental_div_mod, lemma_mod_bound, lemma_small_mod};
use vstd::arithmetic::power2::{lemma2_to64, lemma_pow2_pos, lemma_pow2_unfold, pow2};
use vstd::bits::{
    lemma_u32_low_bits_mask_is_mod, lemma_u32_shr_is_div, lemma_u64_pow2_no_overflow,
    lemma_u64_shl_is_mul, low_bits_mask,
};
use vstd::prelude::*;

verus! {

/// The unsigned value of bits `lo..=hi` of `word` (bit 0 is the least significant).
pub open spec fn field(word: i32, hi: nat, lo: nat) -> nat {
    ((word as u32) as nat / pow2(lo)) % pow2((hi - lo + 1) as nat)
}

/// The value of the `width`-bit two's-complement quantity whose bits read `f` as unsigned.
pub open spec fn signed_field(f: int, width: nat) -> int {
    if f >= pow2((width - 1) as nat) {
        f - pow2(width)
    } else {
        f
    }
}

/// The mask of the low `width` bits of a word.
pub open spec fn low_mask(width: nat) -> u32 {
    0xffff_ffffu32 >> ((32 - width) as u32)
}

/// The low-bit mask of width `w` is `2^w - 1`.
proof fn lemma_low_mask_bits(w: u32)
    by (bit_vector)
    requires
        1 <= w <= 32,
    ensures
        (0xffff_ffffu32 >> ((32 - w) as u32)) as u64 == (1u64 << w) - 1,
{
}

/// `2^width` as a 64-bit shift.
proof fn lemma_pow2_shift(width: nat)
    requires
        width <= 32,
    ensures
        (1u64 << (width as u64)) == pow2(width),
        pow2(width) <= 0x1_0000_0000,
{
    lemma_u64_pow2_no_overflow(width);
    lemma_u64_shl_is_mul(1, width as u64);
    lemma2_to64();
    if width < 32 {
        vstd::arithmetic::power2::lemma_pow2_strictly_increases(width, 32);
    }
}

/// The value of a bit range is the word shifted right and masked.
pub proof fn lemma_field_mask(word: i32, hi: nat, lo: nat)
    requires
        lo <= hi < 32,
    ensures
        field(word, hi, lo) == ((word as u32) >> (lo as u32)) & low_mask((hi - lo + 1) as nat),
{
    let x = word as u32;
    let s = x >> (lo as u32);
    let w = (hi - lo + 1) as nat;
    let m = low_mask(w);
    lemma_u32_shr_is_div(x, lo as u32);
    lemma_low_mask_bits(w as u32);
    lemma_pow2_shift(w);
    lemma2_to64();
    if w == 32 {
        assert(s & m == s) by (bit_vector)
            requires
                m == 0xffff_ffffu32 >> 0u32,
        ;
        assert((s as nat) % 0x1_0000_0000 == s as nat);
    } else {
        lemma_u32_low_bits_mask_is_mod(s, w);
        assert(m == low_bits_mask(w) as u32);
        assert(pow2(w) as u32 == pow2(w));
    }
}

/// Bits `lo..=hi` of `word`, right-justified and zero-extended.
pub fn range(word: i32, hi: u32, lo: u32) -> (r: u32)
    requires
        lo <= hi < 32,
    ensures
        r as nat == field(word, hi as nat, lo as nat),
{
    proof {
        lemma_field_mask(word, hi as nat, lo as nat);
    }
    let x = #[verifier::truncate] (word as u32);
    (x >> lo) & (0xffff_ffffu32 >> (31 - (hi - lo)))
}

/// Bit `n` of `word`, as 0 or 1.
pub fn bit(word: i32, n: u32) -> (r: u32)
    requires
        n < 32,
    ensures
        r as nat == field(word, n as nat, n as nat),
        r <= 1,
{
    proof {
        lemma2_to64();
    }
    range(word, n, n)
}

/// Shifting a word left and then arithmetically right by `32 - w` sign-extends
/// its low `w` bits.
proof fn lemma_shift_pair(v: i32, w: u32)
    by (bit_vector)
    requires
        1 <= w <= 32,
    ensures
        ((v << ((32 - w) as u32)) >> ((32 - w) as u32)) as int == if ((v as u32) & (0xffff_ffffu32
            >> ((32 - w) as u32))) as u64 >= (1u64 << w) / 2 {
            ((v as u32) & (0xffff_ffffu32 >> ((32 - w) as u32))) as int - (1u64 << w) as int
        } else {
            ((v as u32) & (0xffff_ffffu32 >> ((32 - w) as u32))) as int
        },
        (v as u32) >> 0u32 == v as u32,
{
}

/// Reads the low `width` bits of `value` as a two's-complement quantity and
/// extends its sign over all 32 bits.
pub fn sign_extend(value: i32, width: u32) -> (r: i32)
    requires
        1 <= width <= 32,
    ensures
        r as int == signed_field(field(value, (width - 1) as nat, 0) as int, width as nat),
{
    let s: u32 = 32 - width;
    proof {
        lemma_shift_pair(value, width);
        lemma_field_mask(value, (width - 1) as nat, 0);
        lemma_pow2_shift(width as nat);
        lemma_pow2_unfold(width as nat);
    }
    (value << s) >> s
}

/// Bits `lo..=hi` of `word`, read as a two's-complement quantity of that width.
pub fn extend_range(word: i32, hi: u32, lo: u32) -> (r: i32)
    requires
        lo <= hi < 32,
    ensures
        r as int == signed_field(field(word, hi as nat, lo as nat) as int, (hi - lo + 1) as nat),
{
    let f = range(word, hi, lo);
    let v = #[verifier::truncate] (f as i32);
    proof {
        let w = (hi - lo + 1) as nat;
        lemma_pow2_pos(w);
        lemma_mod_bound(((word as u32) as nat / pow2(lo as nat)) as int, pow2(w) as int);
        assert((v as u32) == f) by (bit_vector)
            requires
                v == f as i32,
        ;
        assert((f as nat) / pow2(0) == f as nat) by {
            lemma2_to64();
        }
        lemma_small_mod(f as nat, pow2(w));
    }
    sign_extend(v, hi - lo + 1)
}

/// Sign extension of a bit range is two's-complement sign extension: when the
/// top bit of the extracted field is set the result is negative, and otherwise it
/// is non-negative and equal to the field's unsigned value.
pub proof fn lemma_extend_range_sign(word: i32, hi: nat, lo: nat)
    requires
        lo <= hi < 32,
    ensures
        ({
            let f = field(word, hi, lo);
            let r = signed_field(f as int, (hi - lo + 1) as nat);
            &&& (f / pow2((hi - lo) as nat)) % 2 == 1 ==> r < 0
            &&& (f / pow2((hi - lo) as nat)) % 2 == 0 ==> r == f && r >= 0
        }),
{
    let w = (hi - lo + 1) as nat;
    let f = field(word, hi, lo);
    let p = pow2((hi - lo) as nat);
    lemma_pow2_pos(w);
    lemma_pow2_pos((hi - lo) as nat);
    lemma_pow2_unfold(w);
    lemma_mod_bound(((word as u32) as nat / pow2(lo)) as int, pow2(w) as int);
    lemma_fundamental_div_mod(f as int, p as int);
    lemma_mod_bound(f as int, p as int);
    let q = f as int / p as int;
    assert(0 <= q < 2) by (nonlinear_arith)
        requires
            f == p * q + f as int % p as int,
            0 <= f as int % p as int,
            0 <= f < 2 * p,
            p > 0,
    ;
    assert(q == 1 <==> f >= p) by (nonlinear_arith)
        requires
            f == p * q + f as int % p as int,
            0 <= (f as int % p as int) < p,
            0 <= q < 2,
    ;
}

} // verus!
