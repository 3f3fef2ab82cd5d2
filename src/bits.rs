//! Little-endian bit-field extraction.
use vstd::prelude::*;

verus! {

use vstd::arithmetic::power2::{pow2, lemma_pow2_pos, lemma_pow2_adds, lemma2_to64};
use vstd::arithmetic::div_mod::{
    lemma_hoist_over_denominator,
    lemma_mod_multiples_vanish,
    lemma_mod_mod,
    lemma_small_mod,
};
use vstd::bits::{lemma_u64_shr_is_div, lemma_u64_shl_is_mul, lemma_u64_low_bits_mask_is_mod, low_bits_mask};

/// The number of low bits kept for a requested width: at most 64.
pub open spec fn kept_width(width: nat) -> nat {
    if width < 64 { width } else { 64 }
}

/// The `width`-bit field that starts at bit `shift` of the number `v`.
pub open spec fn bit_field(v: nat, shift: nat, width: nat) -> nat {
    (v / pow2(shift)) % pow2(kept_width(width))
}

/// The number whose base-256 digits, least significant first, are `s`.
pub open spec fn le_int(s: Seq<u8>) -> nat
    decreases s.len(),
{
    if s.len() == 0 {
        0
    } else {
        le_int(s.drop_last()) + s.last() as nat * pow2((8 * (s.len() - 1)) as nat)
    }
}

/// The number of bytes that hold bits `0 .. n`.
pub open spec fn bytes_for_bits(n: int) -> int {
    (n + 7) / 8
}

/// The bytes of `bytes` that hold bits `shift .. shift + width`.
pub open spec fn covered_bytes(bytes: Seq<u8>, shift: nat, width: nat) -> Seq<u8> {
    bytes.subrange((shift / 8) as int, bytes_for_bits((shift + width) as int))
}

/// Returns the `width`-bit field that starts at bit `shift` of `value`:
/// `value` shifted right by `shift` (0 once `shift` reaches 64), masked to
/// `width` low bits (all bits once `width` reaches 64).
pub fn extract_bits(value: u64, shift: usize, width: usize) -> (r: u64)
    ensures
        r == (if shift >= 64 {
            0u64
        } else if width >= 64 {
            value >> (shift as u64)
        } else {
            (value >> (shift as u64)) & (((1u64 << (width as u64)) - 1) as u64)
        }),
        r == bit_field(value as nat, shift as nat, width as nat),
{
    proof {
        lemma_pow2_pos(shift as nat);
        lemma_pow2_pos(kept_width(width as nat));
    }
    if shift >= 64 {
        proof {
            lemma2_to64();
            if shift > 64 {
                vstd::arithmetic::power2::lemma_pow2_strictly_increases(64, shift as nat);
            }
            assert(value as nat / pow2(shift as nat) == 0) by {
                vstd::arithmetic::div_mod::lemma_basic_div(value as int, pow2(shift as nat) as int);
            }
            assert(0nat % pow2(kept_width(width as nat)) == 0);
        }
        return 0;
    }
    let v = value >> (shift as u64);
    proof {
        lemma_u64_shr_is_div(value, shift as u64);
    }
    if width >= 64 {
        proof {
            lemma2_to64();
            lemma_small_mod(v as nat, pow2(64));
        }
        v
    } else {
        proof {
            vstd::bits::lemma_u64_pow2_no_overflow(width as nat);
            lemma_u64_shl_is_mul(1, width as u64);
            lemma_u64_low_bits_mask_is_mod(v, width as nat);
            assert(low_bits_mask(width as nat) == pow2(width as nat) - 1);
        }
        v & ((1u64 << (width as u64)) - 1)
    }
}


/// A little-endian number of `n` bytes is below `2^(8n)`.
proof fn lemma_le_int_bound(s: Seq<u8>)
    ensures
        le_int(s) < pow2(8 * s.len()),
    decreases s.len(),
{
    if s.len() == 0 {
        assert(pow2(0) == 1) by { lemma2_to64(); }
    } else {
        let n = (s.len() - 1) as nat;
        lemma_le_int_bound(s.drop_last());
        lemma_pow2_adds(8 * n, 8);
        lemma2_to64();
        let p = pow2(8 * n);
        let b = s.last() as nat;
        assert(le_int(s.drop_last()) + b * p < 256 * p) by (nonlinear_arith)
            requires
                le_int(s.drop_last()) < p,
                b <= 255,
        ;
        assert(8 * n + 8 == 8 * s.len());
    }
}

/// Splitting a little-endian number after its first `k` bytes.
proof fn lemma_le_int_split(s: Seq<u8>, k: int)
    requires
        0 <= k <= s.len(),
    ensures
        le_int(s) == le_int(s.subrange(0, k)) + pow2((8 * k) as nat) * le_int(s.subrange(k, s.len() as int)),
    decreases s.len(),
{
    if s.len() == k {
        assert(s.subrange(0, k) =~= s);
        assert(le_int(s.subrange(k, s.len() as int)) == 0);
    } else {
        let n = s.len() - 1;
        let t = s.drop_last();
        lemma_le_int_split(t, k);
        assert(t.subrange(0, k) =~= s.subrange(0, k));
        let hi = s.subrange(k, s.len() as int);
        assert(hi.drop_last() =~= t.subrange(k, t.len() as int));
        assert(hi.last() == s.last());
        lemma_pow2_adds((8 * k) as nat, (8 * (n - k)) as nat);
        let pk = pow2((8 * k) as nat);
        let pr = pow2((8 * (n - k)) as nat);
        let b = s.last() as int;
        let lo = le_int(t.subrange(k, t.len() as int)) as int;
        assert(pk * (lo + b * pr) == pk * lo + b * (pk * pr)) by (nonlinear_arith);
    }
}

/// The bits below `sh + m` of `x + 2^k y` are those of `x` when `sh + m <= k`.
proof fn lemma_field_ignores_high_part(x: nat, y: nat, k: nat, sh: nat, m: nat)
    requires
        sh + m <= k,
    ensures
        ((x + pow2(k) * y) / pow2(sh)) % pow2(m) == (x / pow2(sh)) % pow2(m),
{
    let ps = pow2(sh);
    let pm = pow2(m);
    let pr = pow2((k - sh - m) as nat);
    lemma_pow2_pos(sh);
    lemma_pow2_pos(m);
    lemma_pow2_adds(sh, (k - sh) as nat);
    lemma_pow2_adds(m, (k - sh - m) as nat);
    assert(pow2(k) == ps * (pm * pr));
    let j = (y * (pm * pr)) as int;
    assert(pow2(k) * y == j * ps) by (nonlinear_arith)
        requires
            pow2(k) == ps * (pm * pr),
            j == y * (pm * pr),
    ;
    lemma_hoist_over_denominator(x as int, j, ps);
    assert(j == pm * (y * pr)) by (nonlinear_arith)
        requires
            j == y * (pm * pr),
    ;
    lemma_mod_multiples_vanish((y * pr) as int, x as int / ps as int, pm as int);
}

/// Returns the `width`-bit field that starts at bit `shift` of `bytes` read
/// as a little-endian number, or `None` when `width` is 0 or `bytes` is too
/// short to hold bits `shift .. shift + width`.
pub fn extract_bits_from_le_bytes(bytes: &[u8], shift: usize, width: usize) -> (r: Option<u64>)
    ensures
        r is None <==> (width == 0 || bytes@.len() < bytes_for_bits(shift + width)),
        r matches Some(v) ==> v == bit_field(
            le_int(covered_bytes(bytes@, shift as nat, width as nat)),
            (shift % 8) as nat,
            width as nat,
        ),
{
    if width == 0 {
        return None;
    }
    let start = shift / 8;
    let end = start + width / 8 + (shift % 8 + width % 8 + 7) / 8;
    assert(end == bytes_for_bits(shift + width));
    if end > bytes.len() {
        return None;
    }
    let bit_shift = shift % 8;
    let n: usize = if end - start < 9 { end - start } else { 9 };
    let ghost covered = covered_bytes(bytes@, shift as nat, width as nat);
    proof {
        lemma2_to64();
    }
    let mut acc: u128 = 0;
    let mut mul: u128 = 1;
    let mut i: usize = 0;
    while i < n
        invariant
            0 <= i <= n <= 9,
            start + n <= end <= bytes@.len(),
            mul == pow2((8 * i) as nat),
            acc == le_int(bytes@.subrange(start as int, start + i)),
            acc < mul,
        decreases n - i,
    {
        let b = bytes[start + i];
        proof {
            lemma2_to64();
            let pre = bytes@.subrange(start as int, start + i + 1);
            assert(pre.drop_last() =~= bytes@.subrange(start as int, start + i));
            assert(pre.last() == b);
            lemma_pow2_adds((8 * i) as nat, 8);
            assert((8 * i) as nat + 8 == (8 * (i + 1)) as nat);
            if i < 8 {
                vstd::arithmetic::power2::lemma_pow2_strictly_increases((8 * i) as nat, 64);
            }
            assert(mul <= pow2(64));
            assert(acc + b * mul < 256 * mul) by (nonlinear_arith)
                requires
                    acc < mul,
                    b <= 255,
            ;
            assert(256 * mul <= 256 * 0x1_0000_0000_0000_0000u128) by (nonlinear_arith)
                requires
                    mul <= 0x1_0000_0000_0000_0000u128,
            ;
        }
        acc = acc + (b as u128) * mul;
        mul = mul * 256;
        i = i + 1;
    }
    let shifted = acc >> (bit_shift as u128);
    let value = #[verifier::truncate] (shifted as u64);
    let r = extract_bits(value, 0, width);
    proof {
        let kw = kept_width(width as nat);
        vstd::bits::lemma_u128_shr_is_div(acc, bit_shift as u128);
        assert(value == shifted % 0x1_0000_0000_0000_0000u128) by (bit_vector)
            requires
                value == #[verifier::truncate] (shifted as u64),
        ;
        lemma_pow2_pos(kw);
        lemma_pow2_pos((64 - kw) as nat);
        lemma_pow2_adds(kw, (64 - kw) as nat);
        lemma_mod_mod(shifted as int, pow2(kw) as int, pow2((64 - kw) as nat) as int);
        assert(pow2(0) == 1);
        assert(r == (shifted as nat) % pow2(kw));
        assert(covered.subrange(0, n as int) =~= bytes@.subrange(start as int, start + n));
        lemma_le_int_split(covered, n as int);
        lemma_field_ignores_high_part(
            acc as nat,
            le_int(covered.subrange(n as int, covered.len() as int)),
            (8 * n) as nat,
            bit_shift as nat,
            kw,
        );
    }
    Some(r)
}

} // verus!
