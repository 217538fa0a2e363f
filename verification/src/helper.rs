//! Sign extension of immediate fields into full words.

use crate::bytes::{all_known, from_nat, le_val, lemma_le_val_bound, Bytes};
use vstd::arithmetic::power2::{lemma_pow2_adds, lemma_pow2_pos, pow2};
use vstd::prelude::*;

verus! {

/// The 32-bit value obtained by keeping bits `0..=k` of `v` and copying bit
/// `k` into every bit above it.
pub open spec fn sign_extended(v: nat, k: nat) -> nat {
    if k >= 31 {
        v % pow2(32)
    } else if (v / pow2(k)) % 2 == 1 {
        (v % pow2(k + 1) + (pow2(32) - pow2(k + 1))) as nat
    } else {
        v % pow2(k + 1)
    }
}

/// Builds the word whose value is `val` sign-extended from bit `upper_idx`:
/// bits above `upper_idx` become copies of that bit.
pub fn sign_extend(val: u32, upper_idx: u8) -> (r: Bytes)
    requires
        upper_idx < 32,
    ensures
        r@.len() == 4,
        all_known(r@),
        le_val(r@) == sign_extended(val as nat, upper_idx as nat),
        r@ == from_nat(4, sign_extended(val as nat, upper_idx as nat)),
{
    let k = upper_idx;
    proof {
        vstd::arithmetic::power2::lemma2_to64();
        lemma_pow2_pos(k as nat);
    }
    let r: Bytes = if k >= 31 {
        proof {
            vstd::arithmetic::div_mod::lemma_small_mod(val as nat, pow2(32));
        }
        Bytes::from_u32(val)
    } else {
        let m: u32 = 1u32 << ((k + 1) as u32);
        proof {
            vstd::bits::lemma_u32_pow2_no_overflow((k + 1) as nat);
            vstd::bits::lemma_u32_shl_is_mul(1u32, (k + 1) as u32);
            assert(m as nat == pow2((k + 1) as nat));
        }
        let low: u32 = val % m;
        let bit: u32 = (val >> (k as u32)) & 1;
        proof {
            vstd::bits::lemma_u32_shr_is_div(val, k as u32);
            assert((val >> (k as u32)) & 1 == (val >> (k as u32)) % 2) by (bit_vector);
        }
        if bit == 1 {
            let r0 = low + (0xFFFF_FFFFu32 - (m - 1));
            proof {
                assert(r0 as nat == low as nat + (pow2(32) - pow2((k + 1) as nat)));
                vstd::arithmetic::div_mod::lemma_small_mod(r0 as nat, pow2(32));
            }
            Bytes::from_u32(r0)
        } else {
            Bytes::from_u32(low)
        }
    };
    proof {
        crate::bytes::lemma_le_val_round_trip(r@);
    }
    r
}

} // verus!
