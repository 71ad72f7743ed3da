//! Sign extension of a field's low bits into a full 32-bit word.

use vstd::arithmetic::power2::{lemma2_to64, lemma_pow2_strictly_increases, lemma_pow2_unfold, pow2};
use vstd::prelude::*;

verus! {


/// A signed word's unsigned two's-complement image.
pub open spec fn u32_image(v: i32) -> int {
    if v >= 0 {
        v as int
    } else {
        v + 0x1_0000_0000
    }
}

/// The value of the low `n` bits of a word read as an `n`-bit signed
/// integer; width 0 and the full width leave the word as it is.
pub open spec fn spec_sign_extend(v: i32, n_bits: u32) -> int {
    if n_bits == 0 || n_bits == 32 {
        v as int
    } else {
        let low = u32_image(v) % (pow2(n_bits as nat) as int);
        if low >= pow2(n_bits as nat) / 2 {
            low - pow2(n_bits as nat) as int
        } else {
            low
        }
    }
}

fn pow2_exec(n: u32) -> (r: u32)
    requires
        n <= 31,
    ensures
        r == pow2(n as nat),
        r >= 1,
{
    let mut r: u32 = 1;
    let mut k: u32 = 0;
    proof {
        assert(r == pow2(0)) by {
            lemma2_to64();
        }
    }
    while k < n
        invariant
            k <= n,
            n <= 31,
            r == pow2(k as nat),
        decreases n - k,
    {
        proof {
            lemma_pow2_bound(k as nat);
            lemma_pow2_unfold((k + 1) as nat);
        }
        r = r * 2;
        k = k + 1;
    }
    proof {
        lemma_pow2_bound(n as nat);
    }
    r
}

proof fn lemma_pow2_bound(n: nat)
    requires
        n <= 31,
    ensures
        pow2(n) >= 1,
        pow2(n) <= 0x8000_0000,
        n <= 30 ==> pow2(n) <= 0x4000_0000,
{
    lemma2_to64();
    if n < 31 {
        lemma_pow2_strictly_increases(n, 31);
    }
    if n < 30 {
        lemma_pow2_strictly_increases(n, 30);
    }
    vstd::arithmetic::power2::lemma_pow2_pos(n);
}

/// Interprets the low `n_bits` of a value as a signed field and extends
/// its sign through the full word.
pub fn sign_extend(v: i32, n_bits: u32) -> (r: i32)
    requires
        n_bits <= 32,
    ensures
        r as int == spec_sign_extend(v, n_bits),
{
    if n_bits == 0 || n_bits == 32 {
        return v;
    }
    let m = pow2_exec(n_bits);
    proof {
        lemma_pow2_bound(n_bits as nat);
    }
    let vu: u32 = if v >= 0 {
        v as u32
    } else {
        ((v as i64) + 0x1_0000_0000i64) as u32
    };
    let low: u32 = vu % m;
    if low >= m / 2 {
        let r: i64 = low as i64 - m as i64;
        proof {
            assert(-0x8000_0000 <= r < 0);
        }
        r as i32
    } else {
        proof {
            assert(low < 0x8000_0000);
        }
        low as i32
    }
}

} // verus!
