//! File sizes as the asset inspector shows them: bytes below one KiB, else
//! KB, MB or GB (powers of 1024) with one decimal, as a size converted to
//! `f64` and printed with `{:.1}` reads.

use vstd::prelude::*;

use vstd::arithmetic::power2::pow2;

use crate::text::{decimal, digit, digit_char, push_char, push_decimal};

verus! {

/// Bytes in a KB (1024).
pub const KIB: u64 = 1024;

/// Bytes in a MB (1024 KB).
pub const MIB: u64 = 1048576;

/// Bytes in a GB (1024 MB).
pub const GIB: u64 = 1073741824;

/// The number of binary digits of `n` (0 for 0).
pub open spec fn bit_len(n: nat) -> nat
    decreases n,
{
    if n == 0 {
        0
    } else {
        1 + bit_len(n / 2)
    }
}

/// `n / d` rounded to the nearest integer, a tie to the even one.
pub open spec fn div_round_even(n: nat, d: nat) -> nat {
    let q = n / d;
    let r = n % d;
    if 2 * r < d || (2 * r == d && q % 2 == 0) {
        q
    } else {
        q + 1
    }
}

/// The value of `n` converted to `f64`: `n` itself when it has at most 53
/// binary digits, else `n` rounded to 53 significant binary digits, a tie
/// to the even one.
pub open spec fn nearest_double(n: nat) -> nat {
    if bit_len(n) <= 53 {
        n
    } else {
        let unit = pow2((bit_len(n) - 53) as nat);
        div_round_even(n, unit) * unit
    }
}

/// `t` tenths written with one decimal: `12.5` for 125.
pub open spec fn tenths_text(t: nat) -> Seq<char> {
    decimal(t / 10) + "."@ + seq![digit_char((t % 10) as int)]
}

/// The text of a size of `bytes` bytes: `<n> B` below 1024 bytes, else the
/// size in the largest unit it reaches, in tenths rounded half to even.
pub open spec fn size_text(bytes: nat) -> Seq<char> {
    if bytes >= GIB {
        tenths_text(div_round_even(nearest_double(bytes) * 10, GIB as nat)) + " GB"@
    } else if bytes >= MIB {
        tenths_text(div_round_even(bytes * 10, MIB as nat)) + " MB"@
    } else if bytes >= KIB {
        tenths_text(div_round_even(bytes * 10, KIB as nat)) + " KB"@
    } else {
        decimal(bytes) + " B"@
    }
}

/// `n` has at most `k` binary digits exactly when `n < 2^k`.
proof fn lemma_bit_len_bound(n: nat, k: nat)
    ensures
        bit_len(n) <= k <==> n < pow2(k),
    decreases n, k,
{
    vstd::arithmetic::power2::lemma_pow2_pos(k);
    if k > 0 {
        vstd::arithmetic::power2::lemma_pow2_unfold(k);
    }
    if n == 0 {
    } else if k == 0 {
        assert(pow2(0) == 1) by {
            vstd::arithmetic::power2::lemma2_to64();
        }
    } else {
        lemma_bit_len_bound(n / 2, (k - 1) as nat);
    }
}

fn div_round_even_exec(n: u128, d: u128) -> (r: u128)
    requires
        0 < d < 0x1_0000_0000_0000_0000_0000,
        n < 0x1_0000_0000_0000_0000_0000,
    ensures
        r == div_round_even(n as nat, d as nat),
        r * d <= n + d,
{
    let q = n / d;
    let rem = n % d;
    proof {
        vstd::arithmetic::div_mod::lemma_fundamental_div_mod(n as int, d as int);
        assert(q * d <= n) by (nonlinear_arith)
            requires
                n == d * q + rem,
                rem >= 0,
        ;
        assert((q + 1) * d == q * d + d) by (nonlinear_arith);
    }
    if 2 * rem < d || (2 * rem == d && q % 2 == 0) {
        q
    } else {
        q + 1
    }
}

/// `bytes` converted to `f64`, as an integer (every such value is one).
fn nearest_double_exec(bytes: u64) -> (x: u128)
    ensures
        x == nearest_double(bytes as nat),
        x <= 0x1_0000_0000_0000_0800,
{
    proof {
        lemma_bit_len_bound(bytes as nat, 53);
        lemma_bit_len_bound(bytes as nat, 64);
        vstd::arithmetic::power2::lemma2_to64();
        vstd::arithmetic::power2::lemma2_to64_rest();
    }
    if bytes < 0x20_0000_0000_0000 {
        return bytes as u128;
    }
    let mut len: u64 = 0;
    let mut m: u64 = bytes;
    while m > 0
        invariant
            bit_len(bytes as nat) == len + bit_len(m as nat),
            len + bit_len(m as nat) <= 64,
        decreases m,
    {
        m = m / 2;
        len = len + 1;
    }
    let mut unit: u128 = 1;
    let mut i: u64 = 0;
    proof {
        vstd::arithmetic::power2::lemma2_to64();
    }
    while i < len - 53
        invariant
            53 < len <= 64,
            i <= len - 53,
            unit == pow2(i as nat),
            unit <= 0x800,
        decreases len - 53 - i,
    {
        proof {
            vstd::arithmetic::power2::lemma_pow2_unfold((i + 1) as nat);
            lemma_pow2_small((i + 1) as nat);
        }
        unit = unit * 2;
        i = i + 1;
    }
    let q = div_round_even_exec(bytes as u128, unit);
    q * unit
}

proof fn lemma_pow2_small(k: nat)
    requires
        k <= 11,
    ensures
        pow2(k) <= 0x800,
{
    vstd::arithmetic::power2::lemma2_to64();
    if k < 11 {
        vstd::arithmetic::power2::lemma_pow2_strictly_increases(k, 11);
    }
}

/// Appends `t` tenths with one decimal.
fn push_tenths(out: &mut String, t: u128)
    requires
        t <= u64::MAX,
    ensures
        final(out)@ == old(out)@ + tenths_text(t as nat),
{
    push_decimal(out, (t / 10) as u64);
    push_char(out, '.');
    push_char(out, digit((t % 10) as u64));
    proof {
        reveal_strlit(".");
    }
    assert(final(out)@ =~= old(out)@ + tenths_text(t as nat));
}

/// A file size for the inspector: `512 B`, `1.5 KB`, `2.0 MB`, `1.1 GB`.
pub fn human_file_size(bytes: u64) -> (text: String)
    ensures
        text@ == size_text(bytes as nat),
{
    let mut text = String::new();
    if bytes >= GIB {
        let x = nearest_double_exec(bytes);
        let t = div_round_even_exec(x * 10, GIB as u128);
        proof {
            assert(t * (GIB as int) <= x * 10 + GIB);
            assert(t <= u64::MAX) by (nonlinear_arith)
                requires
                    t * 1073741824 <= x * 10 + 1073741824,
                    x <= 0x1_0000_0000_0000_0800,
            ;
        }
        push_tenths(&mut text, t);
        text.append(" GB");
    } else if bytes >= MIB {
        let t = div_round_even_exec(bytes as u128 * 10, MIB as u128);
        proof {
            assert(t <= u64::MAX) by (nonlinear_arith)
                requires
                    t * 1048576 <= bytes * 10 + 1048576,
                    bytes < 1073741824,
            ;
        }
        push_tenths(&mut text, t);
        text.append(" MB");
    } else if bytes >= KIB {
        let t = div_round_even_exec(bytes as u128 * 10, KIB as u128);
        proof {
            assert(t <= u64::MAX) by (nonlinear_arith)
                requires
                    t * 1024 <= bytes * 10 + 1024,
                    bytes < 1048576,
            ;
        }
        push_tenths(&mut text, t);
        text.append(" KB");
    } else {
        push_decimal(&mut text, bytes);
        text.append(" B");
    }
    proof {
        reveal_strlit(" GB");
        reveal_strlit(" MB");
        reveal_strlit(" KB");
        reveal_strlit(" B");
    }
    text
}

} // verus!
