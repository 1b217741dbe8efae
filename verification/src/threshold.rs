//! The read-throughput threshold, in MB/s, below which a loading game is
//! treated as idle.
//!
//! The threshold is configured as an IEEE-754 double. The library carries it
//! as the double's bit pattern and compares read rates against the exact
//! value that the bit pattern denotes, so every decision here is integer
//! arithmetic.

use vstd::prelude::*;
use vstd::arithmetic::power2::*;
use vstd::arithmetic::div_mod::*;
use vstd::bits::*;

verus! {

/// Bit pattern of the double `10.0`, the default threshold in MB/s.
pub const DEFAULT_IDLE_READ_THRESHOLD_BITS: u64 = 0x4024_0000_0000_0000;

/// Bit pattern of positive infinity; every larger pattern is a NaN or negative.
pub const POSITIVE_INFINITY_BITS: u64 = 0x7FF0_0000_0000_0000;

/// The double with bit pattern `bits` is finite and strictly positive
/// (sign bit clear, exponent not all ones, not zero).
pub open spec fn is_positive_finite(bits: u64) -> bool {
    0 < bits < POSITIVE_INFINITY_BITS
}

/// The biased exponent field (bits 52..62) of a double with the sign bit clear.
pub open spec fn exponent_field(bits: u64) -> nat {
    (bits / 0x10_0000_0000_0000u64) as nat
}

/// The fraction field (bits 0..51) of a double.
pub open spec fn fraction_field(bits: u64) -> nat {
    (bits % 0x10_0000_0000_0000u64) as nat
}

/// The value of a positive finite double multiplied by 2^1074, which is
/// always an integer: `fraction` for subnormals and
/// `(2^52 + fraction) * 2^(exponent - 1)` for normal numbers.
pub open spec fn scaled_value(bits: u64) -> nat {
    if exponent_field(bits) == 0 {
        fraction_field(bits)
    } else {
        (fraction_field(bits) + 0x10_0000_0000_0000nat) * pow2((exponent_field(bits) - 1) as nat)
    }
}

/// Reading `delta` bytes in `elapsed_us` microseconds is a rate strictly below
/// the threshold whose bit pattern is `bits`, taken in MB/s.
///
/// For a threshold of `v` MB/s the rate `delta / (elapsed_us / 10^6)` bytes
/// per second is below `v * 10^6` exactly when `delta < v * elapsed_us`, which
/// is stated here with both sides multiplied by 2^1074. A zero elapsed time is
/// an infinite rate, below nothing. An infinite threshold is above every finite
/// rate; a threshold that is zero, negative or NaN is above no rate.
pub open spec fn rate_below(delta: nat, elapsed_us: nat, bits: u64) -> bool {
    if bits == POSITIVE_INFINITY_BITS {
        elapsed_us > 0
    } else if is_positive_finite(bits) {
        elapsed_us > 0 && delta * pow2(1074) < scaled_value(bits) * elapsed_us
    } else {
        false
    }
}

proof fn lemma_lt_mul_iff_div_lt(a: int, b: int, q: int)
    requires
        a >= 0,
        q > 0,
    ensures
        (a < b * q) <==> (a / q < b),
{
    lemma_fundamental_div_mod(a, q);
    lemma_mod_bound(a, q);
    let d = a / q;
    let r = a % q;
    assert((a < b * q) <==> (d < b)) by (nonlinear_arith)
        requires
            a == q * d + r,
            0 <= r < q,
            q > 0,
    ;
}

proof fn lemma_mul_lt_iff_le_div(a: int, b: int, q: int)
    requires
        a >= 0,
        b >= 1,
        q > 0,
    ensures
        (a * q < b) <==> (a <= (b - 1) / q),
{
    lemma_fundamental_div_mod(b - 1, q);
    lemma_mod_bound(b - 1, q);
    let d = (b - 1) / q;
    let r = (b - 1) % q;
    assert((a * q < b) <==> (a <= d)) by (nonlinear_arith)
        requires
            b - 1 == q * d + r,
            0 <= r < q,
            q > 0,
    ;
}

proof fn lemma_cancel_positive(x: int, y: int, c: int)
    requires
        c > 0,
    ensures
        (x * c < y * c) <==> (x < y),
{
    if x < y {
        vstd::arithmetic::mul::lemma_mul_strict_inequality(x, y, c);
    }
    if x * c < y * c {
        vstd::arithmetic::mul::lemma_mul_strict_inequality_converse(x, y, c);
    }
}

/// Decides [`rate_below`]: whether reading `delta` bytes in `elapsed_us`
/// microseconds is a rate below the threshold with bit pattern `threshold_bits`.
#[verifier::spinoff_prover]
pub fn read_rate_below(delta: u64, elapsed_us: u64, threshold_bits: u64) -> (below: bool)
    ensures
        below == rate_below(delta as nat, elapsed_us as nat, threshold_bits),
{
    if threshold_bits == POSITIVE_INFINITY_BITS {
        return elapsed_us > 0;
    }
    if threshold_bits == 0 || threshold_bits > POSITIVE_INFINITY_BITS {
        return false;
    }
    if elapsed_us == 0 {
        return false;
    }
    let e: u64 = threshold_bits >> 52u64;
    let f: u64 = threshold_bits & 0xF_FFFF_FFFF_FFFFu64;
    assert(e == threshold_bits / 0x10_0000_0000_0000u64 && f == threshold_bits
        % 0x10_0000_0000_0000u64) by (bit_vector)
        requires
            e == threshold_bits >> 52u64,
            f == threshold_bits & 0xF_FFFF_FFFF_FFFFu64,
    ;
    assert(e < 0x7FF) by (bit_vector)
        requires
            e == threshold_bits / 0x10_0000_0000_0000u64,
            threshold_bits < 0x7FF0_0000_0000_0000u64,
    ;
    let sig: u64 = if e == 0 {
        f
    } else {
        f + 0x10_0000_0000_0000u64
    };
    assert(sig >= 1) by {
        if e == 0 {
            assert(f == threshold_bits) by (bit_vector)
                requires
                    e == threshold_bits / 0x10_0000_0000_0000u64,
                    f == threshold_bits % 0x10_0000_0000_0000u64,
                    e == 0,
            ;
        }
    }
    assert(sig < 0x20_0000_0000_0000u64);
    assert((sig as int) * (elapsed_us as int) < 0x20_0000_0000_0000 * 0x1_0000_0000_0000_0000)
        by (nonlinear_arith)
        requires
            sig < 0x20_0000_0000_0000u64,
            elapsed_us < 0x1_0000_0000_0000_0000,
    ;
    let p: u128 = (sig as u128) * (elapsed_us as u128);
    assert(p >= 1) by (nonlinear_arith)
        requires
            p == sig * elapsed_us,
            sig >= 1,
            elapsed_us >= 1,
    ;
    let ghost scaled = scaled_value(threshold_bits);
    let ghost d = delta as int;
    if e >= 1075 {
        // The value is sig * 2^k with k = e - 1075 >= 0.
        let k: u64 = e - 1075;
        proof {
            lemma_pow2_adds(k as nat, 1074);
            assert(scaled == sig * pow2((k + 1074) as nat));
            vstd::arithmetic::mul::lemma_mul_is_associative(
                sig as int,
                pow2(k as nat) as int,
                pow2(1074) as int,
            );
            lemma_pow2_pos(1074);
            lemma_pow2_pos(k as nat);
            // delta * 2^1074 < (sig * 2^k) * 2^1074 * elapsed  <==>  delta < sig * elapsed * 2^k
            assert(scaled * elapsed_us == (p as int * pow2(k as nat)) * pow2(1074)) by (nonlinear_arith)
                requires
                    scaled == (sig * pow2(k as nat)) * pow2(1074),
                    p == sig * elapsed_us,
            ;
            lemma_cancel_positive(d, p as int * pow2(k as nat), pow2(1074) as int);
            lemma_lt_mul_iff_div_lt(d, p as int, pow2(k as nat) as int);
        }
        if k >= 64 {
            proof {
                if k > 64 {
                    lemma_pow2_strictly_increases(64, k as nat);
                }
                lemma2_to64();
                assert(d / pow2(k as nat) as int == 0) by {
                    vstd::arithmetic::div_mod::lemma_basic_div(d, pow2(k as nat) as int);
                }
            }
            true
        } else {
            let shifted: u64 = delta >> k;
            proof {
                lemma_u64_shr_is_div(delta, k);
            }
            (shifted as u128) < p
        }
    } else {
        // The value is sig / 2^s with s = 1075 - e (1074 for subnormals), s >= 1.
        let s: u64 = if e == 0 {
            1074
        } else {
            1075 - e
        };
        proof {
            lemma_pow2_pos(s as nat);
            lemma_pow2_pos((1074 - s) as nat);
            lemma_pow2_adds(s as nat, (1074 - s) as nat);
            assert(exponent_field(threshold_bits) == e);
            assert(fraction_field(threshold_bits) == f);
            if e == 0 {
                lemma2_to64();
                assert(scaled == sig);
                assert(sig * pow2(0) == sig) by (nonlinear_arith)
                    requires
                        pow2(0) == 1,
                ;
            } else {
                assert((1074 - s) as nat == (exponent_field(threshold_bits) - 1) as nat);
            }
            assert(scaled == sig * pow2((1074 - s) as nat));
            assert(d * pow2(1074) == (d * pow2(s as nat)) * pow2((1074 - s) as nat)) by (nonlinear_arith)
                requires
                    pow2(1074) == pow2(s as nat) * pow2((1074 - s) as nat),
            ;
            assert(scaled * elapsed_us == (p as int) * pow2((1074 - s) as nat)) by (nonlinear_arith)
                requires
                    scaled == sig * pow2((1074 - s) as nat),
                    p == sig * elapsed_us,
            ;
            lemma_cancel_positive(d * pow2(s as nat), p as int, pow2((1074 - s) as nat) as int);
            lemma_mul_lt_iff_le_div(d, p as int, pow2(s as nat) as int);
        }
        if s >= 128 {
            proof {
                lemma_pow2_strictly_increases(117, s as nat);
                assert(pow2(117) == 0x20_0000_0000_0000 * 0x1_0000_0000_0000_0000) by {
                    lemma_pow2_adds(53, 64);
                    lemma2_to64();
                    lemma_pow2_adds(32, 21);
                }
                vstd::arithmetic::div_mod::lemma_basic_div(p as int - 1, pow2(s as nat) as int);
            }
            delta == 0
        } else {
            let bound: u128 = (p - 1) >> s;
            proof {
                lemma_u128_shr_is_div((p - 1) as u128, s as u128);
            }
            (delta as u128) <= bound
        }
    }
}

proof fn lemma_fields(bits: u64)
    requires
        is_positive_finite(bits),
    ensures
        bits == exponent_field(bits) * 0x10_0000_0000_0000nat + fraction_field(bits),
        fraction_field(bits) < 0x10_0000_0000_0000nat,
        exponent_field(bits) < 0x7FF,
        exponent_field(bits) == 0 ==> fraction_field(bits) > 0,
{
    lemma_fundamental_div_mod(bits as int, 0x10_0000_0000_0000);
    lemma_mod_bound(bits as int, 0x10_0000_0000_0000);
}

/// Among positive finite doubles, a larger bit pattern denotes a larger value.
proof fn lemma_scaled_value_monotone(t1: u64, t2: u64)
    requires
        is_positive_finite(t1),
        is_positive_finite(t2),
        t1 <= t2,
    ensures
        scaled_value(t1) <= scaled_value(t2),
{
    lemma_fields(t1);
    lemma_fields(t2);
    let e1 = exponent_field(t1);
    let e2 = exponent_field(t2);
    let f1 = fraction_field(t1);
    let f2 = fraction_field(t2);
    lemma_div_is_ordered(t1 as int, t2 as int, 0x10_0000_0000_0000);
    assert(e1 <= e2);
    if e1 == e2 {
        assert(f1 <= f2);
        if e1 > 0 {
            lemma_pow2_pos((e1 - 1) as nat);
            vstd::arithmetic::mul::lemma_mul_inequality(
                (f1 + 0x10_0000_0000_0000) as int,
                (f2 + 0x10_0000_0000_0000) as int,
                pow2((e1 - 1) as nat) as int,
            );
        }
    } else {
        // e1 < e2: every value with exponent e1 is below 2^52 * 2^(e2 - 1).
        lemma_pow2_pos((e2 - 1) as nat);
        assert(scaled_value(t2) >= 0x10_0000_0000_0000nat * pow2((e2 - 1) as nat)) by {
            vstd::arithmetic::mul::lemma_mul_inequality(
                0x10_0000_0000_0000,
                (f2 + 0x10_0000_0000_0000) as int,
                pow2((e2 - 1) as nat) as int,
            );
        }
        if e1 == 0 {
            assert(0x10_0000_0000_0000nat <= 0x10_0000_0000_0000nat * pow2((e2 - 1) as nat))
                by (nonlinear_arith)
                requires
                    pow2((e2 - 1) as nat) >= 1,
            ;
        } else {
            lemma_pow2_pos((e1 - 1) as nat);
            lemma_pow2_unfold(e1);
            if e1 < e2 - 1 {
                lemma_pow2_strictly_increases(e1, (e2 - 1) as nat);
            }
            assert(pow2(e1) <= pow2((e2 - 1) as nat));
            assert(scaled_value(t1) <= 0x10_0000_0000_0000nat * pow2((e2 - 1) as nat))
                by (nonlinear_arith)
                requires
                    scaled_value(t1) == (f1 + 0x10_0000_0000_0000nat) * pow2((e1 - 1) as nat),
                    f1 < 0x10_0000_0000_0000nat,
                    pow2(e1) == 2 * pow2((e1 - 1) as nat),
                    pow2(e1) <= pow2((e2 - 1) as nat),
            ;
        }
    }
}

/// A read rate below a threshold stays below it when fewer bytes are read,
/// when the same bytes take longer, and when the threshold is raised; this
/// is why raising the threshold tolerates heavier background reads and
/// lowering it (above zero) is stricter.
pub proof fn lemma_rate_below_monotone(
    delta1: nat,
    delta2: nat,
    elapsed1_us: nat,
    elapsed2_us: nat,
    t1: u64,
    t2: u64,
)
    requires
        delta2 <= delta1,
        elapsed1_us <= elapsed2_us,
        is_positive_finite(t1),
        t1 <= t2 <= POSITIVE_INFINITY_BITS,
    ensures
        rate_below(delta1, elapsed1_us, t1) ==> rate_below(delta2, elapsed2_us, t2),
{
    if rate_below(delta1, elapsed1_us, t1) && t2 != POSITIVE_INFINITY_BITS {
        lemma_scaled_value_monotone(t1, t2);
        lemma_pow2_pos(1074);
        assert(delta2 * pow2(1074) < scaled_value(t2) * elapsed2_us) by (nonlinear_arith)
            requires
                delta1 * pow2(1074) < scaled_value(t1) * elapsed1_us,
                delta2 <= delta1,
                elapsed1_us <= elapsed2_us,
                scaled_value(t1) <= scaled_value(t2),
        ;
    }
}

} // verus!
