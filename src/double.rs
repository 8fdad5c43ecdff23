use vstd::arithmetic::div_mod::{lemma_fundamental_div_mod, lemma_multiply_divide_lt};
use vstd::arithmetic::power2::{
    lemma2_to64, lemma2_to64_rest, lemma_pow2_adds, lemma_pow2_pos, lemma_pow2_strictly_increases,
    lemma_pow2_unfold, pow2,
};
use vstd::bits::{lemma_u64_shl_is_mul, lemma_u64_shr_is_div};
use vstd::prelude::*;

verus! {

/// An IEEE 754 binary64 number, held as its bit pattern.
///
/// Two values are equal when their bit patterns are equal.
#[derive(Clone, Copy, Debug, PartialEq, Eq, Structural)]
pub struct Double {
    pub bits: u64,
}

/// Bit pattern of the number one.
pub const ONE_BITS: u64 = 0x3ff0_0000_0000_0000;

/// Magnitude from which a truncated value no longer fits an `i32`.
const I32_BOUND: u64 = 0x8000_0000;

/// Largest value of the exponent field; it marks infinities and NaNs.
const EXP_SPECIAL: u64 = 0x7ff;

/// `x` clamped to the range of `i32`.
pub open spec fn clamp_i32(x: int) -> i32 {
    if x > i32::MAX {
        i32::MAX
    } else if x < i32::MIN {
        i32::MIN
    } else {
        x as i32
    }
}

/// The number of binary digits of `m`; zero has none.
pub open spec fn bit_len(m: nat) -> nat
    decreases m,
{
    if m == 0 {
        0
    } else {
        1 + bit_len(m / 2)
    }
}

/// `m / 2^s` rounded to the nearest integer, a tie going to the even one.
pub open spec fn round_half_even(m: nat, s: nat) -> nat {
    let q = m / pow2(s);
    let r = m % pow2(s);
    if s > 0 && (2 * r > pow2(s) || (2 * r == pow2(s) && q % 2 == 1)) {
        q + 1
    } else {
        q
    }
}

/// How many low binary digits of `m` do not fit a 53-digit significand.
pub open spec fn excess_digits(m: nat) -> nat {
    if bit_len(m) > 53 {
        (bit_len(m) - 53) as nat
    } else {
        0
    }
}

proof fn lemma_bit_len_bound(m: nat, k: nat)
    requires
        m < pow2(k),
    ensures
        bit_len(m) <= k,
    decreases m,
{
    if m > 0 {
        if k == 0 {
            lemma2_to64();
        } else {
            lemma_pow2_unfold(k);
            lemma_bit_len_bound(m / 2, (k - 1) as nat);
        }
    }
}

proof fn lemma_below_pow2_bit_len(m: nat)
    ensures
        m < pow2(bit_len(m)),
    decreases m,
{
    if m == 0 {
        lemma_pow2_pos(0);
    } else {
        lemma_below_pow2_bit_len(m / 2);
        lemma_pow2_unfold(bit_len(m));
    }
}

/// The number of binary digits of `m`.
fn bit_length(m: u64) -> (n: u64)
    requires
        m < 0x2000_0000_0000_0000u64,
    ensures
        n == bit_len(m as nat),
        n <= 61,
        m < pow2(n as nat),
{
    proof {
        lemma2_to64_rest();
        lemma_bit_len_bound(m as nat, 61);
        lemma_below_pow2_bit_len(m as nat);
    }
    let mut x: u64 = m;
    let mut n: u64 = 0;
    while x > 0
        invariant
            bit_len(m as nat) == n + bit_len(x as nat),
            bit_len(m as nat) <= 61,
        decreases x,
    {
        x = x / 2;
        n = n + 1;
    }
    n
}

/// `m / 2^s` rounded to the nearest integer, a tie going to the even one.
fn round_shift(m: u64, s: u64) -> (q0: u64)
    requires
        s <= 8,
        m < pow2(s as nat) * pow2(53),
    ensures
        q0 == round_half_even(m as nat, s as nat),
        q0 <= 0x20_0000_0000_0000u64,
{
    proof {
        lemma2_to64();
        lemma2_to64_rest();
        lemma_u64_shr_is_div(m, s);
        lemma_pow2_strictly_increases(s as nat, 64);
        lemma_u64_shl_is_mul(1, s);
        lemma_pow2_pos(s as nat);
        lemma_multiply_divide_lt(m as int, pow2(s as nat) as int, pow2(53) as int);
        lemma_fundamental_div_mod(m as int, pow2(s as nat) as int);
        if s < 8 {
            lemma_pow2_strictly_increases(s as nat, 8);
        }
    }
    let q: u64 = m >> s;
    let p: u64 = 1u64 << s;
    assert(p == pow2(s as nat));
    assert(q < 0x20_0000_0000_0000u64);
    assert(p * q <= m);
    let r: u64 = m - p * q;
    assert(r == m as int % p as int);
    if s > 0 && (2 * r > p || (2 * r == p && q % 2 == 1)) {
        q + 1
    } else {
        q
    }
}

impl Double {
    pub open spec fn sign_bit(self) -> bool {
        self.bits >= 0x8000_0000_0000_0000
    }

    pub open spec fn exp_field(self) -> nat {
        ((self.bits / 0x10_0000_0000_0000) % 0x800) as nat
    }

    pub open spec fn frac_field(self) -> nat {
        (self.bits % 0x10_0000_0000_0000) as nat
    }

    pub open spec fn is_nan(self) -> bool {
        self.exp_field() == 0x7ff && self.frac_field() != 0
    }

    pub open spec fn is_infinite(self) -> bool {
        self.exp_field() == 0x7ff && self.frac_field() == 0
    }

    pub open spec fn is_finite(self) -> bool {
        self.exp_field() < 0x7ff
    }

    /// The integer significand of a finite value, implicit leading bit included.
    pub open spec fn significand(self) -> nat {
        if self.exp_field() == 0 {
            self.frac_field()
        } else {
            self.frac_field() + 0x10_0000_0000_0000
        }
    }

    /// The power of two that scales the significand of a finite value:
    /// its magnitude is `significand() * 2^exponent()`.
    pub open spec fn exponent(self) -> int {
        if self.exp_field() == 0 {
            -1074
        } else {
            self.exp_field() - 1075
        }
    }

    /// A finite value that is greater than zero.
    pub open spec fn is_positive_finite(self) -> bool {
        !self.sign_bit() && self.is_finite() && self.significand() > 0
    }

    /// The magnitude of a finite value multiplied by `k`, truncated to an integer.
    pub open spec fn scaled_magnitude(self, k: nat) -> nat {
        if self.exponent() >= 0 {
            self.significand() * k * pow2(self.exponent() as nat)
        } else {
            (self.significand() * k) / pow2((-self.exponent()) as nat)
        }
    }

    /// The value multiplied by `k` (exactly) and truncated toward zero into an `i32`,
    /// as a numeric cast does it: out-of-range values saturate, NaN gives zero.
    pub open spec fn trunc_scaled_spec(self, k: nat) -> i32 {
        if self.is_nan() {
            0
        } else if self.is_infinite() {
            if self.sign_bit() {
                i32::MIN
            } else {
                i32::MAX
            }
        } else if self.sign_bit() {
            clamp_i32(-(self.scaled_magnitude(k) as int))
        } else {
            clamp_i32(self.scaled_magnitude(k) as int)
        }
    }

    /// The value times `k`, rounded to the nearest double (a tie goes to the even
    /// significand), with a product too large for a double becoming an infinity of the
    /// value's sign. An infinity or a NaN stays as it is.
    pub open spec fn times(self, k: nat) -> Double {
        if !self.is_finite() {
            self
        } else {
            let m = self.significand() * k;
            let s = excess_digits(m);
            let q0 = round_half_even(m, s);
            let carry: nat = if q0 == 0x20_0000_0000_0000 {
                1
            } else {
                0
            };
            let q: nat = if carry == 1 {
                0x10_0000_0000_0000
            } else {
                q0
            };
            // The biased exponent of the result, if it is normal.
            let biased: int = self.exponent() + 1075 + s + carry;
            let sign: nat = if self.sign_bit() {
                0x8000_0000_0000_0000
            } else {
                0
            };
            if q < 0x10_0000_0000_0000 {
                Double { bits: (sign + q) as u64 }
            } else if biased >= 0x7ff {
                Double { bits: (sign + 0x7ff0_0000_0000_0000) as u64 }
            } else {
                Double {
                    bits: (sign + biased * 0x10_0000_0000_0000 + (q - 0x10_0000_0000_0000)) as u64,
                }
            }
        }
    }

    /// The value with its sign bit flipped, which is its exact negation.
    pub open spec fn neg_spec(self) -> Double {
        Double { bits: self.bits ^ 0x8000_0000_0000_0000u64 }
    }

    /// The value truncated toward zero into an `i32`.
    pub open spec fn trunc_spec(self) -> i32 {
        self.trunc_scaled_spec(1)
    }

    pub fn from_bits(bits: u64) -> (r: Double)
        ensures
            r.bits == bits,
    {
        Double { bits }
    }

    pub fn to_bits(self) -> (r: u64)
        ensures
            r == self.bits,
    {
        self.bits
    }

    /// The number one.
    pub fn one() -> (r: Double)
        ensures
            r.bits == ONE_BITS,
            r.is_positive_finite(),
    {
        Double { bits: ONE_BITS }
    }

    /// The value with its sign flipped; exact, as IEEE negation is.
    pub fn neg(self) -> (r: Double)
        ensures
            r == self.neg_spec(),
            r.sign_bit() == !self.sign_bit(),
            r.exp_field() == self.exp_field(),
            r.frac_field() == self.frac_field(),
    {
        let b = self.bits;
        let bits = b ^ 0x8000_0000_0000_0000u64;
        assert(bits >= 0x8000_0000_0000_0000u64 <==> !(b >= 0x8000_0000_0000_0000u64))
            by (bit_vector)
            requires
                bits == b ^ 0x8000_0000_0000_0000u64,
        ;
        assert((bits / 0x10_0000_0000_0000u64) % 0x800u64 == (b / 0x10_0000_0000_0000u64)
            % 0x800u64) by (bit_vector)
            requires
                bits == b ^ 0x8000_0000_0000_0000u64,
        ;
        assert(bits % 0x10_0000_0000_0000u64 == b % 0x10_0000_0000_0000u64) by (bit_vector)
            requires
                bits == b ^ 0x8000_0000_0000_0000u64,
        ;
        Double { bits }
    }

    /// Whether the value is finite and greater than zero.
    pub fn is_positive_finite_exec(self) -> (r: bool)
        ensures
            r == self.is_positive_finite(),
    {
        let b = self.bits;
        assert(b & 0x7fff_ffff_ffff_ffffu64 == 0 <==> (b % 0x8000_0000_0000_0000u64 == 0))
            by (bit_vector);
        assert(b < 0x8000_0000_0000_0000u64 ==> ((b / 0x10_0000_0000_0000u64) % 0x800u64 == 0
            && b % 0x10_0000_0000_0000u64 == 0 <==> b == 0)) by (bit_vector);
        assert(b < 0x8000_0000_0000_0000u64 ==> ((b / 0x10_0000_0000_0000u64) % 0x800u64
            < 0x7ff <==> b < 0x7ff0_0000_0000_0000u64)) by (bit_vector);
        b != 0 && b < 0x7ff0_0000_0000_0000u64
    }

    /// Whether the value is a number from -1 to 1, both included.
    pub open spec fn within_unit_spec(self) -> bool {
        self.is_finite() && if self.exponent() >= 0 {
            self.significand() * pow2(self.exponent() as nat) <= 1
        } else {
            self.significand() <= pow2((-self.exponent()) as nat)
        }
    }

    /// Whether the value is a number from -1 to 1, both included.
    pub fn within_unit(self) -> (r: bool)
        ensures
            r == self.within_unit_spec(),
    {
        let b = self.bits;
        let a = b & 0x7fff_ffff_ffff_ffffu64;
        let r = a <= ONE_BITS;
        assert(r <==> ((b / 0x10_0000_0000_0000u64) % 0x800u64 < 1023 || ((b
            / 0x10_0000_0000_0000u64) % 0x800u64 == 1023 && b % 0x10_0000_0000_0000u64 == 0)))
            by (bit_vector)
            requires
                a == b & 0x7fff_ffff_ffff_ffffu64,
                r == (a <= 0x3ff0_0000_0000_0000u64),
        ;
        proof {
            lemma2_to64();
            lemma2_to64_rest();
            let exp = self.exp_field();
            let sig = self.significand();
            if exp == 0 {
                lemma_pow2_strictly_increases(52, 1074);
            } else if exp < 1023 {
                if exp < 1022 {
                    lemma_pow2_strictly_increases(53, (1075 - exp) as nat);
                }
            } else if exp == 1023 {
            } else if exp < 1075 {
                if exp > 1024 {
                    lemma_pow2_strictly_increases((1075 - exp) as nat, 51);
                }
            } else if exp < 0x7ff {
                lemma_pow2_pos((exp - 1075) as nat);
                assert(sig * pow2((exp - 1075) as nat) >= sig) by (nonlinear_arith)
                    requires
                        pow2((exp - 1075) as nat) >= 1,
                ;
            }
        }
        r
    }

    /// The value times `k`, rounded as a product of doubles is: to the nearest double,
    /// a tie going to the even significand, too large a product becoming infinite.
    pub fn times_small(self, k: u8) -> (r: Double)
        requires
            k > 0,
        ensures
            r == self.times(k as nat),
    {
        let b = self.bits;
        let exp: u64 = (b >> 52u64) & EXP_SPECIAL;
        let frac: u64 = b & 0x000f_ffff_ffff_ffffu64;
        let sign: u64 = b & 0x8000_0000_0000_0000u64;
        assert(exp == (b / 0x10_0000_0000_0000u64) % 0x800u64) by (bit_vector)
            requires
                exp == (b >> 52u64) & 0x7ffu64,
        ;
        assert(frac == b % 0x10_0000_0000_0000u64) by (bit_vector)
            requires
                frac == b & 0x000f_ffff_ffff_ffffu64,
        ;
        assert(sign == if b >= 0x8000_0000_0000_0000u64 {
            0x8000_0000_0000_0000u64
        } else {
            0u64
        }) by (bit_vector)
            requires
                sign == b & 0x8000_0000_0000_0000u64,
        ;
        if exp == EXP_SPECIAL {
            return self;
        }
        let sig: u64 = if exp == 0 {
            frac
        } else {
            frac + 0x10_0000_0000_0000u64
        };
        assert(sig * (k as u64) < 0x2000_0000_0000_0000u64) by (nonlinear_arith)
            requires
                sig < 0x20_0000_0000_0000u64,
                k < 256,
        ;
        let m: u64 = sig * (k as u64);
        proof {
            lemma2_to64_rest();
        }
        let n = bit_length(m);
        let s: u64 = if n > 53 {
            n - 53
        } else {
            0
        };
        assert(s == excess_digits(m as nat));
        proof {
            lemma_pow2_adds(s as nat, 53);
            if n < s + 53 {
                lemma_pow2_strictly_increases(n as nat, (s + 53) as nat);
            }
        }
        let q0 = round_shift(m, s);
        let exp_eff: u64 = if exp == 0 {
            1
        } else {
            exp
        };
        let carry: u64 = if q0 == 0x20_0000_0000_0000u64 {
            1
        } else {
            0
        };
        let qn: u64 = if carry == 1 {
            0x10_0000_0000_0000u64
        } else {
            q0
        };
        let biased: u64 = exp_eff + s + carry;
        if qn < 0x10_0000_0000_0000u64 {
            Double { bits: sign + qn }
        } else if biased >= 0x7ff {
            Double { bits: sign + 0x7ff0_0000_0000_0000u64 }
        } else {
            Double { bits: sign + biased * 0x10_0000_0000_0000u64 + (qn - 0x10_0000_0000_0000u64) }
        }
    }

    /// The value truncated toward zero into an `i32`, saturating; NaN gives zero.
    pub fn trunc(self) -> (r: i32)
        ensures
            r == self.trunc_spec(),
    {
        self.trunc_scaled(1)
    }

    /// The value multiplied by `k`, exactly, then truncated toward zero into an `i32`,
    /// saturating; NaN gives zero.
    fn trunc_scaled(self, k: u8) -> (r: i32)
        requires
            k > 0,
        ensures
            r == self.trunc_scaled_spec(k as nat),
    {
        let b = self.bits;
        let exp: u64 = (b >> 52u64) & EXP_SPECIAL;
        let frac: u64 = b & 0x000f_ffff_ffff_ffffu64;
        let neg: bool = (b >> 63u64) == 1;
        assert(exp == (b / 0x10_0000_0000_0000u64) % 0x800u64) by (bit_vector)
            requires
                exp == (b >> 52u64) & 0x7ffu64,
        ;
        assert(frac == b % 0x10_0000_0000_0000u64) by (bit_vector)
            requires
                frac == b & 0x000f_ffff_ffff_ffffu64,
        ;
        assert(neg == (b >= 0x8000_0000_0000_0000u64)) by (bit_vector)
            requires
                neg == ((b >> 63u64) == 1),
        ;
        if exp == EXP_SPECIAL {
            if frac != 0 {
                return 0;
            }
            return if neg {
                i32::MIN
            } else {
                i32::MAX
            };
        }
        let sig: u64 = if exp == 0 {
            frac
        } else {
            assert(frac | 0x10_0000_0000_0000u64 == frac + 0x10_0000_0000_0000u64) by (bit_vector)
                requires
                    frac < 0x10_0000_0000_0000u64,
            ;
            frac | 0x10_0000_0000_0000u64
        };
        assert(sig == self.significand());
        assert(sig * (k as u64) < 0x2000_0000_0000_0000u64) by (nonlinear_arith)
            requires
                sig < 0x20_0000_0000_0000u64,
                k < 256,
        ;
        let p: u64 = sig * (k as u64);
        assert(p == self.significand() * k);
        proof {
            lemma2_to64();
        }
        // `mag` is the truncated magnitude, or any value from I32_BOUND up when that is
        // no less than I32_BOUND.
        let mag: u64 = if exp >= 1075 {
            let e: u64 = exp - 1075;
            assert(self.exponent() == e);
            if p == 0 {
                assert(self.scaled_magnitude(k as nat) == 0) by (nonlinear_arith)
                    requires
                        self.significand() * k == 0,
                        self.scaled_magnitude(k as nat) == self.significand() * k * pow2(
                            self.exponent() as nat,
                        ),
                ;
                0
            } else if p >= I32_BOUND || e >= 32 {
                proof {
                    lemma_pow2_pos(e as nat);
                    if e >= 32 {
                        lemma_pow2_strictly_increases(31, e as nat);
                    }
                    assert(p * pow2(e as nat) >= I32_BOUND) by (nonlinear_arith)
                        requires
                            p >= 1,
                            pow2(e as nat) >= 1,
                            p >= I32_BOUND || pow2(e as nat) >= I32_BOUND,
                    ;
                }
                I32_BOUND
            } else {
                proof {
                    if e < 31 {
                        lemma_pow2_strictly_increases(e as nat, 31);
                    }
                    assert(p * pow2(e as nat) <= u64::MAX) by (nonlinear_arith)
                        requires
                            p < I32_BOUND,
                            pow2(e as nat) <= I32_BOUND,
                    ;
                    lemma_u64_shl_is_mul(p, e);
                }
                p << e
            }
        } else {
            let s: u64 = if exp == 0 {
                1074
            } else {
                1075 - exp
            };
            assert(-self.exponent() == s);
            if s >= 64 {
                proof {
                    lemma_pow2_strictly_increases(61, s as nat);
                    lemma2_to64_rest();
                    assert(p < pow2(61));
                    vstd::arithmetic::div_mod::lemma_basic_div(p as int, pow2(s as nat) as int);
                }
                0
            } else {
                proof {
                    lemma_u64_shr_is_div(p, s);
                }
                p >> s
            }
        };
        assert(mag >= I32_BOUND <==> self.scaled_magnitude(k as nat) >= I32_BOUND);
        assert(mag < I32_BOUND ==> mag == self.scaled_magnitude(k as nat));
        if mag >= I32_BOUND {
            if neg {
                i32::MIN
            } else {
                i32::MAX
            }
        } else if neg {
            -(mag as i32)
        } else {
            mag as i32
        }
    }
}

} // verus!
