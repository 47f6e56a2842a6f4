//! The price curve, in binary64 arithmetic carried out on integers.
//!
//! The price of a unit bought at holding `count` is the base price times
//! `1.15^count`, evaluated the way a machine evaluates it in IEEE 754 double
//! precision, then cut off toward zero. To get the same amount on every
//! machine, the arithmetic is done here on a 53-bit mantissa and an exponent:
//!
//! - the multiplier is the binary64 nearest to 1.15;
//! - every product is rounded to the nearest binary64, ties to the even
//!   mantissa, and becomes infinite from `2^1024` on;
//! - the power is taken by squaring, lowest bit of the exponent first;
//! - the result is truncated toward zero and clamped to the 64-bit range.
//!
//! The amounts are those of binary64, not of the rationals: at a holding of
//! two, a base price of 10_000_000_000 gives 13_224_999_999, one unit below
//! the exact product.

use vstd::arithmetic::div_mod::{lemma_div_denominator, lemma_div_multiples_vanish};
use vstd::arithmetic::power2::{
    lemma2_to64,
    lemma2_to64_rest,
    lemma_pow2_pos,
    lemma_pow2_strictly_increases,
    lemma_pow2_unfold,
    pow2,
};
use vstd::prelude::*;

verus! {

/// `2^52`: the least mantissa of a normal binary64.
pub const MANTISSA_MIN: u64 = 0x10_0000_0000_0000;

/// `2^53`: one past the greatest mantissa.
pub const MANTISSA_END: u64 = 0x20_0000_0000_0000;

/// Exponent of the least bit of a mantissa whose value is in `[1, 2)`.
pub const EXPONENT_OF_ONE: i32 = -52;

/// Greatest exponent of the least bit of a finite binary64.
pub const EXPONENT_MAX: i32 = 971;

/// Mantissa of the binary64 nearest to 1.15; its exponent is
/// `EXPONENT_OF_ONE`.
pub const COST_MULTIPLIER_MANTISSA: u64 = 0x12_6666_6666_6666;

/// Holding from which the power of the multiplier is infinite, and every
/// price the largest 64-bit amount.
pub const SATURATION_COUNT: u32 = 8192;

/// A binary64 value of at least one: `mantissa * 2^exponent`, or positive
/// infinity.
#[derive(Clone, Copy, Debug, PartialEq, Eq)]
pub enum Binary64 {
    Finite { mantissa: u64, exponent: i32 },
    Infinite,
}

/// `p / unit` rounded to the nearest integer, a tie going to the even one.
pub open spec fn nearest_even(p: nat, unit: nat) -> nat
    recommends
        unit > 0,
{
    let q = p / unit;
    let r = p % unit;
    if 2 * r > unit || (2 * r == unit && q % 2 == 1) {
        q + 1
    } else {
        q
    }
}

impl Binary64 {
    /// The mantissa has 53 bits and the value is finite and at least one, or
    /// the value is infinite.
    pub open spec fn wf(self) -> bool {
        match self {
            Binary64::Infinite => true,
            Binary64::Finite { mantissa, exponent } => {
                &&& MANTISSA_MIN <= mantissa < MANTISSA_END
                &&& EXPONENT_OF_ONE <= exponent <= EXPONENT_MAX
            },
        }
    }

    /// The value one.
    pub open spec fn one() -> Binary64 {
        Binary64::Finite { mantissa: MANTISSA_MIN, exponent: EXPONENT_OF_ONE }
    }

    /// The binary64 nearest to 1.15.
    pub open spec fn multiplier() -> Binary64 {
        Binary64::Finite { mantissa: COST_MULTIPLIER_MANTISSA, exponent: EXPONENT_OF_ONE }
    }

    /// The binary64 with the value `mantissa * 2^exponent`, its mantissa
    /// brought to 53 bits.
    pub open spec fn normalized(mantissa: nat, exponent: int) -> Binary64
        recommends
            0 < mantissa < MANTISSA_END,
        decreases
                if 0 < mantissa < MANTISSA_MIN {
                    MANTISSA_MIN - mantissa
                } else {
                    0
                },
    {
        if 0 < mantissa < MANTISSA_MIN {
            Binary64::normalized(2 * mantissa, exponent - 1)
        } else {
            Binary64::Finite { mantissa: mantissa as u64, exponent: exponent as i32 }
        }
    }

    /// The binary64 of a positive integer below `2^53`, which it holds
    /// exactly.
    pub open spec fn from_integer(x: u64) -> Binary64
        recommends
            0 < x < MANTISSA_END,
    {
        Binary64::normalized(x as nat, 0)
    }

    /// The binary64 product: the exact product of the two values, rounded to
    /// 53 bits to the nearest, ties to even, and infinite from `2^1024` on.
    pub open spec fn product(self, other: Binary64) -> Binary64
        recommends
            self.wf(),
            other.wf(),
    {
        match (self, other) {
            (
                Binary64::Finite { mantissa: m1, exponent: e1 },
                Binary64::Finite { mantissa: m2, exponent: e2 },
            ) => {
                let p = (m1 * m2) as nat;
                let wide = p >= 0x200_0000_0000_0000_0000_0000_0000;
                let rounded = if wide {
                    nearest_even(p, MANTISSA_END as nat)
                } else {
                    nearest_even(p, MANTISSA_MIN as nat)
                };
                let carried = rounded == MANTISSA_END;
                let mantissa = if carried {
                    MANTISSA_MIN as nat
                } else {
                    rounded
                };
                let exponent = e1 + e2 + 52 + (if wide {
                    1int
                } else {
                    0int
                }) + (if carried {
                    1int
                } else {
                    0int
                });
                if exponent > EXPONENT_MAX {
                    Binary64::Infinite
                } else {
                    Binary64::Finite { mantissa: mantissa as u64, exponent: exponent as i32 }
                }
            },
            _ => Binary64::Infinite,
        }
    }

    /// The power by squaring, lowest bit first: `result` times `self^count`,
    /// with a product for every set bit of `count` and a squaring between
    /// two bits.
    pub open spec fn power_from(self, count: nat, result: Binary64) -> Binary64
        decreases count,
    {
        let next = if count % 2 == 1 {
            result.product(self)
        } else {
            result
        };
        if count / 2 == 0 {
            next
        } else {
            self.product(self).power_from(count / 2, next)
        }
    }

    /// `self^count` in binary64.
    pub open spec fn power(self, count: nat) -> Binary64 {
        self.power_from(count, Binary64::one())
    }

    /// `self` squared `times` times over: `self^(2^times)` in binary64.
    pub open spec fn squared(self, times: nat) -> Binary64
        decreases times,
    {
        if times == 0 {
            self
        } else {
            self.product(self).squared((times - 1) as nat)
        }
    }

    /// The value cut off toward zero and clamped to the 64-bit range.
    pub open spec fn truncated(self) -> nat {
        match self {
            Binary64::Infinite => u64::MAX as nat,
            Binary64::Finite { mantissa, exponent } => if exponent >= 0 {
                if mantissa * pow2(exponent as nat) > u64::MAX {
                    u64::MAX as nat
                } else {
                    (mantissa * pow2(exponent as nat)) as nat
                }
            } else {
                mantissa as nat / pow2((-exponent) as nat)
            },
        }
    }

    fn multiply(self, other: Binary64) -> (r: Binary64)
        requires
            self.wf(),
            other.wf(),
        ensures
            r == self.product(other),
            r.wf(),
    {
        match (self, other) {
            (
                Binary64::Finite { mantissa: m1, exponent: e1 },
                Binary64::Finite { mantissa: m2, exponent: e2 },
            ) => {
                assert(0x100_0000_0000_0000_0000_0000_0000 <= m1 * m2
                    < 0x400_0000_0000_0000_0000_0000_0000) by (nonlinear_arith)
                    requires
                        0x10_0000_0000_0000 <= m1 < 0x20_0000_0000_0000,
                        0x10_0000_0000_0000 <= m2 < 0x20_0000_0000_0000,
                ;
                let p: u128 = m1 as u128 * m2 as u128;
                let wide = p >= 0x200_0000_0000_0000_0000_0000_0000;
                let unit: u128 = if wide {
                    0x20_0000_0000_0000
                } else {
                    0x10_0000_0000_0000
                };
                let q: u128 = p / unit;
                let rest: u128 = p % unit;
                let rounded: u128 = if 2 * rest > unit || (2 * rest == unit && q % 2 == 1) {
                    q + 1
                } else {
                    q
                };
                let carried = rounded == 0x20_0000_0000_0000;
                let mantissa: u64 = if carried {
                    0x10_0000_0000_0000
                } else {
                    rounded as u64
                };
                let mut exponent: i32 = e1 + e2 + 52;
                if wide {
                    exponent = exponent + 1;
                }
                if carried {
                    exponent = exponent + 1;
                }
                if exponent > EXPONENT_MAX {
                    Binary64::Infinite
                } else {
                    Binary64::Finite { mantissa, exponent }
                }
            },
            _ => Binary64::Infinite,
        }
    }

    fn raise(self, count: u32) -> (r: Binary64)
        requires
            self.wf(),
        ensures
            r == self.power(count as nat),
            r.wf(),
    {
        let mut a = self;
        let mut b = count;
        let mut r = Binary64::Finite { mantissa: MANTISSA_MIN, exponent: EXPONENT_OF_ONE };
        loop
            invariant_except_break
                a.wf(),
                r.wf(),
                a.power_from(b as nat, r) == self.power(count as nat),
            ensures
                r.wf(),
                r == self.power(count as nat),
            decreases b,
        {
            if b % 2 == 1 {
                r = r.multiply(a);
            }
            b = b / 2;
            if b == 0 {
                break ;
            }
            a = a.multiply(a);
        }
        r
    }

    fn convert(x: u64) -> (r: Binary64)
        requires
            0 < x < MANTISSA_END,
        ensures
            r == Binary64::from_integer(x),
            r.wf(),
    {
        let mut mantissa = x;
        let mut exponent: i32 = 0;
        proof {
            lemma2_to64();
            assert(x * pow2(0) == x) by (nonlinear_arith)
                requires
                    pow2(0) == 1,
            ;
        }
        while mantissa < MANTISSA_MIN
            invariant
                0 < x < MANTISSA_END,
                0 < mantissa < MANTISSA_END,
                EXPONENT_OF_ONE <= exponent <= 0,
                mantissa == x * pow2((-exponent) as nat),
                Binary64::normalized(mantissa as nat, exponent as int) == Binary64::normalized(
                    x as nat,
                    0,
                ),
            decreases 52 + exponent,
        {
            proof {
                let k = (-exponent) as nat;
                lemma2_to64_rest();
                lemma_pow2_pos(k);
                lemma_pow2_unfold(k + 1);
                assert(pow2(k) <= x * pow2(k)) by (nonlinear_arith)
                    requires
                        x >= 1,
                        pow2(k) > 0,
                ;
                assert(x * (2 * pow2(k)) == 2 * (x * pow2(k))) by (nonlinear_arith);
            }
            mantissa = mantissa * 2;
            exponent = exponent - 1;
        }
        Binary64::Finite { mantissa, exponent }
    }

    fn truncate(self) -> (amount: u64)
        requires
            self.wf(),
        ensures
            amount == self.truncated(),
    {
        match self {
            Binary64::Infinite => u64::MAX,
            Binary64::Finite { mantissa, exponent } => {
                if exponent >= 12 {
                    proof {
                        lemma2_to64();
                        if exponent > 12 {
                            lemma_pow2_strictly_increases(12, exponent as nat);
                        }
                        assert(mantissa * pow2(exponent as nat) > u64::MAX) by (nonlinear_arith)
                            requires
                                mantissa >= 0x10_0000_0000_0000,
                                pow2(exponent as nat) >= 4096,
                        ;
                    }
                    u64::MAX
                } else if exponent >= 0 {
                    let mut amount: u64 = mantissa;
                    let mut k: i32 = 0;
                    proof {
                        lemma2_to64();
                        assert(mantissa * pow2(0) == mantissa) by (nonlinear_arith)
                            requires
                                pow2(0) == 1,
                        ;
                    }
                    while k < exponent
                        invariant
                            0 <= k <= exponent < 12,
                            mantissa < MANTISSA_END,
                            amount == mantissa * pow2(k as nat),
                        decreases exponent - k,
                    {
                        proof {
                            lemma2_to64();
                            lemma_pow2_unfold((k + 1) as nat);
                            if k + 1 < 11 {
                                lemma_pow2_strictly_increases((k + 1) as nat, 11);
                            }
                            assert(mantissa * (2 * pow2(k as nat)) == 2 * (mantissa * pow2(
                                k as nat,
                            ))) by (nonlinear_arith);
                            assert(mantissa * pow2((k + 1) as nat) < 0x20_0000_0000_0000 * 2048)
                                by (nonlinear_arith)
                                requires
                                    mantissa < 0x20_0000_0000_0000,
                                    0 < pow2((k + 1) as nat) <= 2048,
                            ;
                        }
                        amount = amount * 2;
                        k = k + 1;
                    }
                    amount
                } else {
                    let mut amount: u64 = mantissa;
                    let mut k: i32 = 0;
                    proof {
                        lemma2_to64();
                        assert(mantissa as nat / 1 == mantissa);
                    }
                    while k < -exponent
                        invariant
                            0 <= k <= -exponent <= 52,
                            amount == mantissa as nat / pow2(k as nat),
                        decreases -exponent - k,
                    {
                        proof {
                            lemma_pow2_unfold((k + 1) as nat);
                            lemma_pow2_pos(k as nat);
                            lemma_div_denominator(mantissa as int, pow2(k as nat) as int, 2);
                        }
                        amount = amount / 2;
                        k = k + 1;
                    }
                    amount
                }
            },
        }
    }
}

/// The price at holding `count` for a base price of `base`: the binary64
/// product of the base price and `1.15^count`, truncated toward zero and
/// clamped to the largest 64-bit amount.
pub open spec fn floating_price(base: u64, count: nat) -> nat
    recommends
        0 < base < MANTISSA_END,
{
    Binary64::from_integer(base).product(Binary64::multiplier().power(count)).truncated()
}

/// The price of one unit at holding `count`, for a kind whose first unit
/// costs `base_cost`.
pub(crate) fn scaled_cost(base_cost: u64, count: u32) -> (cost: u64)
    requires
        0 < base_cost < MANTISSA_END,
    ensures
        cost == floating_price(base_cost, count as nat),
{
    let multiplier = Binary64::Finite {
        mantissa: COST_MULTIPLIER_MANTISSA,
        exponent: EXPONENT_OF_ONE,
    };
    let growth = multiplier.raise(count);
    let base = Binary64::convert(base_cost);
    base.multiply(growth).truncate()
}

proof fn lemma_normalized(mantissa: nat, exponent: int, shift: nat)
    requires
        MANTISSA_MIN <= mantissa * pow2(shift) < MANTISSA_END,
    ensures
        Binary64::normalized(mantissa, exponent) == (Binary64::Finite {
            mantissa: (mantissa * pow2(shift)) as u64,
            exponent: (exponent - shift) as i32,
        }),
    decreases shift,
{
    lemma2_to64();
    lemma_pow2_pos(shift);
    if shift == 0 {
        assert(mantissa * pow2(0) == mantissa) by (nonlinear_arith)
            requires
                pow2(0) == 1,
        ;
    } else {
        lemma_pow2_unfold(shift);
        let rest = (shift - 1) as nat;
        lemma_pow2_pos(rest);
        assert(mantissa * pow2(shift) == (2 * mantissa) * pow2(rest)) by (nonlinear_arith)
            requires
                pow2(shift) == 2 * pow2(rest),
        ;
        assert(0 < mantissa < 0x10_0000_0000_0000) by (nonlinear_arith)
            requires
                0x10_0000_0000_0000 <= mantissa * pow2(shift) < 0x20_0000_0000_0000,
                pow2(shift) == 2 * pow2(rest),
                pow2(rest) >= 1,
                mantissa >= 0,
        ;
        lemma_normalized(2 * mantissa, exponent - 1, rest);
    }
}

/// An integer brought to 53 bits keeps its value: the mantissa is the
/// integer times `2^shift` and the exponent is `-shift`.
pub proof fn lemma_from_integer(x: u64, shift: nat)
    requires
        MANTISSA_MIN <= x * pow2(shift) < MANTISSA_END,
    ensures
        Binary64::from_integer(x) == (Binary64::Finite {
            mantissa: (x * pow2(shift)) as u64,
            exponent: (-(shift as int)) as i32,
        }),
{
    lemma_normalized(x as nat, 0, shift);
}

/// The first unit costs the base price: the power with exponent zero is one,
/// and the product with one is exact.
pub proof fn lemma_price_at_zero(base: u64, shift: nat)
    requires
        MANTISSA_MIN <= base * pow2(shift) < MANTISSA_END,
    ensures
        floating_price(base, 0) == base,
{
    lemma2_to64();
    lemma2_to64_rest();
    lemma_pow2_pos(shift);
    assert(base >= 1) by (nonlinear_arith)
        requires
            base * pow2(shift) >= 1,
            base >= 0,
    ;
    assert(pow2(shift) <= base * pow2(shift)) by (nonlinear_arith)
        requires
            base >= 1,
            pow2(shift) > 0,
    ;
    if shift > 53 {
        lemma_pow2_strictly_increases(53, shift);
    }
    assert(shift <= 52);
    let m = (base * pow2(shift)) as u64;
    let whole = Binary64::Finite { mantissa: m, exponent: (-(shift as int)) as i32 };
    lemma_from_integer(base, shift);
    assert(Binary64::from_integer(base) == whole);
    assert(Binary64::multiplier().power(0) == Binary64::one());
    let p = (m * 0x10_0000_0000_0000) as nat;
    assert(p < 0x200_0000_0000_0000_0000_0000_0000) by (nonlinear_arith)
        requires
            p == m * 0x10_0000_0000_0000,
            m < 0x20_0000_0000_0000,
    ;
    assert(p / 0x10_0000_0000_0000 == m && p % 0x10_0000_0000_0000 == 0);
    assert(nearest_even(p, 0x10_0000_0000_0000) == m);
    assert(whole.product(Binary64::one()) == whole);
    if shift == 0 {
        assert(base * pow2(0) == base) by (nonlinear_arith)
            requires
                pow2(0) == 1,
        ;
    } else {
        lemma_div_multiples_vanish(base as int, pow2(shift) as int);
        assert(base * pow2(shift) == pow2(shift) * base) by (nonlinear_arith);
    }
    assert(whole.truncated() == base);
}

proof fn lemma_infinite_result(a: Binary64, count: nat)
    ensures
        a.power_from(count, Binary64::Infinite) == Binary64::Infinite,
    decreases count,
{
    if count / 2 != 0 {
        lemma_infinite_result(a.product(a), count / 2);
    }
}

proof fn lemma_infinite_base(count: nat, result: Binary64)
    requires
        count >= 1,
    ensures
        Binary64::Infinite.power_from(count, result) == Binary64::Infinite,
    decreases count,
{
    if count % 2 == 1 {
        if count / 2 != 0 {
            lemma_infinite_result(Binary64::Infinite, count / 2);
        }
    } else {
        lemma_infinite_base(count / 2, result);
    }
}

/// A power is infinite as soon as one of the squares that it is made of is:
/// where `a^(2^times)` is infinite, so is `a^count` for every `count` from
/// `2^times` on.
pub proof fn lemma_power_overflows(a: Binary64, times: nat, count: nat, result: Binary64)
    requires
        a.squared(times) == Binary64::Infinite,
        count >= pow2(times),
    ensures
        a.power_from(count, result) == Binary64::Infinite,
    decreases times,
{
    lemma2_to64();
    if times == 0 {
        lemma_infinite_base(count, result);
    } else {
        lemma_pow2_unfold(times);
        lemma_pow2_pos((times - 1) as nat);
        let next = if count % 2 == 1 {
            result.product(a)
        } else {
            result
        };
        lemma_power_overflows(a.product(a), (times - 1) as nat, count / 2, next);
    }
}

/// The squares of the multiplier, `1.15^(2^step)` in binary64, for the steps
/// at which they are finite.
pub open spec fn multiplier_square(step: nat) -> Binary64 {
    if step == 0 {
        Binary64::multiplier()
    } else if step == 1 {
        Binary64::Finite { mantissa: 5_956_010_507_197_480, exponent: -52i32 }
    } else if step == 2 {
        Binary64::Finite { mantissa: 7_876_823_895_768_666, exponent: -52i32 }
    } else if step == 3 {
        Binary64::Finite { mantissa: 6_888_307_111_924_370, exponent: -51i32 }
    } else if step == 4 {
        Binary64::Finite { mantissa: 5_267_872_234_891_763, exponent: -49i32 }
    } else if step == 5 {
        Binary64::Finite { mantissa: 6_161_843_898_043_426, exponent: -46i32 }
    } else if step == 6 {
        Binary64::Finite { mantissa: 8_430_660_663_772_960, exponent: -40i32 }
    } else if step == 7 {
        Binary64::Finite { mantissa: 7_891_025_524_974_085, exponent: -27i32 }
    } else if step == 8 {
        Binary64::Finite { mantissa: 6_913_168_241_839_133, exponent: -1i32 }
    } else if step == 9 {
        Binary64::Finite { mantissa: 5_305_966_237_486_933, exponent: 51i32 }
    } else if step == 10 {
        Binary64::Finite { mantissa: 6_251_283_427_205_765, exponent: 154i32 }
    } else if step == 11 {
        Binary64::Finite { mantissa: 8_677_179_971_718_342, exponent: 360i32 }
    } else if step == 12 {
        Binary64::Finite { mantissa: 8_359_252_430_433_220, exponent: 773i32 }
    } else {
        Binary64::Infinite
    }
}

#[verifier::spinoff_prover]
proof fn lemma_square_at(step: nat)
    requires
        step < 13,
    ensures
        multiplier_square(step).product(multiplier_square(step)) == multiplier_square(step + 1),
{
    let a = multiplier_square(step);
    let next = multiplier_square(step + 1);
    if step == 0 {
        let m: nat = 5_179_139_571_476_070;
        let p: nat = 26_823_486_700_829_329_992_358_582_644_900;
        assert(m * m == p);
        assert(p / 4_503_599_627_370_496 == 5_956_010_507_197_480 && p % 4_503_599_627_370_496 == 180_143_985_094_820);
        assert(a.product(a) == next);
    } else if step == 1 {
        let m: nat = 5_956_010_507_197_480;
        let p: nat = 35_474_061_161_846_782_958_883_718_350_400;
        assert(m * m == p);
        assert(p / 4_503_599_627_370_496 == 7_876_823_895_768_666 && p % 4_503_599_627_370_496 == 136_909_428_672_064);
        assert(a.product(a) == next);
    } else if step == 2 {
        let m: nat = 7_876_823_895_768_666;
        let p: nat = 62_044_354_684_952_264_457_738_987_419_556;
        assert(m * m == p);
        assert(p / 9_007_199_254_740_992 == 6_888_307_111_924_370 && p % 9_007_199_254_740_992 == 4_025_839_944_644_516);
        assert(a.product(a) == next);
    } else if step == 3 {
        let m: nat = 6_888_307_111_924_370;
        let p: nat = 47_448_774_868_187_855_210_244_599_896_900;
        assert(m * m == p);
        assert(p / 9_007_199_254_740_992 == 5_267_872_234_891_763 && p % 9_007_199_254_740_992 == 3_562_822_880_648_004);
        assert(a.product(a) == next);
    } else if step == 4 {
        let m: nat = 5_267_872_234_891_763;
        let p: nat = 27_750_477_883_143_537_850_812_325_248_169;
        assert(m * m == p);
        assert(p / 4_503_599_627_370_496 == 6_161_843_898_043_425 && p % 4_503_599_627_370_496 == 4_474_160_353_459_369);
        assert(a.product(a) == next);
    } else if step == 5 {
        let m: nat = 6_161_843_898_043_426;
        let p: nat = 37_968_320_223_855_002_870_230_981_817_476;
        assert(m * m == p);
        assert(p / 4_503_599_627_370_496 == 8_430_660_663_772_960 && p % 4_503_599_627_370_496 == 1_748_259_835_229_316);
        assert(a.product(a) == next);
    } else if step == 6 {
        let m: nat = 8_430_660_663_772_960;
        let p: nat = 71_076_039_227_688_726_501_742_427_161_600;
        assert(m * m == p);
        assert(p / 9_007_199_254_740_992 == 7_891_025_524_974_085 && p % 9_007_199_254_740_992 == 2_934_608_239_969_280);
        assert(a.product(a) == next);
    } else if step == 7 {
        let m: nat = 7_891_025_524_974_085;
        let p: nat = 62_268_283_835_792_533_772_039_921_587_225;
        assert(m * m == p);
        assert(p / 9_007_199_254_740_992 == 6_913_168_241_839_133 && p % 9_007_199_254_740_992 == 1_064_576_276_747_289);
        assert(a.product(a) == next);
    } else if step == 8 {
        let m: nat = 6_913_168_241_839_133;
        let p: nat = 47_791_895_139_973_169_292_854_250_191_689;
        assert(m * m == p);
        assert(p / 9_007_199_254_740_992 == 5_305_966_237_486_933 && p % 9_007_199_254_740_992 == 1_006_258_350_734_153);
        assert(a.product(a) == next);
    } else if step == 9 {
        let m: nat = 5_305_966_237_486_933;
        let p: nat = 28_153_277_713_351_240_284_599_345_746_489;
        assert(m * m == p);
        assert(p / 4_503_599_627_370_496 == 6_251_283_427_205_764 && p % 4_503_599_627_370_496 == 4_377_303_291_007_545);
        assert(a.product(a) == next);
    } else if step == 10 {
        let m: nat = 6_251_283_427_205_765;
        let p: nat = 39_078_544_487_257_454_997_755_649_235_225;
        assert(m * m == p);
        assert(p / 4_503_599_627_370_496 == 8_677_179_971_718_341 && p % 4_503_599_627_370_496 == 3_450_295_083_768_089);
        assert(a.product(a) == next);
    } else if step == 11 {
        let m: nat = 8_677_179_971_718_342;
        let p: nat = 75_293_452_261_589_926_470_972_179_228_964;
        assert(m * m == p);
        assert(p / 9_007_199_254_740_992 == 8_359_252_430_433_220 && p % 9_007_199_254_740_992 == 1_213_222_726_674_724);
        assert(a.product(a) == next);
    } else {
        assert(a.product(a) == next);
    }
}

/// The multiplier squared thirteen times over, which is `1.15^8192`, is
/// beyond the finite binary64 values.
pub proof fn lemma_multiplier_overflows()
    ensures
        Binary64::multiplier().squared(13) == Binary64::Infinite,
{
    lemma_squares(0);
}

proof fn lemma_squares(step: nat)
    requires
        step <= 13,
    ensures
        multiplier_square(step).squared((13 - step) as nat) == Binary64::Infinite,
    decreases 13 - step,
{
    if step < 13 {
        lemma_square_at(step);
        lemma_squares(step + 1);
    }
}

/// From a holding of `SATURATION_COUNT` on, and so for every holding that
/// does not fit 31 bits, the price is the largest 64-bit amount.
pub proof fn lemma_price_saturates(base: u64, count: nat)
    requires
        count >= SATURATION_COUNT,
    ensures
        floating_price(base, count) == u64::MAX,
{
    lemma2_to64();
    lemma_multiplier_overflows();
    lemma_power_overflows(Binary64::multiplier(), 13, count, Binary64::one());
}

} // verus!
