//! The generator catalog: the fixed table of generator kinds, the price
//! curve, and the production rate that a set of holdings yields.

use crate::errors::IdleGameError;
use crate::price::{
    floating_price,
    lemma_from_integer,
    lemma_price_at_zero,
    lemma_price_saturates,
    scaled_cost,
    Binary64,
    SATURATION_COUNT,
};
use vstd::arithmetic::power2::{lemma2_to64, pow2};
use vstd::prelude::*;

verus! {

/// Number of generator slots in a player record.
pub const MAX_GENERATORS: usize = 10;

/// Decimal places of the currency: one token is `10^DECIMALS` units.
pub const DECIMALS: u8 = 9;

/// Reference production rate, in units per second.
pub const BASE_PRODUCTION_RATE: u64 = 100;

/// One kind of generator.
#[derive(Clone, Copy, Debug, PartialEq, Eq)]
pub struct GeneratorType {
    pub id: u8,
    /// Price of the first unit, in currency units.
    pub base_cost: u64,
    /// Currency units that one generator of this kind yields per second.
    pub production_rate: u64,
}

/// Number of generator kinds in the catalog.
pub const GENERATOR_TYPE_COUNT: usize = 5;

/// The catalog as a mathematical table. Entry `i` has `id == i`.
pub open spec fn catalog() -> Seq<GeneratorType> {
    seq![
        GeneratorType { id: 0, base_cost: 10_000_000_000, production_rate: 1_000_000_000 },
        GeneratorType { id: 1, base_cost: 100_000_000_000, production_rate: 15_000_000_000 },
        GeneratorType { id: 2, base_cost: 1_100_000_000_000, production_rate: 180_000_000_000 },
        GeneratorType { id: 3, base_cost: 12_000_000_000_000, production_rate: 2_400_000_000_000 },
        GeneratorType { id: 4, base_cost: 130_000_000_000_000, production_rate: 33_000_000_000_000 },
    ]
}

/// The catalog, by value.
pub fn generator_types() -> (table: [GeneratorType; GENERATOR_TYPE_COUNT])
    ensures
        table@ == catalog(),
{
    let table = [
        GeneratorType { id: 0, base_cost: 10_000_000_000, production_rate: 1_000_000_000 },
        GeneratorType { id: 1, base_cost: 100_000_000_000, production_rate: 15_000_000_000 },
        GeneratorType { id: 2, base_cost: 1_100_000_000_000, production_rate: 180_000_000_000 },
        GeneratorType { id: 3, base_cost: 12_000_000_000_000, production_rate: 2_400_000_000_000 },
        GeneratorType { id: 4, base_cost: 130_000_000_000_000, production_rate: 33_000_000_000_000 },
    ];
    assert(table@ =~= catalog());
    table
}

/// Table lookup of a generator kind: `None` where the catalog has no kind
/// with this id.
pub fn generator_type(generator_id: u8) -> (kind: Option<GeneratorType>)
    ensures
        generator_id < GENERATOR_TYPE_COUNT ==> kind == Some(catalog()[generator_id as int]),
        generator_id >= GENERATOR_TYPE_COUNT ==> kind.is_none(),
{
    if generator_id as usize >= GENERATOR_TYPE_COUNT {
        return None;
    }
    let table = generator_types();
    Some(table[generator_id as usize])
}

/// What the catalog says of each entry.
pub proof fn lemma_catalog()
    ensures
        catalog().len() == GENERATOR_TYPE_COUNT,
        forall|i: int| 0 <= i < catalog().len() ==> (#[trigger] catalog()[i]).id == i,
        forall|i: int|
            0 <= i < catalog().len() ==> 10_000_000_000 <= (#[trigger] catalog()[i]).base_cost
                <= 130_000_000_000_000,
        forall|i: int|
            0 <= i < catalog().len() ==> (#[trigger] catalog()[i]).production_rate
                <= 33_000_000_000_000,
{
}

/// Price of the next unit of kind `generator_id` for a player who holds
/// `current_count` units of that kind: the base price times
/// `1.15^current_count` in binary64 arithmetic, truncated toward zero and
/// clamped to the 64-bit range. It depends on the holding of that kind alone.
pub open spec fn generator_cost(generator_id: u8, current_count: u32) -> nat
    recommends
        generator_id < GENERATOR_TYPE_COUNT,
{
    floating_price(catalog()[generator_id as int].base_cost, current_count as nat)
}

/// The first unit of every kind costs its base price.
pub proof fn lemma_first_unit_costs_base(generator_id: u8)
    requires
        generator_id < GENERATOR_TYPE_COUNT,
    ensures
        generator_cost(generator_id, 0) == catalog()[generator_id as int].base_cost,
{
    lemma2_to64();
    let base = catalog()[generator_id as int].base_cost;
    let shift: nat = if generator_id == 0 {
        19
    } else if generator_id == 1 {
        16
    } else if generator_id == 2 {
        12
    } else if generator_id == 3 {
        9
    } else {
        6
    };
    assert(0x10_0000_0000_0000 <= base * pow2(shift) < 0x20_0000_0000_0000);
    lemma_price_at_zero(base, shift);
}

/// From a holding of `SATURATION_COUNT` on, which includes every holding of
/// `2^31` and more, each kind costs the largest 64-bit amount.
pub proof fn lemma_cost_saturates(generator_id: u8, current_count: u32)
    requires
        generator_id < GENERATOR_TYPE_COUNT,
        current_count >= SATURATION_COUNT,
    ensures
        generator_cost(generator_id, current_count) == u64::MAX,
{
    lemma_price_saturates(catalog()[generator_id as int].base_cost, current_count as nat);
}

/// Three prices worked out: at one unit held the cheapest kind costs an exact
/// 15% more, at two units the rounding of the square of the multiplier
/// shows, and for the second kind it shows at one unit already.
pub proof fn lemma_worked_prices()
    ensures
        generator_cost(0, 1) == 11_500_000_000,
        generator_cost(0, 2) == 13_224_999_999,
        generator_cost(1, 1) == 114_999_999_999,
{
    lemma2_to64();
    let one = Binary64::one();
    let a = Binary64::multiplier();
    let square = Binary64::Finite { mantissa: 5_956_010_507_197_480, exponent: -52i32 };
    assert(4_503_599_627_370_496nat * 5_179_139_571_476_070nat == 23_324_771_044_199_419_186_099_488_030_720nat);
    assert(23_324_771_044_199_419_186_099_488_030_720nat / 4_503_599_627_370_496 == 5_179_139_571_476_070 && 23_324_771_044_199_419_186_099_488_030_720nat % 4_503_599_627_370_496 == 0);
    assert(one.product(a) == a);
    assert(5_179_139_571_476_070nat * 5_179_139_571_476_070nat == 26_823_486_700_829_329_992_358_582_644_900nat);
    assert(26_823_486_700_829_329_992_358_582_644_900nat / 4_503_599_627_370_496 == 5_956_010_507_197_480 && 26_823_486_700_829_329_992_358_582_644_900nat % 4_503_599_627_370_496 == 180_143_985_094_820);
    assert(a.product(a) == square);
    assert(4_503_599_627_370_496nat * 5_956_010_507_197_480nat == 26_823_486_700_829_329_812_214_597_550_080nat);
    assert(26_823_486_700_829_329_812_214_597_550_080nat / 4_503_599_627_370_496 == 5_956_010_507_197_480 && 26_823_486_700_829_329_812_214_597_550_080nat % 4_503_599_627_370_496 == 0);
    assert(one.product(square) == square);
    assert(a.power(1) == a);
    assert(a.power(2) == square) by {
        reveal_with_fuel(Binary64::power_from, 2);
    }
    let first = Binary64::Finite { mantissa: 5_242_880_000_000_000, exponent: -19i32 };
    lemma_from_integer(10_000_000_000, 19);
    assert(Binary64::from_integer(10_000_000_000) == first);
    assert(5_242_880_000_000_000nat * 5_179_139_571_476_070nat == 27_153_607_276_500_457_881_600_000_000_000nat);
    assert(27_153_607_276_500_457_881_600_000_000_000nat / 4_503_599_627_370_496 == 6_029_311_999_999_999 && 27_153_607_276_500_457_881_600_000_000_000nat % 4_503_599_627_370_496 == 2_406_447_627_370_496);
    assert(first.product(a) == (Binary64::Finite {
        mantissa: 6_029_312_000_000_000,
        exponent: -19i32,
    }));
    assert(5_242_880_000_000_000nat * 5_956_010_507_197_480nat == 31_226_648_367_975_523_942_400_000_000_000nat);
    assert(31_226_648_367_975_523_942_400_000_000_000nat / 4_503_599_627_370_496 == 6_933_708_799_999_998 && 31_226_648_367_975_523_942_400_000_000_000nat % 4_503_599_627_370_496 == 3_974_034_454_740_992);
    assert(first.product(square) == (Binary64::Finite {
        mantissa: 6_933_708_799_999_999,
        exponent: -19i32,
    }));
    let second = Binary64::Finite { mantissa: 6_553_600_000_000_000, exponent: -16i32 };
    lemma_from_integer(100_000_000_000, 16);
    assert(Binary64::from_integer(100_000_000_000) == second);
    assert(6_553_600_000_000_000nat * 5_179_139_571_476_070nat == 33_942_009_095_625_572_352_000_000_000_000nat);
    assert(33_942_009_095_625_572_352_000_000_000_000nat / 4_503_599_627_370_496 == 7_536_639_999_999_999 && 33_942_009_095_625_572_352_000_000_000_000nat % 4_503_599_627_370_496 == 1_882_159_627_370_496);
    assert(second.product(a) == (Binary64::Finite {
        mantissa: 7_536_639_999_999_999,
        exponent: -16i32,
    }));
    assert(pow2(19) == 524288 && pow2(16) == 65536);
    assert(6_029_312_000_000_000nat / 524288 == 11_500_000_000);
    assert(6_933_708_799_999_999nat / 524288 == 13_224_999_999);
    assert(7_536_639_999_999_999nat / 65536 == 114_999_999_999);
    assert(first.product(a).truncated() == 11_500_000_000);
    assert(first.product(square).truncated() == 13_224_999_999);
    assert(second.product(a).truncated() == 114_999_999_999);
    assert(catalog()[0].base_cost == 10_000_000_000);
    assert(catalog()[1].base_cost == 100_000_000_000);
}

/// Price of the next unit of kind `generator_id` at holding `current_count`,
/// or `InvalidGeneratorType` where the catalog has no such kind.
pub fn get_generator_cost(generator_id: u8, current_count: u32) -> (res: Result<u64, IdleGameError>)
    ensures
        generator_id < GENERATOR_TYPE_COUNT ==> (res matches Ok(cost) && cost == generator_cost(
            generator_id,
            current_count,
        )),
        generator_id >= GENERATOR_TYPE_COUNT ==> res == Err::<u64, IdleGameError>(
            IdleGameError::InvalidGeneratorType,
        ),
{
    match generator_type(generator_id) {
        None => Err(IdleGameError::InvalidGeneratorType),
        Some(kind) => {
            proof {
                lemma_catalog();
            }
            Ok(scaled_cost(kind.base_cost, current_count))
        },
    }
}

/// Units per second that one generator of kind `generator_id` yields, or
/// `InvalidGeneratorType` where the catalog has no such kind.
pub fn production_rate_of(generator_id: u8) -> (res: Result<u64, IdleGameError>)
    ensures
        generator_id < GENERATOR_TYPE_COUNT ==> res == Ok::<u64, IdleGameError>(
            catalog()[generator_id as int].production_rate,
        ),
        generator_id >= GENERATOR_TYPE_COUNT ==> res == Err::<u64, IdleGameError>(
            IdleGameError::InvalidGeneratorType,
        ),
{
    match generator_type(generator_id) {
        None => Err(IdleGameError::InvalidGeneratorType),
        Some(kind) => Ok(kind.production_rate),
    }
}

/// Units per second that the first `kinds` kinds of the catalog yield together
/// for the holdings `generators`.
pub open spec fn production_of(generators: Seq<u32>, kinds: nat) -> nat
    recommends
        kinds <= catalog().len(),
        kinds <= generators.len(),
    decreases kinds,
{
    if kinds == 0 {
        0
    } else {
        production_of(generators, (kinds - 1) as nat) + generators[kinds - 1] as nat
            * catalog()[kinds - 1].production_rate as nat
    }
}

/// Units per second that the holdings `generators` yield: the sum, over the
/// catalog, of holding times rate.
pub open spec fn total_production(generators: Seq<u32>) -> nat
    recommends
        catalog().len() <= generators.len(),
{
    production_of(generators, catalog().len())
}

/// The production rate written out over the five kinds of the catalog.
pub proof fn lemma_total_production(generators: Seq<u32>)
    requires
        generators.len() >= GENERATOR_TYPE_COUNT,
    ensures
        total_production(generators) == 1_000_000_000 * generators[0] + 15_000_000_000
            * generators[1] + 180_000_000_000 * generators[2] + 2_400_000_000_000 * generators[3]
            + 33_000_000_000_000 * generators[4],
{
    reveal_with_fuel(production_of, 6);
    let rate = |i: int| catalog()[i].production_rate as nat;
    assert(rate(0) == 1_000_000_000 && rate(1) == 15_000_000_000 && rate(2) == 180_000_000_000
        && rate(3) == 2_400_000_000_000 && rate(4) == 33_000_000_000_000);
    assert(generators[0] as nat * rate(0) == 1_000_000_000 * generators[0]) by (nonlinear_arith)
        requires
            rate(0) == 1_000_000_000,
    ;
    assert(generators[1] as nat * rate(1) == 15_000_000_000 * generators[1]) by (nonlinear_arith)
        requires
            rate(1) == 15_000_000_000,
    ;
    assert(generators[2] as nat * rate(2) == 180_000_000_000 * generators[2]) by (nonlinear_arith)
        requires
            rate(2) == 180_000_000_000,
    ;
    assert(generators[3] as nat * rate(3) == 2_400_000_000_000 * generators[3])
        by (nonlinear_arith)
        requires
            rate(3) == 2_400_000_000_000,
    ;
    assert(generators[4] as nat * rate(4) == 33_000_000_000_000 * generators[4])
        by (nonlinear_arith)
        requires
            rate(4) == 33_000_000_000_000,
    ;
}

/// The production rate of the holdings `generators`, or `ArithmeticOverflow`
/// where it exceeds the 64-bit range. Slots beyond the catalog count for
/// nothing.
pub fn calculate_production_rate(generators: &[u32; MAX_GENERATORS]) -> (res: Result<
    u64,
    IdleGameError,
>)
    ensures
        total_production(generators@) <= u64::MAX ==> res == Ok::<u64, IdleGameError>(
            total_production(generators@) as u64,
        ),
        total_production(generators@) > u64::MAX ==> res == Err::<u64, IdleGameError>(
            IdleGameError::ArithmeticOverflow,
        ),
{
    let table = generator_types();
    let mut total: u128 = 0;
    let mut i: usize = 0;
    proof {
        lemma_catalog();
    }
    while i < GENERATOR_TYPE_COUNT
        invariant
            i <= GENERATOR_TYPE_COUNT,
            table@ == catalog(),
            catalog().len() == GENERATOR_TYPE_COUNT,
            total == production_of(generators@, i as nat),
            total <= i * 0x1_0000_0000_0000_0000_0000,
        decreases GENERATOR_TYPE_COUNT - i,
    {
        let rate: u128 = table[i].production_rate as u128;
        let count: u128 = generators[i] as u128;
        proof {
            lemma_catalog();
            assert(0 <= rate * count <= 0x1_0000_0000_0000_0000_0000) by (nonlinear_arith)
                requires
                    0 <= rate <= 33_000_000_000_000,
                    0 <= count <= 0xffff_ffff,
            ;
            assert(rate * count == count * rate) by (nonlinear_arith);
        }
        total = total + rate * count;
        i += 1;
    }
    if total > u64::MAX as u128 {
        Err(IdleGameError::ArithmeticOverflow)
    } else {
        Ok(total as u64)
    }
}

} // verus!
