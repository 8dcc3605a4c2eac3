use vstd::prelude::*;

verus! {

/// Prices, amounts, leverage and percentages are fixed-point numbers with six
/// decimal places: the stored integer is the value times `SCALE`.
pub const SCALE: u64 = 1_000_000;

/// The largest price the engine works with (100 000.0).
///
/// The pricing formula multiplies the traded volume by a price change and
/// by a rate, in 128 bits. The two limits, of the price and of the volume,
/// are the powers of ten that fill that width: see `law_limits_fill_the_width`.
pub const MAX_PRICE: u64 = 100_000_000_000;

/// The largest traded volume of one position, invest amount times leverage
/// (10 000 000 000.0). The invest amount and the leverage have no limit of
/// their own.
pub const MAX_VOLUME: u64 = 10_000_000_000_000_000;

/// One hundred percent.
pub const HUNDRED_PERCENT: u64 = 100_000_000;

/// No profit computed from values within the limits above leaves
/// `-MAX_PROFIT ..= MAX_PROFIT`.
pub const MAX_PROFIT: i128 = 2_000_000_000_000_000_000_000_000_000_000_000;

/// The largest amount that `Conversion::convert` accepts: the largest
/// volume at the largest price.
pub const MAX_CONVERTIBLE: u128 = 1_000_000_000_000_000_000_000_000_000;

/// The limits fill the width of the arithmetic: the largest volume, taken
/// at the largest price and converted at the largest rate, fits 128 bits,
/// and ten times as much would not.
pub proof fn law_limits_fill_the_width()
    ensures
        MAX_CONVERTIBLE == MAX_VOLUME * MAX_PRICE,
        MAX_VOLUME * MAX_PRICE * MAX_PRICE <= u128::MAX,
        10 * MAX_VOLUME * MAX_PRICE * MAX_PRICE > u128::MAX,
{
    assert(MAX_VOLUME * MAX_PRICE == 1_000_000_000_000_000_000_000_000_000) by (nonlinear_arith);
    assert(1_000_000_000_000_000_000_000_000_000 * MAX_PRICE
        == 100_000_000_000_000_000_000_000_000_000_000_000_000) by (nonlinear_arith);
}

/// Whether the traded volume of an invest amount at a leverage is within
/// the limit.
pub open spec fn volume_fits(invest: u64, leverage: u64) -> bool {
    scaled_mul(invest as nat, leverage as nat) <= MAX_VOLUME
}

/// Decides `volume_fits`.
pub fn is_volume_within(invest: u64, leverage: u64) -> (r: bool)
    ensures
        r == volume_fits(invest, leverage),
{
    assert((invest as int) * (leverage as int) <= 0xffff_ffff_ffff_ffff * 0xffff_ffff_ffff_ffff)
        by (nonlinear_arith)
        requires
            0 <= invest <= 0xffff_ffff_ffff_ffff,
            0 <= leverage <= 0xffff_ffff_ffff_ffff,
    ;
    mul_div(invest as u128, leverage, SCALE) <= MAX_VOLUME as u128
}

/// The product of two fixed-point numbers, rounded towards zero.
pub open spec fn scaled_mul(a: nat, b: nat) -> nat {
    a * b / (SCALE as nat)
}

/// The quotient of two fixed-point numbers, rounded towards zero. A zero
/// divisor yields zero.
pub open spec fn scaled_div(a: nat, b: nat) -> nat {
    if b == 0 {
        0
    } else {
        a * (SCALE as nat) / b
    }
}

pub proof fn lemma_scaled_mul_bound(a: nat, b: nat, max_a: nat, max_b: nat)
    requires
        a <= max_a,
        b <= max_b,
    ensures
        a * b <= max_a * max_b,
        scaled_mul(a, b) <= max_a * max_b / (SCALE as nat),
        scaled_mul(a, b) <= scaled_mul(max_a, max_b),
{
    assert(a * b <= max_a * max_b) by (nonlinear_arith)
        requires
            a <= max_a,
            b <= max_b,
    ;
    vstd::arithmetic::div_mod::lemma_div_is_ordered(
        (a * b) as int,
        (max_a * max_b) as int,
        SCALE as int,
    );
}

pub proof fn lemma_scaled_div_bound(a: nat, b: nat, max_a: nat)
    requires
        a <= max_a,
    ensures
        scaled_div(a, b) <= max_a * (SCALE as nat),
{
    if b != 0 {
        let n = a * (SCALE as nat);
        assert(n <= max_a * (SCALE as nat)) by (nonlinear_arith)
            requires
                a <= max_a,
                n == a * (SCALE as nat),
        ;
        assert(n / b <= n) by (nonlinear_arith)
            requires
                b >= 1,
        ;
    } else {
        assert(0 <= max_a * (SCALE as nat)) by (nonlinear_arith);
    }
}

/// `a * b / d` without loss in the product.
fn mul_div(a: u128, b: u64, d: u64) -> (r: u128)
    requires
        d > 0,
        a * b <= u128::MAX,
    ensures
        r == (a as nat) * (b as nat) / (d as nat),
{
    (a * (b as u128)) / (d as u128)
}

/// How an amount in one currency becomes an amount in the collateral
/// currency.
#[derive(Clone, Copy, PartialEq, Eq, Debug, Structural)]
pub enum Conversion {
    /// The amount is in the collateral currency already.
    Identity,
    /// The rate is quoted in collateral units: multiply by it.
    Multiply(u64),
    /// The rate is quoted per collateral unit: divide by it.
    Divide(u64),
}

impl Conversion {
    /// The rate stays within the price limit.
    pub open spec fn wf(self) -> bool {
        match self {
            Conversion::Identity => true,
            Conversion::Multiply(rate) => rate <= MAX_PRICE,
            Conversion::Divide(rate) => rate <= MAX_PRICE,
        }
    }

    /// The converted amount.
    pub open spec fn apply(self, amount: nat) -> nat {
        match self {
            Conversion::Identity => amount,
            Conversion::Multiply(rate) => scaled_mul(amount, rate as nat),
            Conversion::Divide(rate) => scaled_div(amount, rate as nat),
        }
    }

    pub proof fn lemma_apply_bound(self, amount: nat, max: nat)
        requires
            self.wf(),
            amount <= max,
        ensures
            self.apply(amount) <= max * (SCALE as nat),
    {
        match self {
            Conversion::Identity => {
                assert(max <= max * (SCALE as nat)) by (nonlinear_arith);
            },
            Conversion::Multiply(rate) => {
                lemma_scaled_mul_bound(amount, rate as nat, max, MAX_PRICE as nat);
                assert(max * (MAX_PRICE as nat) / (SCALE as nat) <= max * (SCALE as nat))
                    by (nonlinear_arith);
            },
            Conversion::Divide(rate) => {
                lemma_scaled_div_bound(amount, rate as nat, max);
            },
        }
    }

    pub fn convert(&self, amount: u128) -> (r: u128)
        requires
            self.wf(),
            amount <= MAX_CONVERTIBLE,
        ensures
            r == self.apply(amount as nat),
    {
        match self {
            Conversion::Identity => amount,
            Conversion::Multiply(rate) => {
                proof {
                    lemma_scaled_mul_bound(
                        amount as nat,
                        *rate as nat,
                        MAX_CONVERTIBLE as nat,
                        MAX_PRICE as nat,
                    );
                }
                mul_div(amount, *rate, SCALE)
            },
            Conversion::Divide(rate) => {
                if *rate == 0 {
                    0
                } else {
                    proof {
                        lemma_scaled_mul_bound(
                            amount as nat,
                            SCALE as nat,
                            MAX_CONVERTIBLE as nat,
                            SCALE as nat,
                        );
                    }
                    mul_div(amount, SCALE, *rate)
                }
            },
        }
    }
}

/// The profit of a position, in collateral units.
///
/// The traded volume is `invest * leverage`. `base_rate` turns it into the
/// invested collateral, which is multiplied by the distance between the
/// active and the open price; `quote_rate` turns that product into collateral
/// units. A long position gains when the price rises, a short one when it
/// falls. The charged swaps are added at the end. Every product and quotient
/// is rounded towards zero.
pub open spec fn profit_formula(
    buy: bool,
    invest: nat,
    leverage: nat,
    open_price: nat,
    base_rate: Conversion,
    active_price: nat,
    quote_rate: Conversion,
    swaps_total: int,
) -> int {
    let volume = scaled_mul(invest, leverage);
    let collateral_invest = base_rate.apply(volume);
    let rise = active_price >= open_price;
    let change = if rise {
        (active_price - open_price) as nat
    } else {
        (open_price - active_price) as nat
    };
    let gross = quote_rate.apply(scaled_mul(collateral_invest, change));
    if rise == buy {
        gross + swaps_total
    } else {
        -gross + swaps_total
    }
}

pub proof fn lemma_profit_bound(
    buy: bool,
    invest: nat,
    leverage: nat,
    open_price: nat,
    base_rate: Conversion,
    active_price: nat,
    quote_rate: Conversion,
    swaps_total: int,
)
    requires
        scaled_mul(invest, leverage) <= MAX_VOLUME,
        open_price <= MAX_PRICE,
        active_price <= MAX_PRICE,
        base_rate.wf(),
        quote_rate.wf(),
        i64::MIN <= swaps_total <= i64::MAX,
    ensures
        -MAX_PROFIT <= profit_formula(
            buy,
            invest,
            leverage,
            open_price,
            base_rate,
            active_price,
            quote_rate,
            swaps_total,
        ) <= MAX_PROFIT,
        base_rate.apply(scaled_mul(invest, leverage)) <= 10_000_000_000_000_000_000_000,
        forall|change: nat|
            change <= MAX_PRICE ==> #[trigger] scaled_mul(
                base_rate.apply(scaled_mul(invest, leverage)),
                change,
            ) <= MAX_CONVERTIBLE && base_rate.apply(scaled_mul(invest, leverage)) * change
                <= 1_000_000_000_000_000_000_000_000_000_000_000,
{
    let volume = scaled_mul(invest, leverage);
    let collateral_invest = base_rate.apply(volume);
    base_rate.lemma_apply_bound(volume, MAX_VOLUME as nat);
    assert(collateral_invest <= 10_000_000_000_000_000_000_000);
    assert forall|change: nat| change <= MAX_PRICE implies #[trigger] scaled_mul(
        collateral_invest,
        change,
    ) <= MAX_CONVERTIBLE && collateral_invest * change
        <= 1_000_000_000_000_000_000_000_000_000_000_000 by {
        lemma_scaled_mul_bound(
            collateral_invest,
            change,
            10_000_000_000_000_000_000_000,
            MAX_PRICE as nat,
        );
    }
    let rise = active_price >= open_price;
    let change = if rise {
        (active_price - open_price) as nat
    } else {
        (open_price - active_price) as nat
    };
    let product = scaled_mul(collateral_invest, change);
    assert(product <= MAX_CONVERTIBLE);
    quote_rate.lemma_apply_bound(product, MAX_CONVERTIBLE as nat);
}

/// Computes `profit_formula`.
pub fn compute_profit(
    buy: bool,
    invest: u64,
    leverage: u64,
    open_price: u64,
    base_rate: Conversion,
    active_price: u64,
    quote_rate: Conversion,
    swaps_total: i64,
) -> (r: i128)
    requires
        volume_fits(invest, leverage),
        open_price <= MAX_PRICE,
        active_price <= MAX_PRICE,
        base_rate.wf(),
        quote_rate.wf(),
    ensures
        r == profit_formula(
            buy,
            invest as nat,
            leverage as nat,
            open_price as nat,
            base_rate,
            active_price as nat,
            quote_rate,
            swaps_total as int,
        ),
        -MAX_PROFIT <= r <= MAX_PROFIT,
{
    proof {
        lemma_profit_bound(
            buy,
            invest as nat,
            leverage as nat,
            open_price as nat,
            base_rate,
            active_price as nat,
            quote_rate,
            swaps_total as int,
        );
        assert((invest as int) * (leverage as int) <= 0xffff_ffff_ffff_ffff
            * 0xffff_ffff_ffff_ffff) by (nonlinear_arith)
            requires
                0 <= invest <= 0xffff_ffff_ffff_ffff,
                0 <= leverage <= 0xffff_ffff_ffff_ffff,
        ;
    }
    let volume: u128 = mul_div(invest as u128, leverage, SCALE);
    let collateral_invest: u128 = base_rate.convert(volume);
    let rise: bool = active_price >= open_price;
    let change: u64 = if rise {
        active_price - open_price
    } else {
        open_price - active_price
    };
    assert(scaled_mul(collateral_invest as nat, change as nat) <= MAX_CONVERTIBLE);
    let product: u128 = mul_div(collateral_invest, change, SCALE);
    let gross: u128 = quote_rate.convert(product);
    proof {
        quote_rate.lemma_apply_bound(product as nat, MAX_CONVERTIBLE as nat);
    }
    let gross: i128 = gross as i128;
    if rise == buy {
        gross + (swaps_total as i128)
    } else {
        -gross + (swaps_total as i128)
    }
}

/// Whether the loss of a position has eaten `percent` of its invest amount:
/// with `margin = (profit + invest + reserve) / invest * 100`, whether
/// `100 - margin >= percent`. Both sides are multiplied by `invest`, which is
/// positive, so that nothing is rounded.
pub open spec fn loss_reaches(profit: int, reserve: nat, invest: nat, percent: nat) -> bool {
    (invest - (profit + invest + reserve)) * (HUNDRED_PERCENT as int) >= percent * invest
}

/// Decides `loss_reaches`.
pub fn is_loss_reached(profit: i128, reserve: u64, invest: u64, percent: u64) -> (r: bool)
    requires
        -MAX_PROFIT <= profit <= MAX_PROFIT,
    ensures
        r == loss_reaches(profit as int, reserve as nat, invest as nat, percent as nat),
{
    let loss: i128 = -(profit + (reserve as i128));
    assert((percent as int) * (invest as int) <= 0xffff_ffff_ffff_ffff * 0xffff_ffff_ffff_ffff)
        by (nonlinear_arith)
        requires
            0 <= percent <= 0xffff_ffff_ffff_ffff,
            0 <= invest <= 0xffff_ffff_ffff_ffff,
    ;
    let needed: u128 = (percent as u128) * (invest as u128);
    assert(loss == invest - (profit + invest + reserve));
    if loss < 0 {
        assert(loss * (HUNDRED_PERCENT as int) < 0) by (nonlinear_arith)
            requires
                loss < 0,
        ;
        false
    } else if loss > 3_402_823_669_209_384_634_633_746_074_317 {
        // The loss times one hundred percent is beyond 128 bits, and so
        // beyond what is needed.
        assert(loss * (HUNDRED_PERCENT as int) >= 3_402_823_669_209_384_634_633_746_074_318
            * 100_000_000) by (nonlinear_arith)
            requires
                loss >= 3_402_823_669_209_384_634_633_746_074_318,
        ;
        true
    } else {
        assert(loss * (HUNDRED_PERCENT as int) <= 3_402_823_669_209_384_634_633_746_074_317
            * 100_000_000) by (nonlinear_arith)
            requires
                0 <= loss <= 3_402_823_669_209_384_634_633_746_074_317,
        ;
        (loss as u128) * (HUNDRED_PERCENT as u128) >= needed
    }
}

} // verus!
