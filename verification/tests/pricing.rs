use position_manager::{
    compute_profit, get_close_price, get_open_price, get_pending_position_type, is_loss_reached,
    Conversion, EngineBidAsk, ExecutionPendingOrderType, PositionSide, HUNDRED_PERCENT, SCALE,
};

fn units(value: f64) -> u64 {
    (value * 1_000_000.0).round() as u64
}

fn quote(pair: &str, base: &str, quote: &str, bid: f64, ask: f64) -> EngineBidAsk {
    EngineBidAsk {
        asset_pair: pair.to_string(),
        bid: units(bid),
        ask: units(ask),
        datetime: 0,
        base: base.to_string(),
        quote: quote.to_string(),
    }
}

#[test]
fn scale_has_six_decimal_places() {
    assert_eq!(SCALE, 1_000_000);
    assert_eq!(HUNDRED_PERCENT, 100 * SCALE);
    assert_eq!(units(1.1002), 1_100_200);
}

#[test]
fn close_price_is_bid_for_buy_and_ask_for_sell() {
    let q = quote("EURUSD", "EUR", "USD", 1.1000, 1.1002);
    assert_eq!(get_close_price(&q, &PositionSide::Buy), 1_100_000);
    assert_eq!(get_close_price(&q, &PositionSide::Sell), 1_100_200);
}

#[test]
fn open_price_is_ask_for_buy_and_bid_for_sell() {
    let q = quote("EURUSD", "EUR", "USD", 1.1000, 1.1002);
    assert_eq!(get_open_price(&q, &PositionSide::Buy), 1_100_200);
    assert_eq!(get_open_price(&q, &PositionSide::Sell), 1_100_000);
}

#[test]
fn position_side_from_code() {
    assert_eq!(PositionSide::from(0), PositionSide::Buy);
    assert_eq!(PositionSide::from(1), PositionSide::Sell);
    assert_eq!(PositionSide::try_from_code(0), Some(PositionSide::Buy));
    assert_eq!(PositionSide::try_from_code(1), Some(PositionSide::Sell));
    assert_eq!(PositionSide::try_from_code(2), None);
    assert_eq!(PositionSide::try_from_code(-1), None);
}

#[test]
fn conversion_identity_multiply_divide() {
    assert_eq!(Conversion::Identity.convert(123_456_789), 123_456_789);
    assert_eq!(Conversion::Multiply(units(0.92)).convert(units(500_000.0) as u128), 460_000_000_000);
    assert_eq!(Conversion::Divide(units(1.1002)).convert(units(10_000.0) as u128), 9_089_256_498);
    assert_eq!(Conversion::Multiply(0).convert(units(10_000.0) as u128), 0);
}

#[test]
fn conversion_by_a_zero_rate_does_not_divide() {
    assert_eq!(Conversion::Divide(0).convert(units(10_000.0) as u128), 0);
}

#[test]
fn profit_buy_base_divided_quote_is_collateral() {
    let profit = compute_profit(
        true,
        units(1000.0),
        units(10.0),
        units(1.1002),
        Conversion::Divide(units(1.1002)),
        units(1.0900),
        Conversion::Identity,
        0,
    );
    assert_eq!(profit, -92_710_416);
}

#[test]
fn profit_sell_gains_when_the_price_falls() {
    let profit = compute_profit(
        false,
        units(1000.0),
        units(10.0),
        units(1.1000),
        Conversion::Divide(units(1.1000)),
        units(1.0892),
        Conversion::Identity,
        0,
    );
    assert_eq!(profit, 98_181_818);
}

#[test]
fn profit_both_legs_multiplied() {
    let buy = compute_profit(
        true,
        units(100_000.0),
        units(5.0),
        units(149.0),
        Conversion::Multiply(units(0.92)),
        units(149.2),
        Conversion::Multiply(units(132.1)),
        0,
    );
    assert_eq!(buy, 12_153_200_000_000);
    let sell = compute_profit(
        false,
        units(100_000.0),
        units(5.0),
        units(149.0),
        Conversion::Multiply(units(0.92)),
        units(149.2),
        Conversion::Multiply(units(132.1)),
        0,
    );
    assert_eq!(sell, -12_153_200_000_000);
}

#[test]
fn profit_base_is_collateral_quote_leg_multiplied() {
    let profit = compute_profit(
        true,
        units(100_000.0),
        units(5.0),
        units(1.35),
        Conversion::Identity,
        units(1.352),
        Conversion::Multiply(units(1.352)),
        0,
    );
    assert_eq!(profit, 1_352_000_000);
}

#[test]
fn profit_base_is_collateral_quote_leg_divided() {
    let profit = compute_profit(
        true,
        units(100_000.0),
        units(5.0),
        units(1.35),
        Conversion::Identity,
        units(1.352),
        Conversion::Divide(units(0.74)),
        0,
    );
    assert_eq!(profit, 1_351_351_351);
}

#[test]
fn profit_with_a_zero_quote_rate_is_the_swaps() {
    let profit = compute_profit(
        true,
        units(100_000.0),
        units(5.0),
        units(1.35),
        Conversion::Identity,
        units(1.352),
        Conversion::Divide(0),
        7,
    );
    assert_eq!(profit, 7);
}

#[test]
fn profit_adds_the_swaps() {
    let without = compute_profit(
        true,
        units(1000.0),
        units(10.0),
        units(1.1002),
        Conversion::Divide(units(1.1002)),
        units(1.0900),
        Conversion::Identity,
        0,
    );
    let with_swaps = compute_profit(
        true,
        units(1000.0),
        units(10.0),
        units(1.1002),
        Conversion::Divide(units(1.1002)),
        units(1.0900),
        Conversion::Identity,
        -5_000_000,
    );
    assert_eq!(with_swaps, without - 5_000_000);
}

#[test]
fn profit_is_zero_without_a_move() {
    let profit = compute_profit(
        false,
        units(1000.0),
        units(10.0),
        units(1.1),
        Conversion::Multiply(units(3.0)),
        units(1.1),
        Conversion::Divide(units(7.0)),
        0,
    );
    assert_eq!(profit, 0);
}

#[test]
fn profit_at_the_limits_does_not_overflow() {
    let profit = compute_profit(
        true,
        position_manager::MAX_VOLUME,
        SCALE,
        0,
        Conversion::Divide(1),
        position_manager::MAX_PRICE,
        Conversion::Divide(1),
        i64::MAX,
    );
    assert!(profit > 0);
    assert!(profit <= position_manager::MAX_PROFIT);
    assert_eq!(profit, 1_000_000_000_000_000_000_000_000_000_000_000 + i64::MAX as i128);
    assert!(position_manager::is_volume_within(position_manager::MAX_VOLUME, SCALE));
    assert!(!position_manager::is_volume_within(position_manager::MAX_VOLUME, SCALE + 1));
    assert!(position_manager::is_volume_within(u64::MAX, 542));
    assert!(!position_manager::is_volume_within(u64::MAX, 543));
    assert!(!position_manager::is_volume_within(u64::MAX, u64::MAX));
    assert!(position_manager::is_volume_within(0, u64::MAX));
}

#[test]
fn loss_reaches_exactly_at_the_percentage() {
    let invest = units(1000.0);
    let fifty = units(50.0);
    assert!(is_loss_reached(-500_000_000, 0, invest, fifty));
    assert!(!is_loss_reached(-499_999_999, 0, invest, fifty));
    assert!(is_loss_reached(-2_000_000_000, 0, invest, fifty));
    assert!(!is_loss_reached(0, 0, invest, fifty));
    assert!(!is_loss_reached(700_000_000, 0, invest, fifty));
}

#[test]
fn loss_is_lessened_by_the_reserve() {
    let invest = units(1000.0);
    let fifty = units(50.0);
    assert!(is_loss_reached(-600_000_000, 100_000_000, invest, fifty));
    assert!(!is_loss_reached(-600_000_000, 100_000_001, invest, fifty));
}

#[test]
fn loss_at_the_profit_limits() {
    let invest = units(1000.0);
    assert!(is_loss_reached(-position_manager::MAX_PROFIT, u64::MAX, invest, u64::MAX));
    assert!(!is_loss_reached(position_manager::MAX_PROFIT, 0, invest, 1));
    assert!(is_loss_reached(0, 0, invest, 0));
    assert!(!is_loss_reached(1, 0, invest, 0));
    // The widest invest amount and percentage: their product is
    // 340282366920938463426481119284349108225.
    assert!(is_loss_reached(-3_402_823_669_209_384_634_264_811_192_844, 0, u64::MAX, u64::MAX));
    assert!(!is_loss_reached(-3_402_823_669_209_384_634_264_811_192_843, 0, u64::MAX, u64::MAX));
    assert!(is_loss_reached(-3_402_823_669_209_384_634_633_746_074_318, 0, u64::MAX, u64::MAX));
    assert!(is_loss_reached(-3_402_823_669_209_384_634_633_746_074_317, 0, u64::MAX, u64::MAX));
}

#[test]
fn pending_type_from_side_and_desired_price() {
    let c = units(1.1000);
    assert_eq!(
        get_pending_position_type(c, units(1.0950), &PositionSide::Buy),
        ExecutionPendingOrderType::BuyLimit
    );
    assert_eq!(
        get_pending_position_type(c, units(1.1050), &PositionSide::Buy),
        ExecutionPendingOrderType::BuyStop
    );
    assert_eq!(
        get_pending_position_type(c, units(1.1050), &PositionSide::Sell),
        ExecutionPendingOrderType::SellLimit
    );
    assert_eq!(
        get_pending_position_type(c, units(1.0950), &PositionSide::Sell),
        ExecutionPendingOrderType::SellStop
    );
    assert_eq!(get_pending_position_type(c, c, &PositionSide::Buy), ExecutionPendingOrderType::BuyStop);
    assert_eq!(
        get_pending_position_type(c, c, &PositionSide::Sell),
        ExecutionPendingOrderType::SellStop
    );
}
