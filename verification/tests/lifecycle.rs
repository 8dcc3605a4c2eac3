use position_manager::{
    execute_pending, cancel_pending, cancel_pending_with_process_id, charge_swaps, close_position, confirm_pending_execution, confirm_pending_execution_with_process_id, handle_bid_ask_message, load_prices_cache, process_topping_up_refund, restore_active_position, restore_pending_position, top_up_position, update_sl_tp, update_topping_up_settings, ActivePositionsCache, ActivePricesCache, EngineBidAsk, EngineError, EngineEvent, EnginePositionState, EnginePositionSwap, ExecutionClosePositionReason, ExecutionPendingOrderType, PendingPositionsCache, PositionOpenCommand, PositionOpenPendingCommand, PositionSide,
};

fn open_position(
    prices: &ActivePricesCache,
    active: &mut ActivePositionsCache,
    command: &PositionOpenCommand,
    now: i64,
) -> Result<position_manager::Applied, position_manager::EngineError> {
    let none = PendingPositionsCache::new();
    position_manager::open_position(prices, active, &none, &none, command, now)
}

fn open_pending(
    prices: &ActivePricesCache,
    pending: &mut PendingPositionsCache,
    command: &PositionOpenPendingCommand,
    now: i64,
) -> Result<position_manager::Applied, position_manager::EngineError> {
    let active = ActivePositionsCache::new();
    let none = PendingPositionsCache::new();
    position_manager::open_pending(prices, &active, pending, &none, command, now)
}

fn open_position_with_id(
    prices: &ActivePricesCache,
    active: &mut ActivePositionsCache,
    command: &PositionOpenCommand,
    id: String,
    now: i64,
) -> Result<position_manager::Applied, position_manager::EngineError> {
    let none = PendingPositionsCache::new();
    position_manager::open_position_with_id(prices, active, &none, &none, command, id, now)
}

fn open_pending_with_id(
    prices: &ActivePricesCache,
    pending: &mut PendingPositionsCache,
    command: &PositionOpenPendingCommand,
    id: String,
    now: i64,
) -> Result<position_manager::Applied, position_manager::EngineError> {
    let active = ActivePositionsCache::new();
    let none = PendingPositionsCache::new();
    position_manager::open_pending_with_id(prices, &active, pending, &none, command, id, now)
}


fn units(value: f64) -> u64 {
    (value * 1_000_000.0).round() as u64
}

fn quote(pair: &str, base: &str, quote: &str, bid: f64, ask: f64) -> EngineBidAsk {
    EngineBidAsk {
        asset_pair: pair.to_string(),
        bid: units(bid),
        ask: units(ask),
        datetime: 0,
        base: base.to_string(),
        quote: quote.to_string(),
    }
}

fn command(id: Option<&str>, side: PositionSide) -> PositionOpenCommand {
    PositionOpenCommand {
        id: id.map(|s| s.to_string()),
        trader_id: "trader".to_string(),
        account_id: "account".to_string(),
        side,
        asset_pair: "EURUSD".to_string(),
        base: "EUR".to_string(),
        quote: "USD".to_string(),
        collateral: "USD".to_string(),
        invest_amount: units(1000.0),
        leverage: units(10.0),
        stop_out_percent: units(50.0),
        process_id: "open-1".to_string(),
        tp_profit: None,
        tp_price: None,
        sl_profit: None,
        sl_price: None,
        margin_call_percent: None,
        topping_up_percent: None,
    }
}

fn eurusd_prices() -> ActivePricesCache {
    load_prices_cache(vec![quote("EURUSD", "EUR", "USD", 1.1000, 1.1002)])
}

#[test]
fn open_position_makes_an_active_position_without_profit() {
    let prices = eurusd_prices();
    let mut active = ActivePositionsCache::new();
    let applied =
        open_position_with_id(&prices, &mut active, &command(None, PositionSide::Buy), "one".to_string(), 77)
            .unwrap();
    let p = &applied.position;
    assert_eq!(p.data.id, "one");
    assert_eq!(p.data.create_date, 77);
    assert_eq!(p.data.last_update_date, 77);
    assert_eq!(p.data.create_process_id, "open-1");
    let a = p.get_active_state();
    assert_eq!(a.asset_open_price, units(1.1002));
    assert_eq!(a.asset_last_price, units(1.1002));
    assert_eq!(a.asset_open_bid_ask.bid, units(1.1000));
    assert_eq!(a.collateral_base_open_price, units(1.1002));
    assert_eq!(a.collateral_base_open_bid_ask.as_ref().unwrap().asset_pair, "EURUSD");
    assert_eq!(a.collateral_quote_last_price, 1_000_000);
    assert!(a.collateral_quote_last_bid_ask.is_none());
    assert_eq!(a.profit, 0);
    assert_eq!(a.swaps.total, 0);
    assert_eq!(a.swaps.swaps.len(), 0);
    assert_eq!(a.topping_up_reserve, 0);
    assert!(!a.margin_call_hit);
    assert_eq!(a.open_date, 77);
    assert_eq!(active.count_positions_in_cache(), 1);
    assert_eq!(active.get_position_by_id("one").unwrap().data.id, "one");
    assert_eq!(applied.events.len(), 1);
    match &applied.events[0] {
        EngineEvent::CreatePosition { process_id, position } => {
            assert_eq!(process_id, "open-1");
            assert_eq!(position.data.id, "one");
        }
        _ => panic!("a create event was expected"),
    }
}

#[test]
fn open_position_sell_opens_at_the_bid() {
    let prices = eurusd_prices();
    let mut active = ActivePositionsCache::new();
    let applied =
        open_position(&prices, &mut active, &command(Some("s1"), PositionSide::Sell), 0).unwrap();
    assert_eq!(applied.position.data.id, "s1");
    assert_eq!(applied.position.get_active_state().asset_open_price, units(1.1000));
    assert_eq!(applied.position.get_active_state().collateral_base_open_price, units(1.1000));
}

#[test]
fn open_position_without_an_id_gets_a_fresh_one() {
    let prices = eurusd_prices();
    let mut active = ActivePositionsCache::new();
    let first = open_position(&prices, &mut active, &command(None, PositionSide::Buy), 0).unwrap();
    let second = open_position(&prices, &mut active, &command(None, PositionSide::Buy), 0).unwrap();
    assert!(!first.position.data.id.is_empty());
    assert_ne!(first.position.data.id, second.position.data.id);
    assert_eq!(active.count_positions_in_cache(), 2);
}

#[test]
fn open_position_without_a_quote_has_no_liquidity() {
    let prices = ActivePricesCache::new();
    let mut active = ActivePositionsCache::new();
    let r = open_position(&prices, &mut active, &command(Some("one"), PositionSide::Buy), 0);
    assert_eq!(r.err(), Some(EngineError::NoLiquidity));
    assert_eq!(active.count_positions_in_cache(), 0);
}

#[test]
fn open_position_without_a_collateral_quote_has_no_liquidity() {
    let prices = load_prices_cache(vec![quote("EURJPY", "EUR", "JPY", 160.00, 160.02)]);
    let mut active = ActivePositionsCache::new();
    let mut c = command(Some("one"), PositionSide::Buy);
    c.asset_pair = "EURJPY".to_string();
    c.quote = "JPY".to_string();
    assert_eq!(open_position(&prices, &mut active, &c, 0).err(), Some(EngineError::NoLiquidity));
    let prices = load_prices_cache(vec![
        quote("EURJPY", "EUR", "JPY", 160.00, 160.02),
        quote("EURUSD", "EUR", "USD", 1.1000, 1.1002),
    ]);
    assert_eq!(open_position(&prices, &mut active, &c, 0).err(), Some(EngineError::NoLiquidity));
    let prices = load_prices_cache(vec![
        quote("EURJPY", "EUR", "JPY", 160.00, 160.02),
        quote("EURUSD", "EUR", "USD", 1.1000, 1.1002),
        quote("USDJPY", "USD", "JPY", 132.0, 132.1),
    ]);
    let applied = open_position(&prices, &mut active, &c, 0).unwrap();
    let a = applied.position.get_active_state();
    assert_eq!(a.collateral_quote_last_bid_ask.as_ref().unwrap().asset_pair, "USDJPY");
    assert_eq!(a.collateral_quote_last_price, units(132.0));
}

#[test]
fn open_position_with_zero_invest_is_rejected() {
    let prices = eurusd_prices();
    let mut active = ActivePositionsCache::new();
    let mut c = command(Some("one"), PositionSide::Buy);
    c.invest_amount = 0;
    assert_eq!(open_position(&prices, &mut active, &c, 0).err(), Some(EngineError::InvalidRequest));
    assert_eq!(active.count_positions_in_cache(), 0);
}

#[test]
fn open_position_outside_the_limits_is_rejected() {
    let prices = eurusd_prices();
    let mut active = ActivePositionsCache::new();
    let mut c = command(Some("one"), PositionSide::Buy);
    c.leverage = units(0.5);
    assert_eq!(open_position(&prices, &mut active, &c, 0).err(), Some(EngineError::InvalidRequest));
    // The traded volume, invest amount times leverage, has a limit.
    let mut c = command(Some("one"), PositionSide::Buy);
    c.invest_amount = position_manager::MAX_VOLUME;
    c.leverage = units(1.0) + 1;
    assert_eq!(open_position(&prices, &mut active, &c, 0).err(), Some(EngineError::InvalidRequest));
    let mut c = command(Some("one"), PositionSide::Buy);
    c.invest_amount = units(10_000_000.0) + 1;
    c.leverage = units(1000.0);
    assert_eq!(open_position(&prices, &mut active, &c, 0).err(), Some(EngineError::InvalidRequest));
    let mut c = command(Some("one"), PositionSide::Buy);
    c.invest_amount = u64::MAX;
    c.leverage = u64::MAX;
    assert_eq!(open_position(&prices, &mut active, &c, 0).err(), Some(EngineError::InvalidRequest));
    let mut c = command(Some("wide"), PositionSide::Buy);
    c.invest_amount = position_manager::MAX_VOLUME;
    c.leverage = units(1.0);
    assert!(open_position(&prices, &mut active, &c, 0).is_ok());
    let mut c = command(Some("high"), PositionSide::Buy);
    c.invest_amount = units(10.0);
    c.leverage = units(1_000_000_000.0);
    assert!(open_position(&prices, &mut active, &c, 0).is_ok());
    let mut c = command(Some("one"), PositionSide::Buy);
    c.stop_out_percent = 0;
    assert_eq!(open_position(&prices, &mut active, &c, 0).err(), Some(EngineError::InvalidRequest));
    let mut c = command(Some("one"), PositionSide::Buy);
    c.stop_out_percent = units(100.0) + 1;
    assert_eq!(open_position(&prices, &mut active, &c, 0).err(), Some(EngineError::InvalidRequest));
    let mut c = command(Some("one"), PositionSide::Buy);
    c.quote = "EUR".to_string();
    assert_eq!(open_position(&prices, &mut active, &c, 0).err(), Some(EngineError::InvalidRequest));
    let mut c = command(Some("one"), PositionSide::Buy);
    c.stop_out_percent = units(100.0);
    c.leverage = units(1.0);
    c.invest_amount = 1;
    assert!(open_position(&prices, &mut active, &c, 0).is_ok());
}

#[test]
fn open_position_with_an_id_in_use_hands_out_the_position_held() {
    let prices = eurusd_prices();
    let mut active = ActivePositionsCache::new();
    let first = open_position(&prices, &mut active, &command(Some("one"), PositionSide::Buy), 5)
        .unwrap();
    open_position(&prices, &mut active, &command(Some("two"), PositionSide::Buy), 6).unwrap();
    let again = open_position(&prices, &mut active, &command(Some("one"), PositionSide::Sell), 7)
        .unwrap();
    assert_eq!(again.events.len(), 0);
    assert_eq!(again.position.data.side, PositionSide::Buy);
    assert_eq!(again.position.data.create_date, first.position.data.create_date);
    assert_eq!(active.count_positions_in_cache(), 2);
    assert_eq!(active.get_position_by_id("one").unwrap().data.side, PositionSide::Buy);
    // The position held is handed out whatever the command holds.
    let mut bad = command(Some("one"), PositionSide::Buy);
    bad.invest_amount = 0;
    assert_eq!(open_position(&prices, &mut active, &bad, 8).unwrap().events.len(), 0);
}

#[test]
fn an_id_is_held_by_one_store_only() {
    let prices = eurusd_prices();
    let mut active = ActivePositionsCache::new();
    let mut pending = PendingPositionsCache::new();
    let mut awaiting = PendingPositionsCache::new();
    position_manager::open_pending(
        &prices,
        &active,
        &mut pending,
        &awaiting,
        &pending_command(Some("x"), PositionSide::Buy, 1.0950),
        1,
    )
    .unwrap();
    // A position cannot be opened under the id of a pending order.
    let refused = position_manager::open_position(
        &prices,
        &mut active,
        &pending,
        &awaiting,
        &command(Some("x"), PositionSide::Buy),
        2,
    );
    assert_eq!(refused.err(), Some(EngineError::InvalidRequest));
    assert_eq!(active.count_positions_in_cache(), 0);
    assert_eq!(pending.count_positions_in_cache(), 1);
    // An order cannot be placed under the id of an active position.
    position_manager::open_position(
        &prices,
        &mut active,
        &pending,
        &awaiting,
        &command(Some("y"), PositionSide::Buy),
        3,
    )
    .unwrap();
    let refused = position_manager::open_pending(
        &prices,
        &active,
        &mut pending,
        &awaiting,
        &pending_command(Some("y"), PositionSide::Buy, 1.0950),
        4,
    );
    assert_eq!(refused.err(), Some(EngineError::InvalidRequest));
    assert_eq!(pending.count_positions_in_cache(), 1);
    // Nor under the id of an order that waits for its confirmation.
    let mut ticked = eurusd_prices();
    handle_bid_ask_message(
        &mut ticked,
        &mut active,
        &mut pending,
        &mut awaiting,
        quote("EURUSD", "EUR", "USD", 1.0940, 1.0942),
        "tick",
        5,
    );
    assert_eq!(awaiting.count_positions_in_cache(), 1);
    let refused = position_manager::open_position(
        &ticked,
        &mut active,
        &pending,
        &awaiting,
        &command(Some("x"), PositionSide::Buy),
        6,
    );
    assert_eq!(refused.err(), Some(EngineError::InvalidRequest));
    let refused = position_manager::open_pending(
        &ticked,
        &active,
        &mut pending,
        &awaiting,
        &pending_command(Some("x"), PositionSide::Buy, 1.0950),
        7,
    );
    assert_eq!(refused.err(), Some(EngineError::InvalidRequest));
    // Placing an order again under its id hands out the order held.
    position_manager::open_pending(
        &ticked,
        &active,
        &mut pending,
        &awaiting,
        &pending_command(Some("z"), PositionSide::Buy, 1.0000),
        8,
    )
    .unwrap();
    let again = position_manager::open_pending(
        &ticked,
        &active,
        &mut pending,
        &awaiting,
        &pending_command(Some("z"), PositionSide::Sell, 2.0000),
        9,
    )
    .unwrap();
    assert_eq!(again.events.len(), 0);
    assert_eq!(again.position.data.side, PositionSide::Buy);
    assert_eq!(pending.count_positions_in_cache(), 1);
}

#[test]
fn close_position_keeps_the_open_data() {
    let prices = eurusd_prices();
    let mut active = ActivePositionsCache::new();
    let opened =
        open_position(&prices, &mut active, &command(Some("one"), PositionSide::Buy), 5).unwrap();
    let closed = close_position(
        &mut active,
        "one",
        ExecutionClosePositionReason::ClientCommand,
        "close-1",
        9,
    )
    .unwrap();
    assert_eq!(active.count_positions_in_cache(), 0);
    assert!(active.get_position_by_id("one").is_none());
    let before = opened.position.get_active_state();
    match &closed.position.state {
        EnginePositionState::Closed(c) => {
            assert_eq!(c.close_reason, ExecutionClosePositionReason::ClientCommand);
            assert_eq!(c.close_date, 9);
            assert_eq!(c.close_process_id, "close-1");
            assert_eq!(c.asset_close_price, before.asset_last_price);
            assert_eq!(c.asset_close_bid_ask.bid, before.asset_last_bid_ask.bid);
            assert_eq!(c.active_state.asset_open_price, before.asset_open_price);
            assert_eq!(c.active_state.asset_open_bid_ask.ask, before.asset_open_bid_ask.ask);
            assert_eq!(c.active_state.collateral_base_open_price, before.collateral_base_open_price);
            assert_eq!(c.active_state.open_process_id, before.open_process_id);
            assert_eq!(c.active_state.open_date, before.open_date);
            assert_eq!(c.active_state.profit, 0);
        }
        _ => panic!("a closed position was expected"),
    }
    assert_eq!(closed.position.data.id, "one");
    assert_eq!(closed.events.len(), 1);
    match &closed.events[0] {
        EngineEvent::ClosePosition { process_id, position } => {
            assert_eq!(process_id, "close-1");
            assert_eq!(position.data.id, "one");
        }
        _ => panic!("a close event was expected"),
    }
}

#[test]
fn close_position_of_an_unknown_id_is_not_found() {
    let mut active = ActivePositionsCache::new();
    let r = close_position(&mut active, "one", ExecutionClosePositionReason::ClientCommand, "c", 0);
    assert_eq!(r.err(), Some(EngineError::PositionNotFound));
    let prices = eurusd_prices();
    open_position(&prices, &mut active, &command(Some("one"), PositionSide::Buy), 0).unwrap();
    close_position(&mut active, "one", ExecutionClosePositionReason::ForceClose, "c", 0).unwrap();
    let again = close_position(&mut active, "one", ExecutionClosePositionReason::ForceClose, "c", 0);
    assert_eq!(again.err(), Some(EngineError::PositionNotFound));
}

#[test]
fn charge_swap_twice_adds_both() {
    let prices = eurusd_prices();
    let mut active = ActivePositionsCache::new();
    open_position(&prices, &mut active, &command(Some("one"), PositionSide::Buy), 0).unwrap();
    let first = charge_swaps(&mut active, "swap-1", "one", 5_000_000, 10).unwrap();
    let second = charge_swaps(&mut active, "swap-2", "one", 5_000_000, 20).unwrap();
    assert_eq!(first.events.len(), 1);
    assert_eq!(second.events.len(), 1);
    assert!(matches!(first.events[0], EngineEvent::UpdatePosition { .. }));
    assert!(matches!(second.events[0], EngineEvent::UpdatePosition { .. }));
    let stored = active.get_position_by_id("one").unwrap();
    let a = stored.get_active_state();
    assert_eq!(a.swaps.total, 10_000_000);
    assert_eq!(
        a.swaps.swaps,
        vec![
            EnginePositionSwap { date: 10, amount: 5_000_000 },
            EnginePositionSwap { date: 20, amount: 5_000_000 }
        ]
    );
    assert_eq!(a.profit, 10_000_000);
    assert_eq!(stored.data.last_update_process_id, "swap-2");
    assert_eq!(stored.data.last_update_date, 20);
    assert_eq!(first.position.get_active_state().swaps.total, 5_000_000);
}

#[test]
fn charge_swap_errors() {
    let prices = eurusd_prices();
    let mut active = ActivePositionsCache::new();
    assert_eq!(
        charge_swaps(&mut active, "s", "one", 1, 0).err(),
        Some(EngineError::PositionNotFound)
    );
    open_position(&prices, &mut active, &command(Some("one"), PositionSide::Buy), 0).unwrap();
    charge_swaps(&mut active, "s", "one", i64::MAX, 0).unwrap();
    assert_eq!(charge_swaps(&mut active, "s", "one", 1, 0).err(), Some(EngineError::InvalidRequest));
    assert_eq!(active.get_position_by_id("one").unwrap().get_active_state().swaps.swaps.len(), 1);
    charge_swaps(&mut active, "s", "one", -1, 0).unwrap();
    assert_eq!(
        active.get_position_by_id("one").unwrap().get_active_state().swaps.total,
        i64::MAX - 1
    );
}

#[test]
fn top_up_needs_a_topping_up_or_margin_call_percentage() {
    let prices = eurusd_prices();
    let mut active = ActivePositionsCache::new();
    open_position(&prices, &mut active, &command(Some("plain"), PositionSide::Buy), 0).unwrap();
    let mut c = command(Some("mc"), PositionSide::Buy);
    c.margin_call_percent = Some(units(10.0));
    open_position(&prices, &mut active, &c, 0).unwrap();
    let mut c = command(Some("tu"), PositionSide::Buy);
    c.topping_up_percent = Some(units(20.0));
    open_position(&prices, &mut active, &c, 0).unwrap();

    assert_eq!(
        top_up_position(&mut active, "plain", 1, "t", 0).err(),
        Some(EngineError::PositionNotFound)
    );
    assert_eq!(
        top_up_position(&mut active, "none", 1, "t", 0).err(),
        Some(EngineError::PositionNotFound)
    );
    let applied = top_up_position(&mut active, "mc", units(100.0), "t", 3).unwrap();
    assert_eq!(applied.position.get_active_state().topping_up_reserve, units(100.0));
    assert_eq!(applied.events.len(), 2);
    assert!(matches!(applied.events[0], EngineEvent::UpdatePosition { .. }));
    match &applied.events[1] {
        EngineEvent::ToppingUp { process_id, position_id, trader_id, account_id, delta } => {
            assert_eq!(process_id, "t");
            assert_eq!(position_id, "mc");
            assert_eq!(trader_id, "trader");
            assert_eq!(account_id, "account");
            assert_eq!(*delta, 100_000_000);
        }
        _ => panic!("a topping-up event was expected"),
    }
    top_up_position(&mut active, "tu", 7, "t", 3).unwrap();
    top_up_position(&mut active, "tu", 8, "t", 4).unwrap();
    let stored = active.get_position_by_id("tu").unwrap();
    assert_eq!(stored.get_active_state().topping_up_reserve, 15);
    assert_eq!(stored.data.last_update_date, 4);
    assert_eq!(
        top_up_position(&mut active, "tu", u64::MAX, "t", 5).err(),
        Some(EngineError::InvalidRequest)
    );
    assert_eq!(active.get_position_by_id("tu").unwrap().get_active_state().topping_up_reserve, 15);
}

#[test]
fn topping_up_refund_takes_from_the_reserve() {
    let prices = eurusd_prices();
    let mut active = ActivePositionsCache::new();
    let mut c = command(Some("tu"), PositionSide::Buy);
    c.topping_up_percent = Some(units(20.0));
    open_position(&prices, &mut active, &c, 0).unwrap();
    top_up_position(&mut active, "tu", 100, "t", 1).unwrap();
    let events = process_topping_up_refund(&mut active, "tu", "r", 40, 2);
    assert_eq!(events.len(), 2);
    assert!(matches!(events[0], EngineEvent::UpdatePosition { .. }));
    match &events[1] {
        EngineEvent::ToppingUp { delta, position_id, .. } => {
            assert_eq!(*delta, -40);
            assert_eq!(position_id, "tu");
        }
        _ => panic!("a topping-up event was expected"),
    }
    assert_eq!(active.get_position_by_id("tu").unwrap().get_active_state().topping_up_reserve, 60);
    assert_eq!(process_topping_up_refund(&mut active, "tu", "r", 61, 3).len(), 0);
    assert_eq!(process_topping_up_refund(&mut active, "none", "r", 1, 3).len(), 0);
    assert_eq!(active.get_position_by_id("tu").unwrap().get_active_state().topping_up_reserve, 60);
    assert_eq!(process_topping_up_refund(&mut active, "tu", "r", 60, 3).len(), 2);
    assert_eq!(active.get_position_by_id("tu").unwrap().get_active_state().topping_up_reserve, 0);
}

#[test]
fn topping_up_settings_switch_on_and_off() {
    let prices = eurusd_prices();
    let mut active = ActivePositionsCache::new();
    open_position(&prices, &mut active, &command(Some("one"), PositionSide::Buy), 0).unwrap();
    let on = update_topping_up_settings(&mut active, "one", true, Some(units(20.0)), "u", 1).unwrap();
    assert_eq!(on.position.data.topping_up_percent, Some(units(20.0)));
    assert_eq!(on.events.len(), 1);
    let kept = update_topping_up_settings(&mut active, "one", true, None, "u", 2).unwrap();
    assert_eq!(kept.position.data.topping_up_percent, Some(units(20.0)));
    let off = update_topping_up_settings(&mut active, "one", false, Some(units(30.0)), "u", 3).unwrap();
    assert_eq!(off.position.data.topping_up_percent, None);
    assert_eq!(active.get_position_by_id("one").unwrap().data.topping_up_percent, None);
    assert_eq!(active.get_position_by_id("one").unwrap().data.last_update_date, 3);
    assert_eq!(
        update_topping_up_settings(&mut active, "two", true, None, "u", 1).err(),
        Some(EngineError::PositionNotFound)
    );
}

#[test]
fn update_sl_tp_keeps_levels_that_are_not_reached() {
    let prices = eurusd_prices();
    let mut active = ActivePositionsCache::new();
    open_position(&prices, &mut active, &command(Some("b"), PositionSide::Buy), 0).unwrap();
    let applied = update_sl_tp(
        &mut active,
        "b",
        Some(-50_000_000),
        Some(units(1.0900)),
        Some(50_000_000),
        Some(units(1.1100)),
        "u",
        4,
    )
    .unwrap();
    let d = &applied.position.data;
    assert_eq!(d.stop_loss_in_position_profit, Some(-50_000_000));
    assert_eq!(d.stop_loss_in_asset_price, Some(units(1.0900)));
    assert_eq!(d.take_profit_in_position_profit, Some(50_000_000));
    assert_eq!(d.take_profit_in_asset_price, Some(units(1.1100)));
    assert_eq!(d.last_update_process_id, "u");
    assert_eq!(applied.events.len(), 1);
    assert!(matches!(applied.events[0], EngineEvent::UpdatePosition { .. }));
    let stored = active.get_position_by_id("b").unwrap();
    assert_eq!(stored.data.stop_loss_in_asset_price, Some(units(1.0900)));
    assert_eq!(
        update_sl_tp(&mut active, "x", None, None, None, None, "u", 4).err(),
        Some(EngineError::PositionNotFound)
    );
}

#[test]
fn update_sl_tp_drops_levels_that_are_reached() {
    let prices = eurusd_prices();
    let mut active = ActivePositionsCache::new();
    open_position(&prices, &mut active, &command(Some("b"), PositionSide::Buy), 0).unwrap();
    open_position(&prices, &mut active, &command(Some("s"), PositionSide::Sell), 0).unwrap();
    // A long position closes at the bid, 1.1000; its profit is 0.
    let buy = update_sl_tp(
        &mut active,
        "b",
        Some(0),
        Some(units(1.1000)),
        Some(0),
        Some(units(1.1000)),
        "u",
        1,
    )
    .unwrap();
    assert_eq!(buy.position.data.stop_loss_in_position_profit, None);
    assert_eq!(buy.position.data.stop_loss_in_asset_price, None);
    assert_eq!(buy.position.data.take_profit_in_position_profit, None);
    assert_eq!(buy.position.data.take_profit_in_asset_price, None);
    let buy = update_sl_tp(
        &mut active,
        "b",
        Some(-1),
        Some(units(1.1000) - 1),
        Some(1),
        Some(units(1.1000) + 1),
        "u",
        1,
    )
    .unwrap();
    assert_eq!(buy.position.data.stop_loss_in_position_profit, Some(-1));
    assert_eq!(buy.position.data.stop_loss_in_asset_price, Some(units(1.1000) - 1));
    assert_eq!(buy.position.data.take_profit_in_position_profit, Some(1));
    assert_eq!(buy.position.data.take_profit_in_asset_price, Some(units(1.1000) + 1));
    // A short position closes at the ask, 1.1002.
    let sell = update_sl_tp(
        &mut active,
        "s",
        None,
        Some(units(1.1002)),
        None,
        Some(units(1.1002)),
        "u",
        1,
    )
    .unwrap();
    assert_eq!(sell.position.data.stop_loss_in_asset_price, None);
    assert_eq!(sell.position.data.take_profit_in_asset_price, None);
    let sell = update_sl_tp(
        &mut active,
        "s",
        None,
        Some(units(1.1002) + 1),
        None,
        Some(units(1.1002) - 1),
        "u",
        1,
    )
    .unwrap();
    assert_eq!(sell.position.data.stop_loss_in_asset_price, Some(units(1.1002) + 1));
    assert_eq!(sell.position.data.take_profit_in_asset_price, Some(units(1.1002) - 1));
}

fn pending_command(id: Option<&str>, side: PositionSide, desired: f64) -> PositionOpenPendingCommand {
    PositionOpenPendingCommand { command: command(id, side), desired_open_price: units(desired) }
}

#[test]
fn open_pending_takes_its_kind_from_the_close_price() {
    let prices = eurusd_prices();
    let mut pending = PendingPositionsCache::new();
    let kind = |p: &position_manager::EnginePosition| match &p.state {
        EnginePositionState::Pending(s) => s.pending_order_type,
        _ => panic!("a pending order was expected"),
    };
    let a = open_pending_with_id(
        &prices,
        &mut pending,
        &pending_command(None, PositionSide::Buy, 1.0950),
        "a".to_string(),
        1,
    )
    .unwrap();
    assert_eq!(kind(&a.position), ExecutionPendingOrderType::BuyLimit);
    assert_eq!(a.events.len(), 1);
    match &a.events[0] {
        EngineEvent::CreatePending { process_id, position } => {
            assert_eq!(process_id, "open-1");
            assert_eq!(position.data.id, "a");
        }
        _ => panic!("a create event was expected"),
    }
    let b = open_pending(&prices, &mut pending, &pending_command(Some("b"), PositionSide::Buy, 1.1050), 1)
        .unwrap();
    assert_eq!(kind(&b.position), ExecutionPendingOrderType::BuyStop);
    let c = open_pending(&prices, &mut pending, &pending_command(Some("c"), PositionSide::Sell, 1.1050), 1)
        .unwrap();
    assert_eq!(kind(&c.position), ExecutionPendingOrderType::SellLimit);
    let d = open_pending(&prices, &mut pending, &pending_command(Some("d"), PositionSide::Sell, 1.0950), 1)
        .unwrap();
    assert_eq!(kind(&d.position), ExecutionPendingOrderType::SellStop);
    assert_eq!(pending.count_positions_in_cache(), 4);
    assert_eq!(pending.get_position_by_id("c").unwrap().data.id, "c");
    let fresh = open_pending(&prices, &mut pending, &pending_command(None, PositionSide::Buy, 1.0), 1)
        .unwrap();
    assert!(!fresh.position.data.id.is_empty());
}

#[test]
fn open_pending_errors() {
    let mut pending = PendingPositionsCache::new();
    let none = ActivePricesCache::new();
    assert_eq!(
        open_pending(&none, &mut pending, &pending_command(Some("a"), PositionSide::Buy, 1.0), 0).err(),
        Some(EngineError::NoLiquidity)
    );
    let prices = eurusd_prices();
    let mut bad = pending_command(Some("a"), PositionSide::Buy, 1.0);
    bad.command.invest_amount = 0;
    assert_eq!(open_pending(&prices, &mut pending, &bad, 0).err(), Some(EngineError::InvalidRequest));
    let mut bad = pending_command(Some("a"), PositionSide::Buy, 1.0);
    bad.desired_open_price = position_manager::MAX_PRICE + 1;
    assert_eq!(open_pending(&prices, &mut pending, &bad, 0).err(), Some(EngineError::InvalidRequest));
    assert_eq!(pending.count_positions_in_cache(), 0);
}

#[test]
fn cancel_pending_removes_the_order() {
    let prices = eurusd_prices();
    let mut pending = PendingPositionsCache::new();
    open_pending(&prices, &mut pending, &pending_command(Some("a"), PositionSide::Buy, 1.0950), 0)
        .unwrap();
    let applied = cancel_pending_with_process_id(&mut pending, "a", "cancel-1".to_string()).unwrap();
    assert_eq!(applied.position.data.id, "a");
    match &applied.events[0] {
        EngineEvent::CancelPending { process_id, position } => {
            assert_eq!(process_id, "cancel-1");
            assert_eq!(position.data.id, "a");
        }
        _ => panic!("a cancel event was expected"),
    }
    assert_eq!(pending.count_positions_in_cache(), 0);
    assert_eq!(cancel_pending(&mut pending, "a").err(), Some(EngineError::PositionNotFound));
    open_pending(&prices, &mut pending, &pending_command(Some("b"), PositionSide::Buy, 1.0950), 0)
        .unwrap();
    let applied = cancel_pending(&mut pending, "b").unwrap();
    match &applied.events[0] {
        EngineEvent::CancelPending { process_id, .. } => assert!(!process_id.is_empty()),
        _ => panic!("a cancel event was expected"),
    }
}

#[test]
fn pending_executes_and_closes_under_one_id() {
    let mut prices = eurusd_prices();
    let mut active = ActivePositionsCache::new();
    let mut pending = PendingPositionsCache::new();
    let mut awaiting = PendingPositionsCache::new();
    let created = open_pending(
        &prices,
        &mut pending,
        &pending_command(Some("x"), PositionSide::Buy, 1.0950),
        1,
    )
    .unwrap();
    let tick = quote("EURUSD", "EUR", "USD", 1.0940, 1.0942);
    handle_bid_ask_message(&mut prices, &mut active, &mut pending, &mut awaiting, tick, "tick", 2);
    let executed = confirm_pending_execution_with_process_id(
        &mut awaiting,
        &prices,
        &mut active,
        "x",
        "confirm".to_string(),
        3,
    )
    .unwrap();
    let closed =
        close_position(&mut active, "x", ExecutionClosePositionReason::ClientCommand, "close", 4)
            .unwrap();
    let id_of = |e: &EngineEvent| match e {
        EngineEvent::CreatePending { position, .. }
        | EngineEvent::ExecutePending { position, .. }
        | EngineEvent::CreatePosition { position, .. }
        | EngineEvent::ClosePosition { position, .. } => position.data.id.clone(),
        _ => panic!("a persistence event was expected"),
    };
    assert_eq!(id_of(&created.events[0]), "x");
    assert_eq!(executed.events.len(), 2);
    assert!(matches!(executed.events[0], EngineEvent::ExecutePending { .. }));
    assert!(matches!(executed.events[1], EngineEvent::CreatePosition { .. }));
    assert_eq!(id_of(&executed.events[0]), "x");
    assert_eq!(id_of(&executed.events[1]), "x");
    assert_eq!(id_of(&closed.events[0]), "x");
    let a = executed.position.get_active_state();
    assert_eq!(a.asset_open_price, units(1.0942));
    assert_eq!(a.pending_state.unwrap().desire_price, units(1.0950));
    assert_eq!(a.open_process_id, "confirm");
    assert_eq!(executed.position.data.create_date, 1);
    assert_eq!(executed.position.data.create_process_id, "open-1");
    assert_eq!(executed.position.data.last_update_date, 3);
    assert_eq!(awaiting.count_positions_in_cache(), 0);
    assert_eq!(active.count_positions_in_cache(), 0);
}

#[test]
fn confirm_errors_change_nothing() {
    let mut prices = eurusd_prices();
    let mut active = ActivePositionsCache::new();
    let mut pending = PendingPositionsCache::new();
    let mut awaiting = PendingPositionsCache::new();
    assert_eq!(
        confirm_pending_execution(&mut awaiting, &prices, &mut active, "x", 0).err(),
        Some(EngineError::PositionNotFound)
    );
    let mut c = pending_command(Some("x"), PositionSide::Buy, 1.0950);
    c.command.collateral = "CHF".to_string();
    open_pending(&prices, &mut pending, &c, 1).unwrap();
    let tick = quote("EURUSD", "EUR", "USD", 1.0940, 1.0942);
    handle_bid_ask_message(&mut prices, &mut active, &mut pending, &mut awaiting, tick, "tick", 2);
    assert_eq!(awaiting.count_positions_in_cache(), 1);
    assert_eq!(
        confirm_pending_execution(&mut awaiting, &prices, &mut active, "x", 3).err(),
        Some(EngineError::NoLiquidity)
    );
    assert_eq!(awaiting.count_positions_in_cache(), 1);
    assert_eq!(active.count_positions_in_cache(), 0);
    prices.update(quote("EURCHF", "EUR", "CHF", 0.9500, 0.9502));
    prices.update(quote("USDCHF", "USD", "CHF", 0.8800, 0.8802));
    let applied = confirm_pending_execution(&mut awaiting, &prices, &mut active, "x", 3).unwrap();
    assert_eq!(applied.position.data.id, "x");
    assert_eq!(awaiting.count_positions_in_cache(), 0);
    assert_eq!(active.count_positions_in_cache(), 1);
}

#[test]
fn restore_active_recomputes_total_rates_and_profit() {
    let prices = eurusd_prices();
    let mut active = ActivePositionsCache::new();
    let opened =
        open_position(&prices, &mut active, &command(Some("one"), PositionSide::Buy), 0).unwrap();
    let mut stored = opened.position;
    if let EnginePositionState::Active(a) = &mut stored.state {
        a.swaps.swaps.push(EnginePositionSwap { date: 1, amount: 4_000_000 });
        a.swaps.swaps.push(EnginePositionSwap { date: 2, amount: 6_000_000 });
        a.swaps.total = 999;
        a.profit = 123;
        a.asset_last_price = 1;
    }
    let now = load_prices_cache(vec![quote("EURUSD", "EUR", "USD", 1.0900, 1.0902)]);
    let restored = restore_active_position(stored, &now).unwrap();
    let a = restored.get_active_state();
    assert_eq!(a.swaps.total, 10_000_000);
    assert_eq!(a.asset_last_price, units(1.0900));
    assert_eq!(a.asset_last_bid_ask.ask, units(1.0902));
    assert_eq!(a.asset_open_price, units(1.1002));
    assert_eq!(a.profit, -82_710_416);
}

#[test]
fn restore_active_errors() {
    let prices = eurusd_prices();
    let mut active = ActivePositionsCache::new();
    let opened =
        open_position(&prices, &mut active, &command(Some("one"), PositionSide::Buy), 0).unwrap();
    let empty = ActivePricesCache::new();
    assert_eq!(
        restore_active_position(opened.position.clone(), &empty).err(),
        Some(EngineError::NoLiquidity)
    );
    let mut zero_invest = opened.position.clone();
    zero_invest.data.invest_amount = 0;
    assert_eq!(
        restore_active_position(zero_invest, &prices).err(),
        Some(EngineError::InvalidRequest)
    );
    let mut too_many = opened.position.clone();
    if let EnginePositionState::Active(a) = &mut too_many.state {
        a.swaps.swaps.push(EnginePositionSwap { date: 1, amount: i64::MAX });
        a.swaps.swaps.push(EnginePositionSwap { date: 2, amount: 1 });
    }
    assert_eq!(restore_active_position(too_many, &prices).err(), Some(EngineError::InvalidRequest));
    let mut fits = opened.position.clone();
    if let EnginePositionState::Active(a) = &mut fits.state {
        a.swaps.swaps.push(EnginePositionSwap { date: 1, amount: i64::MAX });
        a.swaps.swaps.push(EnginePositionSwap { date: 2, amount: i64::MAX });
        a.swaps.swaps.push(EnginePositionSwap { date: 3, amount: i64::MIN });
    }
    assert_eq!(
        restore_active_position(fits, &prices).unwrap().get_active_state().swaps.total,
        i64::MAX - 1
    );
}

#[test]
fn restore_pending_takes_the_kind_anew() {
    let prices = eurusd_prices();
    let mut pending = PendingPositionsCache::new();
    let made = open_pending(
        &prices,
        &mut pending,
        &pending_command(Some("a"), PositionSide::Buy, 1.0950),
        0,
    )
    .unwrap();
    let lower = load_prices_cache(vec![quote("EURUSD", "EUR", "USD", 1.0900, 1.0902)]);
    let restored = restore_pending_position(made.position.clone(), &lower).unwrap();
    match &restored.state {
        EnginePositionState::Pending(s) => {
            assert_eq!(s.pending_order_type, ExecutionPendingOrderType::BuyStop);
            assert_eq!(s.desire_price, units(1.0950));
        }
        _ => panic!("a pending order was expected"),
    }
    assert_eq!(
        restore_pending_position(made.position.clone(), &ActivePricesCache::new()).err(),
        Some(EngineError::NoLiquidity)
    );
    let mut bad = made.position.clone();
    bad.data.leverage = 0;
    assert_eq!(restore_pending_position(bad, &prices).err(), Some(EngineError::InvalidRequest));
}

#[test]
fn execute_pending_in_one_step() {
    let prices = eurusd_prices();
    let mut active = ActivePositionsCache::new();
    let mut pending = PendingPositionsCache::new();
    open_pending(&prices, &mut pending, &pending_command(Some("x"), PositionSide::Sell, 1.1050), 1)
        .unwrap();
    assert_eq!(
        execute_pending(&mut pending, &prices, &mut active, "y", "exec".to_string(), 2).err(),
        Some(EngineError::PositionNotFound)
    );
    let applied =
        execute_pending(&mut pending, &prices, &mut active, "x", "exec".to_string(), 2).unwrap();
    assert_eq!(pending.count_positions_in_cache(), 0);
    assert_eq!(active.count_positions_in_cache(), 1);
    assert_eq!(applied.position.data.id, "x");
    assert_eq!(applied.position.get_active_state().asset_open_price, units(1.1000));
    assert_eq!(applied.events.len(), 2);
    match (&applied.events[0], &applied.events[1]) {
        (
            EngineEvent::ExecutePending { process_id: a, position: order },
            EngineEvent::CreatePosition { process_id: b, position },
        ) => {
            assert_eq!(a, "exec");
            assert_eq!(b, "exec");
            assert_eq!(order.data.id, "x");
            assert!(order.is_pending());
            assert!(position.is_active());
        }
        _ => panic!("an execute and a create event were expected"),
    }
}
