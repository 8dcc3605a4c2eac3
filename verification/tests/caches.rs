use position_manager::{
    load_prices_cache, ActivePositionsCache, ActivePricesCache, EngineBidAsk, EnginePosition, EnginePositionState, ExecutionClosePositionReason, PendingPositionsCache, PositionOpenCommand, PositionOpenPendingCommand, PositionSide, PositionsStoreIndexAccessor,
};

fn open_position(
    prices: &ActivePricesCache,
    active: &mut ActivePositionsCache,
    command: &PositionOpenCommand,
    now: i64,
) -> Result<position_manager::Applied, position_manager::EngineError> {
    let none = PendingPositionsCache::new();
    position_manager::open_position(prices, active, &none, &none, command, now)
}

fn open_pending(
    prices: &ActivePricesCache,
    pending: &mut PendingPositionsCache,
    command: &PositionOpenPendingCommand,
    now: i64,
) -> Result<position_manager::Applied, position_manager::EngineError> {
    let active = ActivePositionsCache::new();
    let none = PendingPositionsCache::new();
    position_manager::open_pending(prices, &active, pending, &none, command, now)
}


fn quote(pair: &str, base: &str, quote: &str, bid: u64, ask: u64) -> EngineBidAsk {
    EngineBidAsk {
        asset_pair: pair.to_string(),
        bid,
        ask,
        datetime: 42,
        base: base.to_string(),
        quote: quote.to_string(),
    }
}

fn prices() -> ActivePricesCache {
    load_prices_cache(vec![quote("EURUSD", "EUR", "USD", 1_100_000, 1_100_200)])
}

fn command(id: &str, account: &str) -> PositionOpenCommand {
    PositionOpenCommand {
        id: Some(id.to_string()),
        trader_id: "trader".to_string(),
        account_id: account.to_string(),
        side: PositionSide::Buy,
        asset_pair: "EURUSD".to_string(),
        base: "EUR".to_string(),
        quote: "USD".to_string(),
        collateral: "USD".to_string(),
        invest_amount: 1_000_000_000,
        leverage: 10_000_000,
        stop_out_percent: 50_000_000,
        process_id: "open".to_string(),
        tp_profit: Some(5),
        tp_price: Some(6),
        sl_profit: Some(-7),
        sl_price: Some(8),
        margin_call_percent: None,
        topping_up_percent: None,
    }
}

fn made(id: &str, account: &str) -> EnginePosition {
    let mut scratch = ActivePositionsCache::new();
    open_position(&prices(), &mut scratch, &command(id, account), 0).unwrap().position
}

#[test]
fn bid_ask_getters() {
    let q = quote("EURUSD", "EUR", "USD", 1, 2);
    assert_eq!(q.get_asset_pair(), "EURUSD");
    assert_eq!(q.get_bid(), 1);
    assert_eq!(q.get_ask(), 2);
    assert_eq!(q.get_date(), 42);
    assert_eq!(q.get_base(), "EUR");
    assert_eq!(q.get_quote(), "USD");
}

#[test]
fn position_getters() {
    let p = made("one", "ac1");
    assert_eq!(p.get_id(), "one");
    assert_eq!(p.get_asset_pair(), "EURUSD");
    assert_eq!(*p.get_side(), PositionSide::Buy);
    assert_eq!(p.get_invest_amount(), 1_000_000_000);
    assert_eq!(p.get_so_percent(), 50_000_000);
    assert_eq!(p.get_account_id(), "ac1");
    assert_eq!(p.get_profit(), 0);
    assert_eq!(p.get_open_price(), 1_100_200);
    assert_eq!(p.get_last_close_price(), 1_100_200);
    assert_eq!(p.get_take_profit_in_order_profit(), Some(5));
    assert_eq!(p.get_take_profit_in_asset_price(), Some(6));
    assert_eq!(p.get_stop_loss_in_order_profit(), Some(-7));
    assert_eq!(p.get_stop_loss_in_asset_price(), Some(8));
    assert_eq!(p.get_trader_index(), Some("trader".to_string()));
    assert_eq!(p.get_account_index(), Some("ac1".to_string()));
    assert_eq!(p.get_instrument_index(), Some("EURUSD".to_string()));
    assert_eq!(p.get_base_coll_index(), Some("EUR".to_string()));
    assert_eq!(p.get_quote_coll_index(), Some("USD".to_string()));
    assert_eq!(p.get_collateral_index(), Some("USD".to_string()));
    assert!(p.is_active());
    assert!(!p.is_pending());
}

#[test]
fn close_reason_of_a_position() {
    let mut p = made("one", "ac1");
    // The take-profit price of 0.000006 is reached at once.
    assert_eq!(p.get_position_close_reason(), Some(ExecutionClosePositionReason::TakeProfit));
    p.update_tp(&None, &None);
    assert_eq!(p.get_close_reason(), None);
    p.update_sl(&Some(0), &None);
    assert_eq!(p.get_close_reason(), Some(ExecutionClosePositionReason::StopLoss));
    p.update_sl(&None, &None);
    assert_eq!(p.data.stop_loss_in_position_profit, None);
    assert_eq!(p.get_close_reason(), None);
}

#[test]
fn update_profit_stores_the_profit() {
    let mut p = made("one", "ac1");
    p.state.update_profit(17);
    assert_eq!(p.get_profit(), 17);
    p.update_pl();
    assert_eq!(p.get_profit(), 0);
}

#[test]
fn handle_bid_ask_follows_the_asset_quote_only() {
    let mut p = made("one", "ac1");
    p.handle_bid_ask(&quote("GBPUSD", "GBP", "USD", 1_000_000, 1_000_200));
    assert_eq!(p.get_last_close_price(), 1_100_200);
    p.handle_bid_ask(&quote("EURUSD", "EUR", "USD", 1_090_000, 1_090_200));
    assert_eq!(p.get_last_close_price(), 1_090_000);
    assert_eq!(p.get_profit(), -92_710_416);
}

#[test]
fn margin_call_flag_and_reserve() {
    let mut p = made("one", "ac1");
    p.update_tp(&None, &None);
    p.update_sl(&None, &None);
    p.data.margin_call_percent = Some(5_000_000);
    p.data.topping_up_percent = Some(20_000_000);
    assert!(!p.update_margin_call_hit());
    assert!(!p.can_return_topping_up_funds());
    p.apply_position_topping_up(30);
    assert!(p.can_return_topping_up_funds());
    p.handle_bid_ask(&quote("EURUSD", "EUR", "USD", 1_090_000, 1_090_200));
    assert!(p.update_margin_call_hit());
    assert!(!p.update_margin_call_hit());
    assert!(p.can_return_topping_up_funds());
    p.return_topping_up(10);
    assert_eq!(p.get_active_state().topping_up_reserve, 20);
    p.return_topping_up(20);
    assert!(!p.can_return_topping_up_funds());
    p.apply_position_topping_up(1);
    p.handle_bid_ask(&quote("EURUSD", "EUR", "USD", 800_000, 800_200));
    assert!(!p.can_return_topping_up_funds());
}

#[test]
fn closing_a_position_keeps_its_active_state() {
    let p = made("one", "ac1");
    let closed = p.close_position("c", ExecutionClosePositionReason::ForceClose, 9);
    assert!(!closed.is_active());
    match &closed.state {
        EnginePositionState::Closed(c) => {
            assert_eq!(c.close_reason, ExecutionClosePositionReason::ForceClose);
            assert_eq!(c.close_process_id, "c");
            assert_eq!(c.asset_close_price, 1_100_200);
            assert_eq!(c.active_state.asset_open_price, 1_100_200);
        }
        _ => panic!("a closed position was expected"),
    }
}

#[test]
fn cache_load_count_and_account_query() {
    let mut cache = ActivePositionsCache::new();
    cache.load_positions(vec![made("a", "ac1"), made("b", "ac2"), made("c", "ac1"), made("a", "ac3")]);
    assert_eq!(cache.count_positions_in_cache(), 3);
    let ids = |v: Vec<EnginePosition>| -> Vec<String> { v.into_iter().map(|p| p.data.id).collect() };
    assert_eq!(ids(cache.get_account_active_positions("ac1")), vec!["c"]);
    assert_eq!(ids(cache.get_account_active_positions("ac3")), vec!["a"]);
    assert_eq!(ids(cache.get_account_active_positions("none")), Vec::<String>::new());
}

#[test]
fn cache_update_replaces_in_place() {
    let mut cache = ActivePositionsCache::new();
    cache.load_positions(vec![made("a", "ac1"), made("b", "ac1")]);
    let mut changed = made("a", "ac1");
    changed.data.last_update_process_id = "changed".to_string();
    assert!(cache.update_position(changed));
    assert!(!cache.update_position(made("z", "ac1")));
    assert_eq!(cache.count_positions_in_cache(), 2);
    assert_eq!(cache.get_position_by_id("a").unwrap().data.last_update_process_id, "changed");
    let ids: Vec<String> =
        cache.get_account_active_positions("ac1").into_iter().map(|p| p.data.id).collect();
    assert_eq!(ids, vec!["a", "b"]);
}

#[test]
fn cache_close_positions_in_their_order() {
    let mut cache = ActivePositionsCache::new();
    cache.load_positions(vec![made("a", "ac1"), made("b", "ac1"), made("c", "ac1")]);
    let closed = cache.close_positions(vec![
        ("c".to_string(), ExecutionClosePositionReason::StopOut),
        ("x".to_string(), ExecutionClosePositionReason::StopLoss),
        ("a".to_string(), ExecutionClosePositionReason::TakeProfit),
        ("c".to_string(), ExecutionClosePositionReason::StopLoss),
    ]);
    assert_eq!(closed.len(), 2);
    assert_eq!(closed[0].0.data.id, "c");
    assert_eq!(closed[0].1, ExecutionClosePositionReason::StopOut);
    assert_eq!(closed[1].0.data.id, "a");
    assert_eq!(closed[1].1, ExecutionClosePositionReason::TakeProfit);
    assert_eq!(cache.count_positions_in_cache(), 1);
    assert!(cache.get_position_by_id("b").is_some());
    assert!(cache.remove_position("b").is_some());
    assert!(cache.remove_position("b").is_none());
}

#[test]
fn pending_cache_account_query() {
    let mut pending = PendingPositionsCache::new();
    for (id, account) in [("a", "ac1"), ("b", "ac2"), ("c", "ac1")] {
        let c = PositionOpenPendingCommand {
            command: command(id, account),
            desired_open_price: 1_000_000,
        };
        open_pending(&prices(), &mut pending, &c, 0).unwrap();
    }
    let ids: Vec<String> =
        pending.get_account_pending_positions("ac1").into_iter().map(|p| p.data.id).collect();
    assert_eq!(ids, vec!["a", "c"]);
    assert!(pending.get_position_by_id("b").unwrap().is_pending());
    assert!(pending.remove_position("b").is_some());
    assert_eq!(pending.count_positions_in_cache(), 2);
}
