use position_manager::{
    EngineCacheQueryBuilder, EnginePosition, EnginePositionBase, EnginePositionState,
    ExecutionPendingOrderType, PendingPositionState, PositionSide, PositionsStoreIndex,
    ActivePositionsStore,
};

fn item(id: &str, trader: &str, account: &str, pair: &str, base: &str, quote: &str, collateral: &str) -> EnginePosition {
    EnginePosition {
        data: EnginePositionBase {
            id: id.to_string(),
            trader_id: trader.to_string(),
            account_id: account.to_string(),
            asset_pair: pair.to_string(),
            side: PositionSide::Buy,
            invest_amount: 1_000_000,
            leverage: 1_000_000,
            stop_out_percent: 50_000_000,
            create_process_id: "p".to_string(),
            create_date: 0,
            last_update_process_id: "p".to_string(),
            last_update_date: 0,
            take_profit_in_position_profit: None,
            take_profit_in_asset_price: None,
            stop_loss_in_position_profit: None,
            stop_loss_in_asset_price: None,
            margin_call_percent: None,
            topping_up_percent: None,
            collateral_currency: collateral.to_string(),
            base: base.to_string(),
            quote: quote.to_string(),
        },
        state: EnginePositionState::Pending(PendingPositionState {
            desire_price: 1_000_000,
            pending_order_type: ExecutionPendingOrderType::BuyLimit,
        }),
    }
}

#[test]
fn test_account_index() {
    let indx = item("id1", "t", "ac1", "test", "test", "test", "c");
    let indx2 = item("id2", "t", "ac1", "test", "test", "test", "c");

    let mut indexses = PositionsStoreIndex::new();
    indexses.add(&indx);
    indexses.add(&indx2);

    let account_positions = indexses.get_account_positions("ac1");

    assert_eq!(true, account_positions.is_some());

    let positions = account_positions.unwrap();
    assert_eq!(2, positions.len());

    let positions = positions.into_iter().collect::<Vec<&String>>();

    assert_eq!("id1", positions[0]);
    assert_eq!("id2", positions[1]);
}

#[test]
fn index_files_under_every_key() {
    let mut index = PositionsStoreIndex::new();
    index.add(&item("id1", "t1", "ac1", "EURUSD", "EUR", "USD", "CHF"));
    assert_eq!(index.get_trader_positions("t1").unwrap(), &vec!["id1".to_string()]);
    assert_eq!(index.get_account_positions("ac1").unwrap(), &vec!["id1".to_string()]);
    assert_eq!(index.get_instrument_positions("EURUSD").unwrap(), &vec!["id1".to_string()]);
    assert_eq!(index.get_base_coll_positions("EUR").unwrap(), &vec!["id1".to_string()]);
    assert_eq!(index.get_quote_coll_positions("USD").unwrap(), &vec!["id1".to_string()]);
    assert_eq!(index.get_collateral_positions("CHF").unwrap(), &vec!["id1".to_string()]);
    assert!(index.get_account_positions("ac2").is_none());
    assert!(index.get_base_coll_positions("USD").is_none());
}

#[test]
fn index_add_twice_files_once() {
    let mut index = PositionsStoreIndex::new();
    let p = item("id1", "t1", "ac1", "EURUSD", "EUR", "USD", "USD");
    index.add(&p);
    index.add(&p);
    assert_eq!(index.get_account_positions("ac1").unwrap().len(), 1);
}

#[test]
fn index_remove_leaves_the_key_with_the_rest() {
    let mut index = PositionsStoreIndex::new();
    let a = item("id1", "t1", "ac1", "EURUSD", "EUR", "USD", "USD");
    let b = item("id2", "t1", "ac1", "EURUSD", "EUR", "USD", "USD");
    index.add(&a);
    index.add(&b);
    index.remove(&a);
    assert_eq!(index.get_account_positions("ac1").unwrap(), &vec!["id2".to_string()]);
    index.remove(&b);
    assert_eq!(index.get_account_positions("ac1").unwrap().len(), 0);
    index.remove(&b);
    assert_eq!(index.get_account_positions("ac1").unwrap().len(), 0);
}

#[test]
fn store_add_get_remove() {
    let mut store = ActivePositionsStore::new();
    assert_eq!(store.count_positions(), 0);
    store.add_position(item("id1", "t1", "ac1", "EURUSD", "EUR", "USD", "USD"));
    store.add_position(item("id2", "t1", "ac2", "EURUSD", "EUR", "USD", "USD"));
    assert_eq!(store.count_positions(), 2);
    assert_eq!(store.get_position("id2").unwrap().data.account_id, "ac2");
    assert!(store.get_position("id3").is_none());
    let removed = store.remove_position("id1").unwrap();
    assert_eq!(removed.data.id, "id1");
    assert!(store.remove_position("id1").is_none());
    assert_eq!(store.count_positions(), 1);
    assert!(store.get_position("id1").is_none());
}

#[test]
fn store_add_same_id_replaces() {
    let mut store = ActivePositionsStore::new();
    store.add_position(item("id1", "t1", "ac1", "EURUSD", "EUR", "USD", "USD"));
    store.add_position(item("id2", "t1", "ac1", "EURUSD", "EUR", "USD", "USD"));
    store.add_position(item("id1", "t1", "ac9", "GBPUSD", "GBP", "USD", "USD"));
    assert_eq!(store.count_positions(), 2);
    assert_eq!(store.get_position("id1").unwrap().data.account_id, "ac9");
    let by_old_account = store.query_positions(&EngineCacheQueryBuilder::new().with_account("ac1"));
    assert_eq!(by_old_account.len(), 1);
    assert_eq!(by_old_account[0].data.id, "id2");
    let all = store.query_positions(&EngineCacheQueryBuilder::new());
    assert_eq!(all.len(), 2);
    assert_eq!(all[0].data.id, "id1");
    assert_eq!(all[1].data.id, "id2");
}

#[test]
fn store_lists_by_ascending_id() {
    let mut store = ActivePositionsStore::new();
    for id in ["b", "a", "ab", "", "B", "c", "aa", "\u{e9}", "z"] {
        store.add_position(item(id, "t1", "ac1", "EURUSD", "EUR", "USD", "USD"));
    }
    let listed: Vec<String> = store
        .query_positions(&EngineCacheQueryBuilder::new())
        .into_iter()
        .map(|p| p.data.id)
        .collect();
    assert_eq!(listed, vec!["", "B", "a", "aa", "ab", "b", "c", "z", "\u{e9}"]);
    let mut ordered = listed.clone();
    ordered.sort();
    assert_eq!(listed, ordered);
    assert_eq!(store.find_position("a"), Some(2));
    store.remove_position("aa");
    store.add_position(item("a", "t1", "ac2", "EURUSD", "EUR", "USD", "USD"));
    let listed: Vec<String> = store
        .query_positions(&EngineCacheQueryBuilder::new())
        .into_iter()
        .map(|p| p.data.id)
        .collect();
    assert_eq!(listed, vec!["", "B", "a", "ab", "b", "c", "z", "\u{e9}"]);
    assert_eq!(store.get_position("a").unwrap().data.account_id, "ac2");
}

#[test]
fn query_is_a_conjunction() {
    let mut store = ActivePositionsStore::new();
    store.add_position(item("a", "t1", "ac1", "EURUSD", "EUR", "USD", "USD"));
    store.add_position(item("b", "t1", "ac2", "EURCHF", "EUR", "CHF", "USD"));
    store.add_position(item("c", "t2", "ac3", "GBPUSD", "GBP", "USD", "EUR"));
    store.add_position(item("d", "t2", "ac3", "EURUSD", "EUR", "USD", "EUR"));
    let ids = |q: EngineCacheQueryBuilder| -> Vec<String> {
        store.query_positions(&q).into_iter().map(|p| p.data.id).collect()
    };
    assert_eq!(ids(EngineCacheQueryBuilder::new()), vec!["a", "b", "c", "d"]);
    assert_eq!(ids(EngineCacheQueryBuilder::new().with_trader("t1")), vec!["a", "b"]);
    assert_eq!(ids(EngineCacheQueryBuilder::new().with_account("ac3")), vec!["c", "d"]);
    assert_eq!(ids(EngineCacheQueryBuilder::new().with_instrument("EURUSD")), vec!["a", "d"]);
    assert_eq!(ids(EngineCacheQueryBuilder::new().with_base("EUR")), vec!["a", "b", "d"]);
    assert_eq!(ids(EngineCacheQueryBuilder::new().with_quote("USD")), vec!["a", "c", "d"]);
    assert_eq!(ids(EngineCacheQueryBuilder::new().with_collateral("EUR")), vec!["c", "d"]);
    assert_eq!(
        ids(EngineCacheQueryBuilder::new().with_base("EUR").with_quote("USD")),
        vec!["a", "d"]
    );
    assert_eq!(
        ids(EngineCacheQueryBuilder::new().with_base("EUR").with_collateral("USD")),
        vec!["a", "b"]
    );
    assert_eq!(
        ids(EngineCacheQueryBuilder::new().with_quote("USD").with_collateral("USD").with_trader("t2")),
        Vec::<String>::new()
    );
    assert_eq!(ids(EngineCacheQueryBuilder::new().with_base("JPY")), Vec::<String>::new());
}

#[test]
fn store_places_and_in_place_changes() {
    let mut store = ActivePositionsStore::new();
    store.add_position(item("a", "t1", "ac1", "EURUSD", "EUR", "USD", "USD"));
    store.add_position(item("b", "t1", "ac2", "EURUSD", "EUR", "USD", "USD"));
    assert_eq!(store.find_position("a"), Some(0));
    assert_eq!(store.find_position("b"), Some(1));
    assert_eq!(store.find_position("c"), None);
    assert_eq!(store.position_at(1).data.id, "b");
    let by_account = EngineCacheQueryBuilder::new().with_account("ac2");
    assert!(!store.matches_at(0, &by_account));
    assert!(store.matches_at(1, &by_account));

    store.get_position_mut("a").unwrap().data.leverage = 7;
    assert_eq!(store.get_position("a").unwrap().data.leverage, 7);
    assert!(store.get_position_mut("z").is_none());
    store.position_at_mut(1).data.leverage = 9;
    assert_eq!(store.position_at(1).data.leverage, 9);

    let mut changed = item("a", "t1", "ac1", "EURUSD", "EUR", "USD", "USD");
    changed.data.leverage = 11;
    store.replace_at(0, changed);
    assert_eq!(store.get_position("a").unwrap().data.leverage, 11);
    assert_eq!(store.count_positions(), 2);

    let gone = store.remove_at(0);
    assert_eq!(gone.data.id, "a");
    assert_eq!(store.count_positions(), 1);
    assert_eq!(store.find_position("b"), Some(0));
    assert_eq!(store.query_positions(&EngineCacheQueryBuilder::new().with_account("ac1")).len(), 0);
}
