use position_manager::{get_active_prices, load_prices_cache, ActivePricesCache, EngineBidAsk, EngineError};

fn quote(pair: &str, base: &str, quote: &str, bid: u64, ask: u64) -> EngineBidAsk {
    EngineBidAsk {
        asset_pair: pair.to_string(),
        bid,
        ask,
        datetime: 0,
        base: base.to_string(),
        quote: quote.to_string(),
    }
}

#[test]
fn empty_cache_has_no_quote() {
    let cache = ActivePricesCache::new();
    assert!(cache.get_by_id("EURUSD").is_none());
    assert!(cache.get_by_currencies("EUR", "USD").is_none());
    assert_eq!(cache.get_all().len(), 0);
}

#[test]
fn update_overwrites_the_quote_of_a_pair() {
    let mut cache = ActivePricesCache::new();
    cache.update(quote("EURUSD", "EUR", "USD", 1_100_000, 1_100_200));
    cache.update(quote("EURUSD", "EUR", "USD", 1_090_000, 1_090_200));
    let q = cache.get_by_id("EURUSD").unwrap();
    assert_eq!(q.bid, 1_090_000);
    assert_eq!(q.ask, 1_090_200);
    assert_eq!(cache.get_all().len(), 1);
}

#[test]
fn latest_wins_whatever_the_timestamp() {
    let mut cache = ActivePricesCache::new();
    let mut newer = quote("EURUSD", "EUR", "USD", 1_100_000, 1_100_200);
    newer.datetime = 2_000;
    let mut older = quote("EURUSD", "EUR", "USD", 1_050_000, 1_050_200);
    older.datetime = 1_000;
    cache.update(newer);
    cache.update(older);
    assert_eq!(cache.get_by_id("EURUSD").unwrap().bid, 1_050_000);
    assert_eq!(cache.get_by_id("EURUSD").unwrap().datetime, 1_000);
}

#[test]
fn a_bid_above_the_ask_is_accepted() {
    let mut cache = ActivePricesCache::new();
    let q = quote("EURUSD", "EUR", "USD", 1_200_000, 1_100_000);
    assert!(q.is_valid());
    cache.update(q);
    assert_eq!(cache.get_by_id("EURUSD").unwrap().bid, 1_200_000);
}

#[test]
fn a_price_above_the_limit_is_not_valid() {
    assert!(!quote("EURUSD", "EUR", "USD", position_manager::MAX_PRICE + 1, 1).is_valid());
    assert!(!quote("EURUSD", "EUR", "USD", 1, position_manager::MAX_PRICE + 1).is_valid());
    assert!(quote("EURUSD", "EUR", "USD", position_manager::MAX_PRICE, 0).is_valid());
}

#[test]
fn directed_lookup_goes_by_base_and_quote() {
    let mut cache = ActivePricesCache::new();
    cache.update(quote("EURUSD", "EUR", "USD", 1_100_000, 1_100_200));
    cache.update(quote("USDJPY", "USD", "JPY", 132_000_000, 132_100_000));
    assert_eq!(cache.get_by_base_quote("EUR", "USD").unwrap().asset_pair, "EURUSD");
    assert!(cache.get_by_base_quote("USD", "EUR").is_none());
    assert_eq!(cache.get_by_quote_base("USD", "EUR").unwrap().asset_pair, "EURUSD");
    assert_eq!(cache.get_by_base_quote("USD", "JPY").unwrap().asset_pair, "USDJPY");
    assert!(cache.get_by_base_quote("EUR", "JPY").is_none());
}

#[test]
fn lookup_by_currencies_tries_both_orders() {
    let mut cache = ActivePricesCache::new();
    cache.update(quote("EURUSD", "EUR", "USD", 1_100_000, 1_100_200));
    assert_eq!(cache.get_by_currencies("EUR", "USD").unwrap().asset_pair, "EURUSD");
    assert_eq!(cache.get_by_currencies("USD", "EUR").unwrap().asset_pair, "EURUSD");
    assert!(cache.get_by_currencies("USD", "JPY").is_none());
    cache.update(quote("USDEUR", "USD", "EUR", 900_000, 900_100));
    assert_eq!(cache.get_by_currencies("EUR", "USD").unwrap().asset_pair, "EURUSD");
    assert_eq!(cache.get_by_currencies("USD", "EUR").unwrap().asset_pair, "USDEUR");
}

#[test]
fn directed_index_names_the_pair_last_quoted() {
    let mut cache = ActivePricesCache::new();
    cache.update(quote("EURUSD", "EUR", "USD", 1_100_000, 1_100_200));
    cache.update(quote("EURUSD.x", "EUR", "USD", 1_101_000, 1_101_200));
    assert_eq!(cache.get_by_base_quote("EUR", "USD").unwrap().asset_pair, "EURUSD.x");
    assert_eq!(cache.get_by_id("EURUSD").unwrap().bid, 1_100_000);
}

#[test]
fn get_all_keeps_the_order_of_first_quotes() {
    let mut cache = ActivePricesCache::new();
    cache.update(quote("EURUSD", "EUR", "USD", 1, 2));
    cache.update(quote("USDJPY", "USD", "JPY", 3, 4));
    cache.update(quote("EURUSD", "EUR", "USD", 5, 6));
    let all = cache.get_all();
    assert_eq!(all.len(), 2);
    assert_eq!(all[0].asset_pair, "EURUSD");
    assert_eq!(all[0].bid, 5);
    assert_eq!(all[1].asset_pair, "USDJPY");
}

#[test]
fn load_prices_cache_stores_each_quote_in_turn() {
    let cache = load_prices_cache(vec![
        quote("EURUSD", "EUR", "USD", 1, 2),
        quote("USDJPY", "USD", "JPY", 3, 4),
        quote("EURUSD", "EUR", "USD", 5, 6),
    ]);
    assert_eq!(cache.get_by_id("EURUSD").unwrap().bid, 5);
    assert_eq!(cache.get_by_id("USDJPY").unwrap().ask, 4);
    assert_eq!(cache.get_all().len(), 2);
    let empty = load_prices_cache(vec![]);
    assert_eq!(empty.get_all().len(), 0);
}

#[test]
fn active_prices_of_a_position() {
    let cache = load_prices_cache(vec![
        quote("CHFJPY", "CHF", "JPY", 149_000_000, 149_100_000),
        quote("USDJPY", "USD", "JPY", 132_000_000, 132_100_000),
    ]);
    let (asset, quote_collateral) = get_active_prices(&cache, "CHF", "JPY", "USD").unwrap();
    assert_eq!(asset.asset_pair, "CHFJPY");
    assert_eq!(quote_collateral.unwrap().asset_pair, "USDJPY");
    let (_, none) = get_active_prices(&cache, "CHF", "JPY", "EUR").unwrap();
    assert!(none.is_none());
    assert_eq!(get_active_prices(&cache, "JPY", "CHF", "USD").err(), Some(EngineError::NoLiquidity));
}
