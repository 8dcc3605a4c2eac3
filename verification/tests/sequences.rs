use position_manager::{
    cancel_pending, charge_swaps, close_position, compute_profit, confirm_pending_execution,
    handle_bid_ask_message, load_prices_cache, open_pending, open_position,
    process_topping_up_refund, top_up_position, update_sl_tp, update_topping_up_settings,
    ActivePositionsCache, ActivePricesCache, Conversion, EngineBidAsk, EngineCacheQueryBuilder,
    EngineEvent, EnginePosition, ExecutionClosePositionReason, PendingPositionsCache,
    PositionOpenCommand, PositionOpenPendingCommand, PositionSide,
};

struct Random(u64);

impl Random {
    fn next(&mut self) -> u64 {
        self.0 = self.0.wrapping_mul(6364136223846793005).wrapping_add(1442695040888963407);
        self.0 >> 33
    }

    fn below(&mut self, bound: u64) -> u64 {
        self.next() % bound
    }
}

const CURRENCIES: [&str; 4] = ["EUR", "USD", "JPY", "CHF"];

fn pair_quote(random: &mut Random, base: &str, quote: &str) -> EngineBidAsk {
    let bid = random.below(3_000_000);
    let ask = random.below(3_000_000);
    EngineBidAsk {
        asset_pair: format!("{}{}", base, quote),
        bid,
        ask,
        datetime: 0,
        base: base.to_string(),
        quote: quote.to_string(),
    }
}

fn random_pair(random: &mut Random) -> (String, String) {
    let base = random.below(4) as usize;
    let mut quote = random.below(4) as usize;
    if quote == base {
        quote = (quote + 1) % 4;
    }
    (CURRENCIES[base].to_string(), CURRENCIES[quote].to_string())
}

fn random_command(random: &mut Random, id: String) -> PositionOpenCommand {
    let (base, quote) = random_pair(random);
    PositionOpenCommand {
        id: Some(id),
        trader_id: format!("t{}", random.below(3)),
        account_id: format!("a{}", random.below(3)),
        side: if random.below(2) == 0 { PositionSide::Buy } else { PositionSide::Sell },
        asset_pair: format!("{}{}", base, quote),
        base,
        quote,
        collateral: CURRENCIES[random.below(4) as usize].to_string(),
        invest_amount: 1 + random.below(5_000_000_000),
        leverage: 1_000_000 + random.below(100_000_000),
        stop_out_percent: 1 + random.below(100_000_000),
        process_id: "open".to_string(),
        tp_profit: if random.below(4) == 0 { Some(random.below(1_000_000_000) as i64) } else { None },
        tp_price: if random.below(4) == 0 { Some(random.below(3_000_000)) } else { None },
        sl_profit: if random.below(4) == 0 { Some(-(random.below(1_000_000_000) as i64)) } else { None },
        sl_price: if random.below(4) == 0 { Some(random.below(3_000_000)) } else { None },
        margin_call_percent: if random.below(2) == 0 { Some(random.below(100_000_000)) } else { None },
        topping_up_percent: if random.below(2) == 0 { Some(random.below(100_000_000)) } else { None },
    }
}

fn all(store: &position_manager::ActivePositionsStore) -> Vec<EnginePosition> {
    store.query_positions(&EngineCacheQueryBuilder::new())
}

fn conversion(bid_ask: &Option<EngineBidAsk>, price: u64, collateral: &str) -> Conversion {
    match bid_ask {
        None => Conversion::Identity,
        Some(b) if b.quote == collateral => Conversion::Divide(price),
        Some(_) => Conversion::Multiply(price),
    }
}

fn check(
    active: &ActivePositionsCache,
    pending: &PendingPositionsCache,
    awaiting: &PendingPositionsCache,
) {
    for store in [&active.positions, &pending.positions, &awaiting.positions] {
        let listed: Vec<String> = all(store).into_iter().map(|p| p.data.id).collect();
        let mut ordered = listed.clone();
        ordered.sort();
        assert_eq!(listed, ordered);
    }
    let mut ids: Vec<String> = Vec::new();
    for p in all(&active.positions) {
        assert!(p.is_active());
        let a = p.get_active_state();
        let sum: i64 = a.swaps.swaps.iter().map(|s| s.amount).sum();
        assert_eq!(a.swaps.total, sum);
        let expected = compute_profit(
            p.data.side == PositionSide::Buy,
            p.data.invest_amount,
            p.data.leverage,
            a.asset_open_price,
            conversion(
                &a.collateral_base_open_bid_ask,
                a.collateral_base_open_price,
                &p.data.collateral_currency,
            ),
            a.asset_last_price,
            conversion(
                &a.collateral_quote_last_bid_ask,
                a.collateral_quote_last_price,
                &p.data.collateral_currency,
            ),
            a.swaps.total,
        );
        assert_eq!(a.profit, expected);
        if p.data.quote == p.data.collateral_currency {
            assert!(a.collateral_quote_last_bid_ask.is_none());
            assert_eq!(a.collateral_quote_last_price, 1_000_000);
        }
        if p.data.base == p.data.collateral_currency {
            assert!(a.collateral_base_open_bid_ask.is_none());
            assert_eq!(a.collateral_base_open_price, 1_000_000);
        }
        ids.push(p.data.id);
    }
    for p in all(&pending.positions) {
        assert!(p.is_pending());
        ids.push(p.data.id);
    }
    for p in all(&awaiting.positions) {
        assert!(p.is_pending());
        ids.push(p.data.id);
    }
    let count = ids.len();
    ids.sort();
    ids.dedup();
    assert_eq!(ids.len(), count);
    assert_eq!(
        count,
        active.count_positions_in_cache()
            + pending.count_positions_in_cache()
            + awaiting.count_positions_in_cache()
    );
}

fn run(seed: u64, steps: usize) {
    let mut random = Random(seed);
    let mut prices: ActivePricesCache = load_prices_cache(vec![]);
    let mut active = ActivePositionsCache::new();
    let mut pending = PendingPositionsCache::new();
    let mut awaiting = PendingPositionsCache::new();
    let mut next_id = 0u64;
    let mut opened = 0u64;
    let mut closes_told: Vec<String> = Vec::new();
    for step in 0..steps {
        let now = step as i64;
        let known = format!("id{}", random.below(next_id + 1));
        match random.below(12) {
            0 | 1 | 2 | 3 => {
                let (base, quote) = random_pair(&mut random);
                let q = pair_quote(&mut random, &base, &quote);
                let events = handle_bid_ask_message(
                    &mut prices,
                    &mut active,
                    &mut pending,
                    &mut awaiting,
                    q,
                    "tick",
                    now,
                );
                let mut margin_calls: Vec<String> = Vec::new();
                for e in &events {
                    match e {
                        EngineEvent::ClosePosition { position, .. } => {
                            assert!(active.get_position_by_id(&position.data.id).is_none());
                            closes_told.push(position.data.id.clone());
                        }
                        EngineEvent::MarginCallHit(hit) => {
                            assert!(!margin_calls.contains(&hit.position_id));
                            margin_calls.push(hit.position_id.clone());
                        }
                        EngineEvent::PendingNeedApprove { order, .. } => {
                            assert!(pending.get_position_by_id(&order.data.id).is_none());
                            assert!(awaiting.get_position_by_id(&order.data.id).is_some());
                        }
                        _ => {}
                    }
                }
            }
            4 | 5 => {
                next_id += 1;
                let id = format!("id{}", random.below(next_id + 1));
                let held_before = active.get_position_by_id(&id);
                let command = random_command(&mut random, id.clone());
                match open_position(&prices, &mut active, &pending, &awaiting, &command, now) {
                    Ok(applied) => {
                        assert_eq!(applied.position.data.id, id);
                        match held_before {
                            Some(held) => {
                                assert_eq!(applied.events.len(), 0);
                                assert_eq!(
                                    applied.position.data.create_date,
                                    held.data.create_date
                                );
                            }
                            None => {
                                assert_eq!(applied.events.len(), 1);
                                assert_eq!(applied.position.get_active_state().profit, 0);
                                closes_told.retain(|told| *told != id);
                                opened += 1;
                            }
                        }
                    }
                    Err(_) => {}
                }
            }
            6 => {
                next_id += 1;
                let id = format!("id{}", random.below(next_id + 1));
                let command = PositionOpenPendingCommand {
                    command: random_command(&mut random, id),
                    desired_open_price: random.below(3_000_000),
                };
                let _ = open_pending(&prices, &active, &mut pending, &awaiting, &command, now);
            }
            7 => {
                let _ = cancel_pending(&mut pending, &known);
                if confirm_pending_execution(&mut awaiting, &prices, &mut active, &known, now).is_ok() {
                    closes_told.retain(|told| *told != known);
                }
            }
            8 => {
                let _ = charge_swaps(&mut active, "swap", &known, random.below(2_000_000) as i64 - 1_000_000, now);
            }
            9 => {
                let _ = top_up_position(&mut active, &known, random.below(1_000_000_000), "top", now);
                let _ = process_topping_up_refund(&mut active, &known, "refund", random.below(1_000), now);
            }
            10 => {
                let _ = update_sl_tp(
                    &mut active,
                    &known,
                    Some(-(random.below(1_000_000_000) as i64)),
                    Some(random.below(3_000_000)),
                    Some(random.below(1_000_000_000) as i64),
                    Some(random.below(3_000_000)),
                    "levels",
                    now,
                );
                let _ = update_topping_up_settings(
                    &mut active,
                    &known,
                    random.below(2) == 0,
                    Some(random.below(100_000_000)),
                    "settings",
                    now,
                );
            }
            _ => {
                if close_position(
                    &mut active,
                    &known,
                    ExecutionClosePositionReason::ClientCommand,
                    "close",
                    now,
                )
                .is_ok()
                {
                    closes_told.push(known.clone());
                }
            }
        }
        for id in &closes_told {
            assert!(active.get_position_by_id(id).is_none());
        }
        check(&active, &pending, &awaiting);
    }
    assert!(opened > 0);
}

#[test]
fn invariants_hold_after_a_long_run() {
    run(1, 3000);
}

#[test]
fn invariants_hold_after_other_runs() {
    for seed in 2..12 {
        run(seed, 400);
    }
}
