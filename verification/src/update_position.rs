use vstd::prelude::*;
use crate::active_positions_cache::ActivePositionsCache;
use crate::active_positions_store::{holds_id, place_of};
use crate::bid_ask::get_close_price;
use crate::dto::{EngineError, PositionSide};
use crate::events::{event_views, Applied, EngineEvent, EventView};
use crate::position::{ActiveStateView, EnginePosition, PositionBaseView, PositionView};

verus! {

impl PositionView {
    /// The position after a command of the process `process_id` has changed
    /// it at `now`.
    pub open spec fn touched(self, process_id: Seq<char>, now: i64) -> PositionView {
        PositionView {
            data: PositionBaseView {
                last_update_process_id: process_id,
                last_update_date: now,
                ..self.data
            },
            ..self
        }
    }

    /// The position with its topping-up reserve changed to `reserve`.
    pub open spec fn with_reserve(self, reserve: u64) -> PositionView {
        self.with_active(ActiveStateView { topping_up_reserve: reserve, ..self.active() })
    }

    /// The position with another topping-up percentage.
    pub open spec fn with_topping_up_percent(self, percent: Option<u64>) -> PositionView {
        PositionView {
            data: PositionBaseView { topping_up_percent: percent, ..self.data },
            ..self
        }
    }

    /// The stop-loss and take-profit levels that can stand: a level that
    /// the position has reached already is dropped. A stop-loss price must
    /// lie beyond the close price on the losing side, a take-profit price on
    /// the winning side; a stop-loss profit must lie below the profit, a
    /// take-profit profit above it.
    pub open spec fn with_levels(
        self,
        sl_profit: Option<i64>,
        sl_price: Option<u64>,
        tp_profit: Option<i64>,
        tp_price: Option<u64>,
    ) -> PositionView {
        let close = self.last_close_price();
        let profit = self.active().profit;
        PositionView {
            data: PositionBaseView {
                stop_loss_in_position_profit: match sl_profit {
                    Some(sl) => if profit > sl {
                        Some(sl)
                    } else {
                        None
                    },
                    None => None,
                },
                stop_loss_in_asset_price: match sl_price {
                    Some(sl) => if match self.data.side {
                        PositionSide::Buy => close > sl,
                        PositionSide::Sell => close < sl,
                    } {
                        Some(sl)
                    } else {
                        None
                    },
                    None => None,
                },
                take_profit_in_position_profit: match tp_profit {
                    Some(tp) => if profit < tp {
                        Some(tp)
                    } else {
                        None
                    },
                    None => None,
                },
                take_profit_in_asset_price: match tp_price {
                    Some(tp) => if match self.data.side {
                        PositionSide::Buy => close < tp,
                        PositionSide::Sell => close > tp,
                    } {
                        Some(tp)
                    } else {
                        None
                    },
                    None => None,
                },
                ..self.data
            },
            ..self
        }
    }
}

/// Notes the process and the time of a change.
pub fn touch(position: &mut EnginePosition, process_id: &str, now: i64)
    ensures
        final(position)@ == old(position)@.touched(process_id@, now),
        old(position).wf() ==> final(position).wf(),
{
    position.data.last_update_date = now;
    position.data.last_update_process_id = process_id.to_owned();
}

/// Sets the stop-loss and take-profit levels of an active position,
/// dropping each level that the position has reached already.
pub fn sanitize_sl_tp(
    position: &mut EnginePosition,
    sl_profit: Option<i64>,
    sl_price: Option<u64>,
    tp_profit: Option<i64>,
    tp_price: Option<u64>,
)
    requires
        old(position)@.is_active(),
    ensures
        final(position)@ == old(position)@.with_levels(sl_profit, sl_price, tp_profit, tp_price),
        old(position).wf() ==> final(position).wf(),
        !final(position)@.sl_triggered(),
        !final(position)@.tp_triggered(),
{
    let side = position.data.side;
    let active_state = position.get_active_state();
    let close = get_close_price(&active_state.asset_last_bid_ask, &side);
    let profit = active_state.profit;
    let sl_profit = match sl_profit {
        Some(sl) => if profit > sl as i128 {
            Some(sl)
        } else {
            None
        },
        None => None,
    };
    let sl_price = match sl_price {
        Some(sl) => {
            let beyond = match side {
                PositionSide::Buy => close > sl,
                PositionSide::Sell => close < sl,
            };
            if beyond {
                Some(sl)
            } else {
                None
            }
        },
        None => None,
    };
    let tp_profit = match tp_profit {
        Some(tp) => if profit < tp as i128 {
            Some(tp)
        } else {
            None
        },
        None => None,
    };
    let tp_price = match tp_price {
        Some(tp) => {
            let beyond = match side {
                PositionSide::Buy => close < tp,
                PositionSide::Sell => close > tp,
            };
            if beyond {
                Some(tp)
            } else {
                None
            }
        },
        None => None,
    };
    position.update_sl(&sl_profit, &sl_price);
    position.update_tp(&tp_profit, &tp_price);
}

/// Charges a swap to the active position with the given id: the swap is
/// appended, the total and the profit follow, and the event that tells of
/// the change is handed out. Fails with `PositionNotFound` where the cache
/// holds no such position, and with `InvalidRequest` where the swap total
/// would leave its range; the cache then stays as it is.
pub fn charge_swaps(
    active: &mut ActivePositionsCache,
    process_id: &str,
    id: &str,
    amount: i64,
    now: i64,
) -> (r: Result<Applied, EngineError>)
    requires
        old(active).wf(),
    ensures
        final(active).wf(),
        match r {
            Ok(applied) => holds_id(old(active)@, id@)
                && applied.position@ == old(active)@[place_of(old(active)@, id@)].after_swap(
                amount,
                now,
            ).touched(process_id@, now) && final(active)@ == old(active)@.update(
                place_of(old(active)@, id@),
                applied.position@,
            ) && event_views(applied.events@) == seq![
                EventView::UpdatePosition { process_id: process_id@, position: applied.position@ },
            ],
            Err(e) => final(active)@ == old(active)@ && (if !holds_id(old(active)@, id@) {
                e == EngineError::PositionNotFound
            } else {
                e == EngineError::InvalidRequest && !(i64::MIN <= old(active)@[place_of(
                    old(active)@,
                    id@,
                )].active().swaps.total + amount <= i64::MAX)
            }),
        },
{
    let position = match active.positions.get_position_mut(id) {
        Some(stored) => {
            assert(stored@.is_active() && stored.wf());
            if !stored.get_active_state().swaps.is_addable(amount) {
                return Err(EngineError::InvalidRequest);
            }
            stored.charge_swap(amount, now);
            touch(stored, process_id, now);
            stored.clone()
        },
        None => {
            return Err(EngineError::PositionNotFound);
        },
    };
    proof {
        crate::active_positions_cache::lemma_update_all_active(
            old(active)@,
            place_of(old(active)@, id@),
            position@,
        );
    }
    let event = EngineEvent::UpdatePosition {
        process_id: process_id.to_owned(),
        position: position.clone(),
    };
    Ok(Applied::one(position, event))
}

/// Adds `amount` to the topping-up reserve of the active position with the
/// given id, and hands out the event that tells of the change and the one
/// that tells of the reserved amount. It is permitted only for a position
/// that has a topping-up or a margin-call percentage: for any other, as for
/// an id that the cache does not hold, it fails with `PositionNotFound`.
/// It fails with `InvalidRequest` where the reserve would leave its range.
/// Where it fails, the cache stays as it is.
pub fn top_up_position(
    active: &mut ActivePositionsCache,
    position_id: &str,
    topping_up_amount: u64,
    process_id: &str,
    now: i64,
) -> (r: Result<Applied, EngineError>)
    requires
        old(active).wf(),
    ensures
        final(active).wf(),
        match r {
            Ok(applied) => {
                let before = old(active)@[place_of(old(active)@, position_id@)];
                holds_id(old(active)@, position_id@) && (before.data.topping_up_percent is Some
                    || before.data.margin_call_percent is Some) && applied.position@
                    == before.with_reserve(
                    (before.active().topping_up_reserve + topping_up_amount) as u64,
                ).touched(process_id@, now) && before.active().topping_up_reserve
                    + topping_up_amount <= u64::MAX && final(active)@ == old(active)@.update(
                    place_of(old(active)@, position_id@),
                    applied.position@,
                ) && event_views(applied.events@) == seq![
                    EventView::UpdatePosition {
                        process_id: process_id@,
                        position: applied.position@,
                    },
                    EventView::ToppingUp {
                        process_id: process_id@,
                        position_id: position_id@,
                        trader_id: before.data.trader_id,
                        account_id: before.data.account_id,
                        delta: topping_up_amount as i128,
                    },
                ]
            },
            Err(e) => {
                let before = old(active)@[place_of(old(active)@, position_id@)];
                final(active)@ == old(active)@ && (if !holds_id(old(active)@, position_id@) || (
                before.data.topping_up_percent is None && before.data.margin_call_percent
                    is None) {
                    e == EngineError::PositionNotFound
                } else {
                    e == EngineError::InvalidRequest && before.active().topping_up_reserve
                        + topping_up_amount > u64::MAX
                })
            },
        },
{
    let position = match active.positions.get_position_mut(position_id) {
        Some(stored) => {
            assert(stored@.is_active() && stored.wf());
            if stored.data.topping_up_percent.is_none() && stored.data.margin_call_percent.is_none() {
                return Err(EngineError::PositionNotFound);
            }
            if stored.get_active_state().topping_up_reserve > u64::MAX - topping_up_amount {
                return Err(EngineError::InvalidRequest);
            }
            stored.apply_position_topping_up(topping_up_amount);
            touch(stored, process_id, now);
            stored.clone()
        },
        None => {
            return Err(EngineError::PositionNotFound);
        },
    };
    proof {
        crate::active_positions_cache::lemma_update_all_active(
            old(active)@,
            place_of(old(active)@, position_id@),
            position@,
        );
    }
    let update = EngineEvent::UpdatePosition {
        process_id: process_id.to_owned(),
        position: position.clone(),
    };
    let topping_up = EngineEvent::ToppingUp {
        process_id: process_id.to_owned(),
        position_id: position_id.to_owned(),
        trader_id: position.data.trader_id.clone(),
        account_id: position.data.account_id.clone(),
        delta: topping_up_amount as i128,
    };
    Ok(Applied::two(position, update, topping_up))
}

/// Switches topping-up on or off for the active position with the given id:
/// on, it takes the percentage given, and keeps the one it has where none is
/// given; off, it has none. Hands out the event that tells of the change.
/// Fails with `PositionNotFound` where the cache holds no such position.
pub fn update_topping_up_settings(
    active: &mut ActivePositionsCache,
    position_id: &str,
    is_topping_up: bool,
    topping_up_percent: Option<u64>,
    process_id: &str,
    now: i64,
) -> (r: Result<Applied, EngineError>)
    requires
        old(active).wf(),
    ensures
        final(active).wf(),
        match r {
            Ok(applied) => {
                let before = old(active)@[place_of(old(active)@, position_id@)];
                holds_id(old(active)@, position_id@) && applied.position@
                    == before.with_topping_up_percent(
                    if is_topping_up {
                        if topping_up_percent is Some {
                            topping_up_percent
                        } else {
                            before.data.topping_up_percent
                        }
                    } else {
                        None
                    },
                ).touched(process_id@, now) && final(active)@ == old(active)@.update(
                    place_of(old(active)@, position_id@),
                    applied.position@,
                ) && event_views(applied.events@) == seq![
                    EventView::UpdatePosition {
                        process_id: process_id@,
                        position: applied.position@,
                    },
                ]
            },
            Err(e) => e == EngineError::PositionNotFound && !holds_id(old(active)@, position_id@)
                && final(active)@ == old(active)@,
        },
{
    let position = match active.positions.get_position_mut(position_id) {
        Some(stored) => {
            assert(stored@.is_active() && stored.wf());
            if is_topping_up {
                if let Some(percent) = topping_up_percent {
                    stored.data.topping_up_percent = Some(percent);
                }
            } else {
                stored.data.topping_up_percent = None;
            }
            touch(stored, process_id, now);
            stored.clone()
        },
        None => {
            return Err(EngineError::PositionNotFound);
        },
    };
    proof {
        crate::active_positions_cache::lemma_update_all_active(
            old(active)@,
            place_of(old(active)@, position_id@),
            position@,
        );
    }
    let event = EngineEvent::UpdatePosition {
        process_id: process_id.to_owned(),
        position: position.clone(),
    };
    Ok(Applied::one(position, event))
}

/// Sets the stop-loss and take-profit levels of the active position with
/// the given id, dropping each level that the position has reached already,
/// and hands out the event that tells of the change. Fails with
/// `PositionNotFound` where the cache holds no such position.
pub fn update_sl_tp(
    active: &mut ActivePositionsCache,
    position_id: &str,
    sl_in_profit: Option<i64>,
    sl_in_asset_price: Option<u64>,
    tp_in_profit: Option<i64>,
    tp_in_asset_price: Option<u64>,
    process_id: &str,
    now: i64,
) -> (r: Result<Applied, EngineError>)
    requires
        old(active).wf(),
    ensures
        final(active).wf(),
        match r {
            Ok(applied) => holds_id(old(active)@, position_id@)
                && applied.position@ == old(active)@[place_of(
                old(active)@,
                position_id@,
            )].with_levels(
                sl_in_profit,
                sl_in_asset_price,
                tp_in_profit,
                tp_in_asset_price,
            ).touched(process_id@, now) && final(active)@ == old(active)@.update(
                place_of(old(active)@, position_id@),
                applied.position@,
            ) && event_views(applied.events@) == seq![
                EventView::UpdatePosition { process_id: process_id@, position: applied.position@ },
            ],
            Err(e) => e == EngineError::PositionNotFound && !holds_id(old(active)@, position_id@)
                && final(active)@ == old(active)@,
        },
{
    let position = match active.positions.get_position_mut(position_id) {
        Some(stored) => {
            assert(stored@.is_active() && stored.wf());
            sanitize_sl_tp(stored, sl_in_profit, sl_in_asset_price, tp_in_profit, tp_in_asset_price);
            touch(stored, process_id, now);
            stored.clone()
        },
        None => {
            return Err(EngineError::PositionNotFound);
        },
    };
    proof {
        crate::active_positions_cache::lemma_update_all_active(
            old(active)@,
            place_of(old(active)@, position_id@),
            position@,
        );
    }
    let event = EngineEvent::UpdatePosition {
        process_id: process_id.to_owned(),
        position: position.clone(),
    };
    Ok(Applied::one(position, event))
}

} // verus!
