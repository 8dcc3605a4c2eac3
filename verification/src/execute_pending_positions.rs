use vstd::prelude::*;
use crate::active_positions_cache::ActivePositionsCache;
use crate::active_positions_store::{holds_id, loaded, place_of, put, taken, views};
use crate::active_prices_cache::ActivePricesCache;
use crate::commands::{OpenCommandView, PositionOpenCommand};
use crate::dto::EngineError;
use crate::events::{event_views, Applied, EngineEvent, EventView};
use crate::open_position::{generate_id, make_active, make_active_position};
use crate::pending_positions_cache::{all_pending, PendingPositionsCache};
use crate::position::{
    EnginePosition, EnginePositionBase, EnginePositionState, PendingPositionState,
    PositionBaseView, PositionView,
};

verus! {

/// The requests to approve the execution of `orders`, one for each, in
/// their order.
pub open spec fn approval_requests(orders: Seq<PositionView>, process_id: Seq<char>) -> Seq<
    EventView,
> {
    orders.map_values(|p: PositionView| EventView::PendingNeedApprove { process_id, order: p })
}

/// Takes in the orders that a quote has activated: each goes into the cache
/// of orders that wait for their confirmation, and for each the request to
/// approve its execution is handed out.
pub fn handle_pending_rdy_to_execute(
    awaiting: &mut PendingPositionsCache,
    positions: Vec<EnginePosition>,
    process_id: &str,
) -> (r: Vec<EngineEvent>)
    requires
        old(awaiting).wf(),
        all_pending(views(positions@)),
    ensures
        final(awaiting).wf(),
        final(awaiting)@ == loaded(old(awaiting)@, views(positions@)),
        event_views(r@) == approval_requests(views(positions@), process_id@),
{
    let ghost incoming = views(positions@);
    let mut messages: Vec<EngineEvent> = Vec::new();
    let mut i: usize = 0;
    proof {
        assert(incoming.take(0) =~= Seq::<PositionView>::empty());
        assert(event_views(messages@) =~= approval_requests(incoming.take(0), process_id@));
    }
    while i < positions.len()
        invariant
            i <= positions@.len(),
            incoming == views(positions@),
            all_pending(incoming),
            awaiting.wf(),
            awaiting@ == loaded(old(awaiting)@, incoming.take(i as int)),
            event_views(messages@) == approval_requests(incoming.take(i as int), process_id@),
        decreases positions@.len() - i,
    {
        let ghost sent = event_views(messages@);
        let position = positions[i].clone();
        proof {
            assert(position@ == incoming[i as int]);
            assert(incoming.take(i + 1).drop_last() =~= incoming.take(i as int));
            assert(incoming.take(i + 1).last() == incoming[i as int]);
        }
        messages.push(
            EngineEvent::PendingNeedApprove {
                process_id: process_id.to_owned(),
                order: position.clone(),
            },
        );
        awaiting.add_position(position);
        proof {
            assert(event_views(messages@) =~= sent.push(
                EventView::PendingNeedApprove { process_id: process_id@, order: incoming[i as int] },
            ));
            assert(event_views(messages@) =~= approval_requests(
                incoming.take(i + 1),
                process_id@,
            ));
        }
        i = i + 1;
    }
    proof {
        assert(incoming.take(i as int) =~= incoming);
    }
    messages
}

/// The command that opens the position of a pending order.
pub open spec fn command_of(data: PositionBaseView, process_id: Seq<char>) -> OpenCommandView {
    OpenCommandView {
        trader_id: data.trader_id,
        account_id: data.account_id,
        side: data.side,
        asset_pair: data.asset_pair,
        base: data.base,
        quote: data.quote,
        collateral: data.collateral_currency,
        invest_amount: data.invest_amount,
        leverage: data.leverage,
        stop_out_percent: data.stop_out_percent,
        process_id,
        tp_profit: data.take_profit_in_position_profit,
        tp_price: data.take_profit_in_asset_price,
        sl_profit: data.stop_loss_in_position_profit,
        sl_price: data.stop_loss_in_asset_price,
        margin_call_percent: data.margin_call_percent,
        topping_up_percent: data.topping_up_percent,
    }
}

/// The active position that a pending order becomes on the quotes in
/// `prices`, or `NoLiquidity` where a quote that it needs is missing. It
/// keeps the id of the order and remembers the pending state; it was
/// created when the order was, and opened and last changed now.
pub open spec fn executed(
    pending: PositionView,
    prices: &ActivePricesCache,
    process_id: Seq<char>,
    now: i64,
) -> Result<PositionView, EngineError> {
    match make_active(
        command_of(pending.data, process_id),
        pending.data.id,
        prices,
        now,
        Some(pending.pending()),
    ) {
        Ok(p) => Ok(
            PositionView {
                data: PositionBaseView {
                    create_process_id: pending.data.create_process_id,
                    create_date: pending.data.create_date,
                    ..p.data
                },
                ..p
            },
        ),
        Err(e) => Err(e),
    }
}

fn command_for(data: &EnginePositionBase, process_id: &str) -> (r: PositionOpenCommand)
    ensures
        r@ == command_of(data@, process_id@),
{
    PositionOpenCommand {
        id: None,
        trader_id: data.trader_id.clone(),
        account_id: data.account_id.clone(),
        side: data.side,
        asset_pair: data.asset_pair.clone(),
        base: data.base.clone(),
        quote: data.quote.clone(),
        collateral: data.collateral_currency.clone(),
        invest_amount: data.invest_amount,
        leverage: data.leverage,
        stop_out_percent: data.stop_out_percent,
        process_id: process_id.to_owned(),
        tp_profit: data.take_profit_in_position_profit,
        tp_price: data.take_profit_in_asset_price,
        sl_profit: data.stop_loss_in_position_profit,
        sl_price: data.stop_loss_in_asset_price,
        margin_call_percent: data.margin_call_percent,
        topping_up_percent: data.topping_up_percent,
    }
}

/// Makes the active position that a pending order becomes on the quotes in
/// `prices`.
pub fn execute_pending_position(
    pending: &EnginePosition,
    prices: &ActivePricesCache,
    process_id: &str,
    now: i64,
) -> (r: Result<EnginePosition, EngineError>)
    requires
        prices.wf(),
        pending@.is_pending(),
        pending.wf(),
    ensures
        match r {
            Ok(p) => executed(pending@, prices, process_id@, now) == Ok::<
                PositionView,
                EngineError,
            >(p@) && p.wf() && p@.is_active() && p@.data.id == pending@.data.id,
            Err(e) => executed(pending@, prices, process_id@, now) == Err::<
                PositionView,
                EngineError,
            >(e) && e == EngineError::NoLiquidity,
        },
{
    let command = command_for(&pending.data, process_id);
    let pending_state: Option<PendingPositionState> = match &pending.state {
        EnginePositionState::Pending(p) => Some(*p),
        _ => None,
    };
    let mut position = match make_active_position(
        &command,
        pending.data.id.clone(),
        prices,
        now,
        pending_state,
    ) {
        Ok(p) => p,
        Err(e) => {
            return Err(e);
        },
    };
    position.data.create_process_id = pending.data.create_process_id.clone();
    position.data.create_date = pending.data.create_date;
    Ok(position)
}

/// Confirms the execution of the order with the given id that waits for
/// it, under the process id `process_id`: the order leaves the cache of
/// waiting orders, the position that it becomes goes into the cache of
/// active positions, and the event that tells of the execution is handed out
/// with the one that tells of the new position. Fails with
/// `PositionNotFound` where no such order waits, and with `NoLiquidity`
/// where a quote is missing; both caches then stay as they are.
pub fn confirm_pending_execution_with_process_id(
    awaiting: &mut PendingPositionsCache,
    prices: &ActivePricesCache,
    active: &mut ActivePositionsCache,
    position_id: &str,
    process_id: String,
    now: i64,
) -> (r: Result<Applied, EngineError>)
    requires
        old(awaiting).wf(),
        prices.wf(),
        old(active).wf(),
    ensures
        final(awaiting).wf(),
        final(active).wf(),
        match r {
            Ok(applied) => {
                let order = old(awaiting)@[place_of(old(awaiting)@, position_id@)];
                holds_id(old(awaiting)@, position_id@) && executed(order, prices, process_id@, now)
                    == Ok::<PositionView, EngineError>(applied.position@) && final(awaiting)@
                    == taken(old(awaiting)@, position_id@) && final(active)@ == put(
                    old(active)@,
                    applied.position@,
                ) && applied.position@.data.id == position_id@ && event_views(applied.events@)
                    == seq![
                    EventView::ExecutePending { process_id: process_id@, position: order },
                    EventView::CreatePosition {
                        process_id: process_id@,
                        position: applied.position@,
                    },
                ]
            },
            Err(e) => final(awaiting)@ == old(awaiting)@ && final(active)@ == old(active)@ && (
            if !holds_id(old(awaiting)@, position_id@) {
                e == EngineError::PositionNotFound
            } else {
                e == EngineError::NoLiquidity && executed(
                    old(awaiting)@[place_of(old(awaiting)@, position_id@)],
                    prices,
                    process_id@,
                    now,
                ) is Err
            }),
        },
{
    let target_position = match awaiting.get_position_by_id(position_id) {
        Some(p) => p,
        None => {
            return Err(EngineError::PositionNotFound);
        },
    };
    let active_position = match execute_pending_position(
        &target_position,
        prices,
        process_id.as_str(),
        now,
    ) {
        Ok(p) => p,
        Err(e) => {
            return Err(e);
        },
    };
    awaiting.remove_position(position_id);
    active.add_position(active_position.clone());
    let execute = EngineEvent::ExecutePending {
        process_id: process_id.clone(),
        position: target_position,
    };
    let create = EngineEvent::CreatePosition { process_id, position: active_position.clone() };
    Ok(Applied::two(active_position, execute, create))
}

/// Executes the pending order with the given id in one step: the order
/// leaves the cache of pending orders and the position that it becomes goes
/// into the cache of active positions, with the two events of
/// `confirm_pending_execution_with_process_id`. Where it fails, both caches
/// stay as they are.
pub fn execute_pending(
    pending: &mut PendingPositionsCache,
    prices: &ActivePricesCache,
    active: &mut ActivePositionsCache,
    position_id: &str,
    process_id: String,
    now: i64,
) -> (r: Result<Applied, EngineError>)
    requires
        old(pending).wf(),
        prices.wf(),
        old(active).wf(),
    ensures
        final(pending).wf(),
        final(active).wf(),
        match r {
            Ok(applied) => {
                let order = old(pending)@[place_of(old(pending)@, position_id@)];
                holds_id(old(pending)@, position_id@) && executed(order, prices, process_id@, now)
                    == Ok::<PositionView, EngineError>(applied.position@) && final(pending)@
                    == taken(old(pending)@, position_id@) && final(active)@ == put(
                    old(active)@,
                    applied.position@,
                ) && applied.position@.data.id == position_id@ && event_views(applied.events@)
                    == seq![
                    EventView::ExecutePending { process_id: process_id@, position: order },
                    EventView::CreatePosition {
                        process_id: process_id@,
                        position: applied.position@,
                    },
                ]
            },
            Err(e) => final(pending)@ == old(pending)@ && final(active)@ == old(active)@ && (
            if !holds_id(old(pending)@, position_id@) {
                e == EngineError::PositionNotFound
            } else {
                e == EngineError::NoLiquidity && executed(
                    old(pending)@[place_of(old(pending)@, position_id@)],
                    prices,
                    process_id@,
                    now,
                ) is Err
            }),
        },
{
    confirm_pending_execution_with_process_id(pending, prices, active, position_id, process_id, now)
}

/// Confirms the execution of a waiting order under a fresh process id.
pub fn confirm_pending_execution(
    awaiting: &mut PendingPositionsCache,
    prices: &ActivePricesCache,
    active: &mut ActivePositionsCache,
    position_id: &str,
    now: i64,
) -> (r: Result<Applied, EngineError>)
    requires
        old(awaiting).wf(),
        prices.wf(),
        old(active).wf(),
    ensures
        final(awaiting).wf(),
        final(active).wf(),
        match r {
            Ok(applied) => holds_id(old(awaiting)@, position_id@) && final(awaiting)@ == taken(
                old(awaiting)@,
                position_id@,
            ) && final(active)@ == put(old(active)@, applied.position@)
                && applied.position@.data.id == position_id@ && exists|process_id: Seq<char>|
                executed(
                    old(awaiting)@[place_of(old(awaiting)@, position_id@)],
                    prices,
                    process_id,
                    now,
                ) == Ok::<PositionView, EngineError>(applied.position@) && event_views(
                    applied.events@,
                ) == seq![
                    EventView::ExecutePending {
                        process_id,
                        position: old(awaiting)@[place_of(old(awaiting)@, position_id@)],
                    },
                    EventView::CreatePosition { process_id, position: applied.position@ },
                ],
            Err(e) => final(awaiting)@ == old(awaiting)@ && final(active)@ == old(active)@ && (
            if !holds_id(old(awaiting)@, position_id@) {
                e == EngineError::PositionNotFound
            } else {
                e == EngineError::NoLiquidity && executed(
                    old(awaiting)@[place_of(old(awaiting)@, position_id@)],
                    prices,
                    Seq::empty(),
                    now,
                ) is Err
            }),
        },
        r is Ok ==> !holds_id(final(awaiting)@, position_id@) && holds_id(
            final(active)@,
            position_id@,
        ) && final(active)@[place_of(final(active)@, position_id@)] == r->Ok_0.position@,
{
    let process_id = generate_id();
    proof {
        active.positions.lemma_ids_unique();
        awaiting.positions.lemma_ids_unique();
        crate::laws::law_taken_ids(awaiting@, position_id@);
        if holds_id(awaiting@, position_id@) {
            let order = awaiting@[place_of(awaiting@, position_id@)];
            if executed(order, prices, process_id@, now) is Ok {
                crate::laws::law_put_is_stored(
                    active@,
                    executed(order, prices, process_id@, now)->Ok_0,
                );
            }
        }
    }
    confirm_pending_execution_with_process_id(
        awaiting,
        prices,
        active,
        position_id,
        process_id,
        now,
    )
}

} // verus!
