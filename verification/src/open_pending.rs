use vstd::prelude::*;
use crate::active_positions_cache::ActivePositionsCache;
use crate::active_positions_store::{holds_id, place_of, put};
use crate::laws::{ids_apart, law_put_ids, law_put_is_stored};
use crate::active_prices_cache::ActivePricesCache;
use crate::amounts::MAX_PRICE;
use crate::bid_ask::get_close_price;
use crate::commands::{OpenPendingCommandView, PositionOpenPendingCommand};
use crate::dto::EngineError;
use crate::events::{event_views, Applied, EngineEvent, EventView};
use crate::open_position::{base_data_of, generate_id, make_base_data};
use crate::pending::{get_pending_position_type, pending_type_of};
use crate::pending_positions_cache::PendingPositionsCache;
use crate::position::{
    EnginePosition, EnginePositionState, PendingPositionState, PositionStateView, PositionView,
};

verus! {

/// The pending order that a command gives on the quotes in `prices`, or why
/// there is none: `InvalidRequest` for a command that is not valid;
/// `NoLiquidity` where the asset pair has no quote. The kind of the order
/// comes from where the desired price lies against the current close price.
pub open spec fn make_pending(
    command: OpenPendingCommandView,
    id: Seq<char>,
    prices: &ActivePricesCache,
    now: i64,
) -> Result<PositionView, EngineError> {
    if !command.valid() {
        Err(EngineError::InvalidRequest)
    } else {
        match prices.by_pair(command.command.asset_pair) {
            None => Err(EngineError::NoLiquidity),
            Some(asset) => Ok(
                PositionView {
                    data: base_data_of(command.command, id, now),
                    state: PositionStateView::Pending(
                        PendingPositionState {
                            desire_price: command.desired_open_price,
                            pending_order_type: pending_type_of(
                                asset.close_price(command.command.side),
                                command.desired_open_price,
                                command.command.side,
                            ),
                        },
                    ),
                },
            ),
        }
    }
}

/// Makes the pending order that a command gives on the quotes in `prices`.
pub fn create_pending_position(
    command: &PositionOpenPendingCommand,
    id: String,
    prices: &ActivePricesCache,
    now: i64,
) -> (r: Result<EnginePosition, EngineError>)
    requires
        prices.wf(),
    ensures
        match r {
            Ok(p) => make_pending(command@, id@, prices, now) == Ok::<PositionView, EngineError>(
                p@,
            ) && p.wf() && p@.is_pending(),
            Err(e) => make_pending(command@, id@, prices, now) == Err::<PositionView, EngineError>(
                e,
            ),
        },
{
    if !command.command.is_valid() || command.desired_open_price > MAX_PRICE {
        return Err(EngineError::InvalidRequest);
    }
    let asset = match prices.get_by_id(command.command.asset_pair.as_str()) {
        Some(b) => b,
        None => {
            return Err(EngineError::NoLiquidity);
        },
    };
    let side = command.command.side;
    let close_price = get_close_price(&asset, &side);
    let state = PendingPositionState {
        desire_price: command.desired_open_price,
        pending_order_type: get_pending_position_type(
            close_price,
            command.desired_open_price,
            &side,
        ),
    };
    Ok(
        EnginePosition {
            data: make_base_data(&command.command, id, now),
            state: EnginePositionState::Pending(state),
        },
    )
}

/// What placing an order under the id `id` comes to. Where an active
/// position or an order that waits for its confirmation holds the id, the
/// command is refused with `InvalidRequest`. Where the pending orders hold
/// the id already, it is the order that they hold: the command has been
/// carried out before. Else it is what `make_pending` gives.
pub open spec fn pending_outcome(
    command: OpenPendingCommandView,
    id: Seq<char>,
    prices: &ActivePricesCache,
    active: Seq<PositionView>,
    pending: Seq<PositionView>,
    awaiting: Seq<PositionView>,
    now: i64,
) -> Result<PositionView, EngineError> {
    if holds_id(active, id) || holds_id(awaiting, id) {
        Err(EngineError::InvalidRequest)
    } else if holds_id(pending, id) {
        Ok(pending[place_of(pending, id)])
    } else {
        make_pending(command, id, prices, now)
    }
}

/// The pending orders after an order was placed under the id `id`: the new
/// order is put in where one was made; else nothing changes.
pub open spec fn pending_orders(
    command: OpenPendingCommandView,
    id: Seq<char>,
    prices: &ActivePricesCache,
    active: Seq<PositionView>,
    pending: Seq<PositionView>,
    awaiting: Seq<PositionView>,
    now: i64,
) -> Seq<PositionView> {
    match pending_outcome(command, id, prices, active, pending, awaiting, now) {
        Ok(order) => if holds_id(pending, id) {
            pending
        } else {
            put(pending, order)
        },
        Err(_) => pending,
    }
}

/// The events of placing an order under the id `id`: the one that tells of
/// the creation where an order was made; else none.
pub open spec fn pending_events(
    command: OpenPendingCommandView,
    id: Seq<char>,
    prices: &ActivePricesCache,
    active: Seq<PositionView>,
    pending: Seq<PositionView>,
    awaiting: Seq<PositionView>,
    now: i64,
) -> Seq<EventView> {
    match pending_outcome(command, id, prices, active, pending, awaiting, now) {
        Ok(order) => if holds_id(pending, id) {
            Seq::empty()
        } else {
            seq![EventView::CreatePending { process_id: command.command.process_id, position: order }]
        },
        Err(_) => Seq::empty(),
    }
}

/// Places a pending order under the id `id`. An id is held by one store at
/// most: where an active position or an order that waits for its
/// confirmation holds it, the command is refused with `InvalidRequest`;
/// where the pending orders hold it already, the order that they hold is
/// handed out, nothing changes and no event is told. Else the order is
/// made, put among the pending orders, and the event that tells of its
/// creation is handed out. Where no order can be made, the cache stays as
/// it is.
pub fn open_pending_with_id(
    prices: &ActivePricesCache,
    active: &ActivePositionsCache,
    pending: &mut PendingPositionsCache,
    awaiting: &PendingPositionsCache,
    command: &PositionOpenPendingCommand,
    id: String,
    now: i64,
) -> (r: Result<Applied, EngineError>)
    requires
        prices.wf(),
        active.wf(),
        old(pending).wf(),
        awaiting.wf(),
    ensures
        final(pending).wf(),
        final(pending)@ == pending_orders(
            command@,
            id@,
            prices,
            active@,
            old(pending)@,
            awaiting@,
            now,
        ),
        match r {
            Ok(applied) => pending_outcome(
                command@,
                id@,
                prices,
                active@,
                old(pending)@,
                awaiting@,
                now,
            ) == Ok::<PositionView, EngineError>(applied.position@) && event_views(
                applied.events@,
            ) == pending_events(command@, id@, prices, active@, old(pending)@, awaiting@, now)
                && applied.position@.data.id == id@ && holds_id(final(pending)@, id@)
                && final(pending)@[place_of(final(pending)@, id@)] == applied.position@
                && !holds_id(active@, id@)
                && !holds_id(awaiting@, id@),
            Err(e) => pending_outcome(
                command@,
                id@,
                prices,
                active@,
                old(pending)@,
                awaiting@,
                now,
            ) == Err::<PositionView, EngineError>(e),
        },
        ids_apart(active@, old(pending)@) ==> ids_apart(active@, final(pending)@),
        ids_apart(old(pending)@, awaiting@) ==> ids_apart(final(pending)@, awaiting@),
{
    proof {
        pending.positions.lemma_ids_unique();
    }
    if active.positions.find_position(id.as_str()).is_some() || awaiting.positions.find_position(
        id.as_str(),
    ).is_some() {
        return Err(EngineError::InvalidRequest);
    }
    if let Some(existing) = pending.get_position_by_id(id.as_str()) {
        let events: Vec<EngineEvent> = Vec::new();
        proof {
            assert(event_views(events@) =~= Seq::<EventView>::empty());
        }
        return Ok(Applied { position: existing, events });
    }
    let position = match create_pending_position(command, id, prices, now) {
        Ok(p) => p,
        Err(e) => {
            return Err(e);
        },
    };
    proof {
        law_put_is_stored(pending@, position@);
        assert forall|other: Seq<char>|
            holds_id(put(pending@, position@), other) implies holds_id(pending@, other) || other
            == position@.data.id by {
            law_put_ids(pending@, position@, other);
        }
    }
    pending.add_position(position.clone());
    let event = EngineEvent::CreatePending {
        process_id: command.command.process_id.clone(),
        position: position.clone(),
    };
    Ok(Applied::one(position, event))
}

/// Places a pending order under the id that the command names, or under a
/// fresh id where it names none. It does what `open_pending_with_id` does
/// with that id.
pub fn open_pending(
    prices: &ActivePricesCache,
    active: &ActivePositionsCache,
    pending: &mut PendingPositionsCache,
    awaiting: &PendingPositionsCache,
    command: &PositionOpenPendingCommand,
    now: i64,
) -> (r: Result<Applied, EngineError>)
    requires
        prices.wf(),
        active.wf(),
        old(pending).wf(),
        awaiting.wf(),
    ensures
        final(pending).wf(),
        match r {
            Ok(applied) => pending_outcome(
                command@,
                applied.position@.data.id,
                prices,
                active@,
                old(pending)@,
                awaiting@,
                now,
            ) == Ok::<PositionView, EngineError>(applied.position@) && final(pending)@
                == pending_orders(
                command@,
                applied.position@.data.id,
                prices,
                active@,
                old(pending)@,
                awaiting@,
                now,
            ) && event_views(applied.events@) == pending_events(
                command@,
                applied.position@.data.id,
                prices,
                active@,
                old(pending)@,
                awaiting@,
                now,
            ) && holds_id(final(pending)@, applied.position@.data.id)
                && final(pending)@[place_of(final(pending)@, applied.position@.data.id)]
                == applied.position@
                && !holds_id(active@, applied.position@.data.id) && !holds_id(
                awaiting@,
                applied.position@.data.id,
            ) && (command.command.id is Some ==> applied.position@.data.id
                == command.command.id->0@),
            Err(e) => final(pending)@ == old(pending)@ && exists|id: Seq<char>|
                (command.command.id is Some ==> id == command.command.id->0@)
                    && #[trigger] pending_outcome(
                    command@,
                    id,
                    prices,
                    active@,
                    old(pending)@,
                    awaiting@,
                    now,
                ) == Err::<PositionView, EngineError>(e),
        },
        ids_apart(active@, old(pending)@) ==> ids_apart(active@, final(pending)@),
        ids_apart(old(pending)@, awaiting@) ==> ids_apart(final(pending)@, awaiting@),
{
    let id = match &command.command.id {
        Some(src) => src.clone(),
        None => generate_id(),
    };
    let ghost chosen = id@;
    let r = open_pending_with_id(prices, active, pending, awaiting, command, id, now);
    proof {
        if r is Err {
            assert(pending_outcome(command@, chosen, prices, active@, old(pending)@, awaiting@, now)
                == Err::<PositionView, EngineError>(r->Err_0));
        }
    }
    r
}

} // verus!
