use vstd::prelude::*;
use crate::active_positions_cache::ActivePositionsCache;
use crate::active_positions_store::{holds_id, place_of};
use crate::events::{event_views, EngineEvent, EventView};
use crate::position::PositionView;
use crate::update_position::touch;

verus! {

/// Whether `amount` can be handed back from the reserve of the position
/// with the id `id`: the position is there and has reserved that much.
pub open spec fn can_refund(positions: Seq<PositionView>, id: Seq<char>, amount: u64) -> bool {
    holds_id(positions, id) && amount <= positions[place_of(positions, id)].active().topping_up_reserve
}

/// The position with the id `id` after `amount` has left its reserve.
pub open spec fn refunded_position(
    positions: Seq<PositionView>,
    id: Seq<char>,
    amount: u64,
    process_id: Seq<char>,
    now: i64,
) -> PositionView {
    let before = positions[place_of(positions, id)];
    before.with_reserve((before.active().topping_up_reserve - amount) as u64).touched(
        process_id,
        now,
    )
}

/// The positions after the refund: where it can be made, the position
/// with the id `id` gives up `amount` of its reserve; else nothing changes.
pub open spec fn refund_positions(
    positions: Seq<PositionView>,
    id: Seq<char>,
    amount: u64,
    process_id: Seq<char>,
    now: i64,
) -> Seq<PositionView> {
    if can_refund(positions, id, amount) {
        positions.update(
            place_of(positions, id),
            refunded_position(positions, id, amount, process_id, now),
        )
    } else {
        positions
    }
}

/// The events of the refund: where it can be made, the one that tells of
/// the changed position and the one that tells of the amount that has left
/// the reserve; else none.
pub open spec fn refund_events(
    positions: Seq<PositionView>,
    id: Seq<char>,
    amount: u64,
    process_id: Seq<char>,
    now: i64,
) -> Seq<EventView> {
    if can_refund(positions, id, amount) {
        let after = refunded_position(positions, id, amount, process_id, now);
        seq![
            EventView::UpdatePosition { process_id, position: after },
            EventView::ToppingUp {
                process_id,
                position_id: id,
                trader_id: after.data.trader_id,
                account_id: after.data.account_id,
                delta: (-(amount as int)) as i128,
            },
        ]
    } else {
        Seq::empty()
    }
}

/// Hands `topping_up_amount` back from the reserve of the active position
/// with the given id, and hands out the events of the refund.
pub fn process_topping_up_refund(
    active: &mut ActivePositionsCache,
    id: &str,
    process_id: &str,
    topping_up_amount: u64,
    now: i64,
) -> (r: Vec<EngineEvent>)
    requires
        old(active).wf(),
    ensures
        final(active).wf(),
        final(active)@ == refund_positions(old(active)@, id@, topping_up_amount, process_id@, now),
        event_views(r@) == refund_events(old(active)@, id@, topping_up_amount, process_id@, now),
{
    let mut events: Vec<EngineEvent> = Vec::new();
    proof {
        assert(event_views(events@) =~= Seq::<EventView>::empty());
    }
    let position = match active.positions.get_position_mut(id) {
        Some(stored) => {
            assert(stored@.is_active() && stored.wf());
            if topping_up_amount > stored.get_active_state().topping_up_reserve {
                return events;
            }
            stored.return_topping_up(topping_up_amount);
            touch(stored, process_id, now);
            stored.clone()
        },
        None => {
            return events;
        },
    };
    proof {
        crate::active_positions_cache::lemma_update_all_active(
            old(active)@,
            place_of(old(active)@, id@),
            position@,
        );
    }
    events.push(
        EngineEvent::UpdatePosition { process_id: process_id.to_owned(), position: position.clone() },
    );
    events.push(
        EngineEvent::ToppingUp {
            process_id: process_id.to_owned(),
            position_id: id.to_owned(),
            trader_id: position.data.trader_id.clone(),
            account_id: position.data.account_id.clone(),
            delta: -(topping_up_amount as i128),
        },
    );
    proof {
        assert(event_views(events@) =~= refund_events(
            old(active)@,
            id@,
            topping_up_amount,
            process_id@,
            now,
        ));
    }
    events
}

} // verus!
