use vstd::prelude::*;
use crate::active_positions_cache::ActivePositionsCache;
use crate::active_positions_store::{holds_id, place_of, taken};
use crate::dto::{EngineError, ExecutionClosePositionReason};
use crate::events::{event_views, Applied, EngineEvent, EventView};

verus! {

/// Closes the active position with the given id for `close_reason`: takes
/// it out of the cache, makes the closed position, which keeps the active
/// state as it was, and hands out the event that tells of the close. Fails
/// with `PositionNotFound` where the cache holds no such position, and
/// leaves the cache as it is.
pub fn close_position(
    active: &mut ActivePositionsCache,
    position_id: &str,
    close_position_reason: ExecutionClosePositionReason,
    process_id: &str,
    now: i64,
) -> (r: Result<Applied, EngineError>)
    requires
        old(active).wf(),
    ensures
        final(active).wf(),
        final(active)@ == taken(old(active)@, position_id@),
        !holds_id(final(active)@, position_id@),
        match r {
            Ok(applied) => holds_id(old(active)@, position_id@)
                && applied.position@ == old(active)@[place_of(
                old(active)@,
                position_id@,
            )].closed_as(
                process_id@,
                close_position_reason,
                now,
            ) && applied.position.wf() && event_views(applied.events@) == seq![
                EventView::ClosePosition { process_id: process_id@, position: applied.position@ },
            ],
            Err(e) => e == EngineError::PositionNotFound && !holds_id(old(active)@, position_id@),
        },
{
    let active_position = match active.remove_position(position_id) {
        Some(p) => p,
        None => {
            return Err(EngineError::PositionNotFound);
        },
    };
    let closed = active_position.close_position(process_id, close_position_reason, now);
    let event = EngineEvent::ClosePosition {
        process_id: process_id.to_owned(),
        position: closed.clone(),
    };
    Ok(Applied::one(closed, event))
}

/// Closes a position that a quote has told the engine to close. It does
/// what `close_position` does.
pub fn close_position_background(
    active: &mut ActivePositionsCache,
    position_id: &str,
    close_position_reason: ExecutionClosePositionReason,
    process_id: &str,
    now: i64,
) -> (r: Result<Applied, EngineError>)
    requires
        old(active).wf(),
    ensures
        final(active).wf(),
        final(active)@ == taken(old(active)@, position_id@),
        !holds_id(final(active)@, position_id@),
        match r {
            Ok(applied) => holds_id(old(active)@, position_id@)
                && applied.position@ == old(active)@[place_of(
                old(active)@,
                position_id@,
            )].closed_as(
                process_id@,
                close_position_reason,
                now,
            ) && applied.position.wf() && event_views(applied.events@) == seq![
                EventView::ClosePosition { process_id: process_id@, position: applied.position@ },
            ],
            Err(e) => e == EngineError::PositionNotFound && !holds_id(old(active)@, position_id@),
        },
{
    close_position(active, position_id, close_position_reason, process_id, now)
}

} // verus!
