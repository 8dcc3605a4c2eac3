use vstd::prelude::*;
use crate::active_positions_store::{holds_id, place_of, taken};
use crate::dto::EngineError;
use crate::events::{event_views, Applied, EngineEvent, EventView};
use crate::open_position::generate_id;
use crate::pending_positions_cache::PendingPositionsCache;

verus! {

/// Cancels the pending order with the given id: takes it out of the cache
/// and hands out the event that tells of it, under the process id
/// `process_id`. Fails with `PositionNotFound` where the cache holds no such
/// order, and leaves the cache as it is.
pub fn cancel_pending_with_process_id(
    pending: &mut PendingPositionsCache,
    id: &str,
    process_id: String,
) -> (r: Result<Applied, EngineError>)
    requires
        old(pending).wf(),
    ensures
        final(pending).wf(),
        final(pending)@ == taken(old(pending)@, id@),
        !holds_id(final(pending)@, id@),
        match r {
            Ok(applied) => holds_id(old(pending)@, id@)
                && applied.position@ == old(pending)@[place_of(old(pending)@, id@)]
                && event_views(applied.events@) == seq![
                EventView::CancelPending { process_id: process_id@, position: applied.position@ },
            ],
            Err(e) => e == EngineError::PositionNotFound && !holds_id(old(pending)@, id@),
        },
{
    let removed = match pending.remove_position(id) {
        Some(p) => p,
        None => {
            return Err(EngineError::PositionNotFound);
        },
    };
    let event = EngineEvent::CancelPending { process_id, position: removed.clone() };
    Ok(Applied::one(removed, event))
}

/// Cancels the pending order with the given id under a fresh process id.
pub fn cancel_pending(pending: &mut PendingPositionsCache, id: &str) -> (r: Result<
    Applied,
    EngineError,
>)
    requires
        old(pending).wf(),
    ensures
        final(pending).wf(),
        final(pending)@ == taken(old(pending)@, id@),
        !holds_id(final(pending)@, id@),
        match r {
            Ok(applied) => holds_id(old(pending)@, id@)
                && applied.position@ == old(pending)@[place_of(old(pending)@, id@)]
                && exists|process_id: Seq<char>|
                event_views(applied.events@) == seq![
                    EventView::CancelPending { process_id, position: applied.position@ },
                ],
            Err(e) => e == EngineError::PositionNotFound && !holds_id(old(pending)@, id@),
        },
{
    cancel_pending_with_process_id(pending, id, generate_id())
}

} // verus!
