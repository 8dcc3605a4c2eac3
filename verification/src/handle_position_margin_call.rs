use vstd::prelude::*;
use crate::events::{EngineEvent, EventView, PositionManagerPositionMarginCallHit};

verus! {

/// Makes the notification of a margin call. The position is not closed and
/// no store changes.
pub fn handle_position_margin_call(event: PositionManagerPositionMarginCallHit) -> (r: EngineEvent)
    ensures
        r@ == EventView::MarginCallHit(event@),
{
    EngineEvent::MarginCallHit(event)
}

} // verus!
