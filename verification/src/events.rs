use vstd::prelude::*;
use crate::dto::ExecutionClosePositionReason;
use crate::position::{EnginePosition, PositionView};

verus! {

/// What the engine hands out for publication after it has changed a store.
#[derive(Debug)]
pub enum EngineEvent {
    /// Active positions stream: a position was created.
    CreatePosition { process_id: String, position: EnginePosition },
    /// Active positions stream: a position was changed.
    UpdatePosition { process_id: String, position: EnginePosition },
    /// Active positions stream: a position was closed.
    ClosePosition { process_id: String, position: EnginePosition },
    /// Pending positions stream: an order was created.
    CreatePending { process_id: String, position: EnginePosition },
    /// Pending positions stream: an order was cancelled.
    CancelPending { process_id: String, position: EnginePosition },
    /// Pending positions stream: an order was executed.
    ExecutePending { process_id: String, position: EnginePosition },
    /// A position has reached its margin-call level.
    MarginCallHit(PositionManagerPositionMarginCallHit),
    /// The topping-up reserve of a position has changed by `delta`.
    ToppingUp {
        process_id: String,
        position_id: String,
        trader_id: String,
        account_id: String,
        delta: i128,
    },
    /// An activated order waits for its execution to be confirmed.
    PendingNeedApprove { process_id: String, order: EnginePosition },
}

/// The notification that a position has reached its margin-call level.
#[derive(Debug)]
pub struct PositionManagerPositionMarginCallHit {
    pub position_id: String,
    pub trader_id: String,
    pub account_id: String,
    pub margin_call_percent: u64,
    /// The reserve that the position holds.
    pub topping_up_amount: u64,
}

/// The mathematical value of a margin-call notification.
pub struct MarginCallHitView {
    pub position_id: Seq<char>,
    pub trader_id: Seq<char>,
    pub account_id: Seq<char>,
    pub margin_call_percent: u64,
    pub topping_up_amount: u64,
}

impl View for PositionManagerPositionMarginCallHit {
    type V = MarginCallHitView;

    open spec fn view(&self) -> MarginCallHitView {
        MarginCallHitView {
            position_id: self.position_id@,
            trader_id: self.trader_id@,
            account_id: self.account_id@,
            margin_call_percent: self.margin_call_percent,
            topping_up_amount: self.topping_up_amount,
        }
    }
}

/// The mathematical value of an [`EngineEvent`].
pub enum EventView {
    CreatePosition { process_id: Seq<char>, position: PositionView },
    UpdatePosition { process_id: Seq<char>, position: PositionView },
    ClosePosition { process_id: Seq<char>, position: PositionView },
    CreatePending { process_id: Seq<char>, position: PositionView },
    CancelPending { process_id: Seq<char>, position: PositionView },
    ExecutePending { process_id: Seq<char>, position: PositionView },
    MarginCallHit(MarginCallHitView),
    ToppingUp {
        process_id: Seq<char>,
        position_id: Seq<char>,
        trader_id: Seq<char>,
        account_id: Seq<char>,
        delta: i128,
    },
    PendingNeedApprove { process_id: Seq<char>, order: PositionView },
}

impl View for EngineEvent {
    type V = EventView;

    open spec fn view(&self) -> EventView {
        match self {
            EngineEvent::CreatePosition { process_id, position } => EventView::CreatePosition {
                process_id: process_id@,
                position: position@,
            },
            EngineEvent::UpdatePosition { process_id, position } => EventView::UpdatePosition {
                process_id: process_id@,
                position: position@,
            },
            EngineEvent::ClosePosition { process_id, position } => EventView::ClosePosition {
                process_id: process_id@,
                position: position@,
            },
            EngineEvent::CreatePending { process_id, position } => EventView::CreatePending {
                process_id: process_id@,
                position: position@,
            },
            EngineEvent::CancelPending { process_id, position } => EventView::CancelPending {
                process_id: process_id@,
                position: position@,
            },
            EngineEvent::ExecutePending { process_id, position } => EventView::ExecutePending {
                process_id: process_id@,
                position: position@,
            },
            EngineEvent::MarginCallHit(hit) => EventView::MarginCallHit(hit@),
            EngineEvent::ToppingUp { process_id, position_id, trader_id, account_id, delta } => {
                EventView::ToppingUp {
                    process_id: process_id@,
                    position_id: position_id@,
                    trader_id: trader_id@,
                    account_id: account_id@,
                    delta: *delta,
                }
            },
            EngineEvent::PendingNeedApprove { process_id, order } => EventView::PendingNeedApprove {
                process_id: process_id@,
                order: order@,
            },
        }
    }
}

/// The values of a list of events.
pub open spec fn event_views(events: Seq<EngineEvent>) -> Seq<EventView> {
    events.map_values(|e: EngineEvent| e@)
}

/// What a command has done: the position as the command left it, and the
/// events to publish, in their order.
#[derive(Debug)]
pub struct Applied {
    pub position: EnginePosition,
    pub events: Vec<EngineEvent>,
}

impl Applied {
    /// A result with one event.
    pub fn one(position: EnginePosition, event: EngineEvent) -> (r: Self)
        ensures
            r.position == position,
            event_views(r.events@) == seq![event@],
    {
        let mut events: Vec<EngineEvent> = Vec::new();
        events.push(event);
        proof {
            assert(event_views(events@) =~= seq![event@]);
        }
        Applied { position, events }
    }

    /// A result with two events.
    pub fn two(position: EnginePosition, first: EngineEvent, second: EngineEvent) -> (r: Self)
        ensures
            r.position == position,
            event_views(r.events@) == seq![first@, second@],
    {
        let mut events: Vec<EngineEvent> = Vec::new();
        events.push(first);
        events.push(second);
        proof {
            assert(event_views(events@) =~= seq![first@, second@]);
        }
        Applied { position, events }
    }
}

/// A position that a quote has told the engine to close.
#[derive(Debug)]
pub struct PositionsToCloseDto {
    pub trader_id: String,
    pub account_id: String,
    pub id: String,
    pub close_reason: ExecutionClosePositionReason,
}

/// A position whose topping-up reserve can be handed back.
#[derive(Debug)]
pub struct PositionsReturnToppingUp {
    pub id: String,
    pub trader_id: String,
    pub account_id: String,
    pub topping_up_amount: u64,
}

/// What a quote has made of one position.
#[derive(Debug)]
pub enum UpdatePositionCase {
    Close(PositionsToCloseDto),
    MarginCallHit(PositionManagerPositionMarginCallHit),
    ReturnToppingUp(PositionsReturnToppingUp),
}

/// The mathematical value of an [`UpdatePositionCase`].
pub enum CaseView {
    Close {
        trader_id: Seq<char>,
        account_id: Seq<char>,
        id: Seq<char>,
        close_reason: ExecutionClosePositionReason,
    },
    MarginCallHit(MarginCallHitView),
    ReturnToppingUp {
        id: Seq<char>,
        trader_id: Seq<char>,
        account_id: Seq<char>,
        topping_up_amount: u64,
    },
}

impl View for UpdatePositionCase {
    type V = CaseView;

    open spec fn view(&self) -> CaseView {
        match self {
            UpdatePositionCase::Close(dto) => CaseView::Close {
                trader_id: dto.trader_id@,
                account_id: dto.account_id@,
                id: dto.id@,
                close_reason: dto.close_reason,
            },
            UpdatePositionCase::MarginCallHit(hit) => CaseView::MarginCallHit(hit@),
            UpdatePositionCase::ReturnToppingUp(refund) => CaseView::ReturnToppingUp {
                id: refund.id@,
                trader_id: refund.trader_id@,
                account_id: refund.account_id@,
                topping_up_amount: refund.topping_up_amount,
            },
        }
    }
}

/// The values of a list of cases.
pub open spec fn case_views(cases: Seq<UpdatePositionCase>) -> Seq<CaseView> {
    cases.map_values(|c: UpdatePositionCase| c@)
}

impl CaseView {
    /// The id of the position that the case is about.
    pub open spec fn position_id(self) -> Seq<char> {
        match self {
            CaseView::Close { id, .. } => id,
            CaseView::MarginCallHit(hit) => hit.position_id,
            CaseView::ReturnToppingUp { id, .. } => id,
        }
    }
}

} // verus!
