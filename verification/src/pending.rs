use vstd::prelude::*;
use crate::bid_ask::{get_close_price, BidAskView, EngineBidAsk};
use crate::dto::{ExecutionPendingOrderType, PositionSide};
use crate::position::{EnginePosition, EnginePositionState, PositionView};

verus! {

/// The kind of a pending order, from where its desired price lies when it is
/// created: a buy order below the current close price waits for the price to
/// fall (limit), any other for it to rise (stop); a sell order above the
/// current close price waits for the price to rise (limit), any other for it
/// to fall (stop).
pub open spec fn pending_type_of(
    close_price: u64,
    desire_price: u64,
    side: PositionSide,
) -> ExecutionPendingOrderType {
    match side {
        PositionSide::Buy => if desire_price < close_price {
            ExecutionPendingOrderType::BuyLimit
        } else {
            ExecutionPendingOrderType::BuyStop
        },
        PositionSide::Sell => if desire_price > close_price {
            ExecutionPendingOrderType::SellLimit
        } else {
            ExecutionPendingOrderType::SellStop
        },
    }
}

/// Whether the close price has reached the desired price of an order of the
/// given kind.
pub open spec fn activation_reached(
    order_type: ExecutionPendingOrderType,
    close_price: u64,
    desire_price: u64,
) -> bool {
    match order_type {
        ExecutionPendingOrderType::BuyLimit => close_price <= desire_price,
        ExecutionPendingOrderType::BuyStop => close_price >= desire_price,
        ExecutionPendingOrderType::SellLimit => close_price >= desire_price,
        ExecutionPendingOrderType::SellStop => close_price <= desire_price,
    }
}

impl PositionView {
    /// Whether the quote `bid_ask` activates this pending order.
    pub open spec fn ready_to_execute(self, bid_ask: BidAskView) -> bool {
        activation_reached(
            self.pending().pending_order_type,
            bid_ask.close_price(self.data.side),
            self.pending().desire_price,
        )
    }
}

/// Computes `pending_type_of`.
pub fn get_pending_position_type(close_price: u64, desire_price: u64, side: &PositionSide) -> (r:
    ExecutionPendingOrderType)
    ensures
        r == pending_type_of(close_price, desire_price, *side),
{
    match side {
        PositionSide::Buy => {
            if desire_price < close_price {
                ExecutionPendingOrderType::BuyLimit
            } else {
                ExecutionPendingOrderType::BuyStop
            }
        },
        PositionSide::Sell => {
            if desire_price > close_price {
                ExecutionPendingOrderType::SellLimit
            } else {
                ExecutionPendingOrderType::SellStop
            }
        },
    }
}

/// Decides `ready_to_execute`.
pub fn is_ready_to_execute_pending_position(position: &EnginePosition, bid_ask: &EngineBidAsk) -> (r:
    bool)
    requires
        position@.is_pending(),
    ensures
        r == position@.ready_to_execute(bid_ask@),
{
    let close_price = get_close_price(bid_ask, &position.data.side);
    match &position.state {
        EnginePositionState::Pending(pending) => match pending.pending_order_type {
            ExecutionPendingOrderType::BuyLimit => close_price <= pending.desire_price,
            ExecutionPendingOrderType::BuyStop => close_price >= pending.desire_price,
            ExecutionPendingOrderType::SellLimit => close_price >= pending.desire_price,
            ExecutionPendingOrderType::SellStop => close_price <= pending.desire_price,
        },
        _ => false,
    }
}

} // verus!
