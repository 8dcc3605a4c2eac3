use vstd::prelude::*;

verus! {

/// The direction of a position.
#[derive(Debug, Clone, Copy, PartialEq, Eq, Structural)]
pub enum PositionSide {
    Buy,
    Sell,
}

impl PositionSide {
    /// The side that a wire code stands for: 0 is `Buy`, 1 is `Sell`.
    pub fn from(value: i32) -> (r: Self)
        requires
            value == 0 || value == 1,
        ensures
            r == (if value == 0 {
                PositionSide::Buy
            } else {
                PositionSide::Sell
            }),
    {
        if value == 0 {
            PositionSide::Buy
        } else {
            PositionSide::Sell
        }
    }

    /// The side that a wire code stands for, if it stands for one.
    pub fn try_from_code(value: i32) -> (r: Option<Self>)
        ensures
            r == (if value == 0 {
                Some(PositionSide::Buy)
            } else if value == 1 {
                Some(PositionSide::Sell)
            } else {
                None
            }),
    {
        if value == 0 || value == 1 {
            Some(PositionSide::from(value))
        } else {
            None
        }
    }

    pub open spec fn is_buy(self) -> bool {
        self == PositionSide::Buy
    }
}

/// Why a position was closed.
#[derive(Debug, Clone, Copy, PartialEq, Eq, Structural)]
pub enum ExecutionClosePositionReason {
    ClientCommand,
    StopOut,
    TakeProfit,
    StopLoss,
    ForceClose,
}

/// The four kinds of pending order.
#[derive(Debug, Clone, Copy, PartialEq, Eq, Structural)]
pub enum ExecutionPendingOrderType {
    BuyStop,
    BuyLimit,
    SellStop,
    SellLimit,
}

/// What the engine answers when it cannot carry out a command.
#[derive(Debug, Clone, Copy, PartialEq, Eq, Structural)]
pub enum EngineError {
    /// A quote that the command needs is not in the quote cache.
    NoLiquidity,
    /// No position with the given id is in the store.
    PositionNotFound,
    /// The command holds a value outside the range the engine works with.
    InvalidRequest,
}

} // verus!
