use vstd::prelude::*;
use crate::amounts::{is_volume_within, volume_fits, HUNDRED_PERCENT, MAX_PRICE, SCALE};
use crate::dto::PositionSide;

verus! {

/// The command to open a position at the market.
#[derive(Debug)]
pub struct PositionOpenCommand {
    /// The id that the client chose; the engine makes one where there is
    /// none.
    pub id: Option<String>,
    pub trader_id: String,
    pub account_id: String,
    pub side: PositionSide,
    pub asset_pair: String,
    pub base: String,
    pub quote: String,
    pub collateral: String,
    pub invest_amount: u64,
    pub leverage: u64,
    pub stop_out_percent: u64,
    pub process_id: String,
    pub tp_profit: Option<i64>,
    pub tp_price: Option<u64>,
    pub sl_profit: Option<i64>,
    pub sl_price: Option<u64>,
    pub margin_call_percent: Option<u64>,
    pub topping_up_percent: Option<u64>,
}

/// The mathematical value of a [`PositionOpenCommand`], without the id.
pub struct OpenCommandView {
    pub trader_id: Seq<char>,
    pub account_id: Seq<char>,
    pub side: PositionSide,
    pub asset_pair: Seq<char>,
    pub base: Seq<char>,
    pub quote: Seq<char>,
    pub collateral: Seq<char>,
    pub invest_amount: u64,
    pub leverage: u64,
    pub stop_out_percent: u64,
    pub process_id: Seq<char>,
    pub tp_profit: Option<i64>,
    pub tp_price: Option<u64>,
    pub sl_profit: Option<i64>,
    pub sl_price: Option<u64>,
    pub margin_call_percent: Option<u64>,
    pub topping_up_percent: Option<u64>,
}

impl OpenCommandView {
    /// The invest amount is positive, the leverage at least one, the
    /// stop-out percentage in `(0, 100]`, base and quote differ, and the
    /// traded volume stays within the engine's limit.
    pub open spec fn valid(self) -> bool {
        &&& 0 < self.invest_amount
        &&& SCALE <= self.leverage
        &&& volume_fits(self.invest_amount, self.leverage)
        &&& 0 < self.stop_out_percent <= HUNDRED_PERCENT
        &&& self.base != self.quote
    }
}

impl View for PositionOpenCommand {
    type V = OpenCommandView;

    open spec fn view(&self) -> OpenCommandView {
        OpenCommandView {
            trader_id: self.trader_id@,
            account_id: self.account_id@,
            side: self.side,
            asset_pair: self.asset_pair@,
            base: self.base@,
            quote: self.quote@,
            collateral: self.collateral@,
            invest_amount: self.invest_amount,
            leverage: self.leverage,
            stop_out_percent: self.stop_out_percent,
            process_id: self.process_id@,
            tp_profit: self.tp_profit,
            tp_price: self.tp_price,
            sl_profit: self.sl_profit,
            sl_price: self.sl_price,
            margin_call_percent: self.margin_call_percent,
            topping_up_percent: self.topping_up_percent,
        }
    }
}

impl PositionOpenCommand {
    /// Decides `valid`.
    pub fn is_valid(&self) -> (r: bool)
        ensures
            r == self@.valid(),
    {
        0 < self.invest_amount && SCALE <= self.leverage && is_volume_within(
            self.invest_amount,
            self.leverage,
        ) && 0 < self.stop_out_percent && self.stop_out_percent
            <= HUNDRED_PERCENT && !(self.base == self.quote)
    }
}

/// The command to place a pending order.
#[derive(Debug)]
pub struct PositionOpenPendingCommand {
    pub command: PositionOpenCommand,
    pub desired_open_price: u64,
}

/// The mathematical value of a [`PositionOpenPendingCommand`].
pub struct OpenPendingCommandView {
    pub command: OpenCommandView,
    pub desired_open_price: u64,
}

impl OpenPendingCommandView {
    /// The command is valid and the desired price within the price limit.
    pub open spec fn valid(self) -> bool {
        self.command.valid() && self.desired_open_price <= MAX_PRICE
    }
}

impl View for PositionOpenPendingCommand {
    type V = OpenPendingCommandView;

    open spec fn view(&self) -> OpenPendingCommandView {
        OpenPendingCommandView {
            command: self.command@,
            desired_open_price: self.desired_open_price,
        }
    }
}

} // verus!
