use vstd::prelude::*;
use crate::amounts::{
    profit_formula, volume_fits, Conversion, HUNDRED_PERCENT, MAX_PRICE, SCALE,
};
use crate::bid_ask::{clone_bid_ask_option, view_bid_ask_option, BidAskView, EngineBidAsk};
use crate::dto::{ExecutionClosePositionReason, ExecutionPendingOrderType, PositionSide};

verus! {

/// One charged swap.
#[derive(Debug, Clone, Copy, PartialEq, Eq, Structural)]
pub struct EnginePositionSwap {
    /// Microseconds since the Unix epoch.
    pub date: i64,
    pub amount: i64,
}

/// The swaps charged to a position, with their sum.
#[derive(Debug)]
pub struct EnginePositionSwaps {
    pub swaps: Vec<EnginePositionSwap>,
    pub total: i64,
}

/// The mathematical value of [`EnginePositionSwaps`].
pub struct SwapsView {
    pub swaps: Seq<EnginePositionSwap>,
    pub total: i64,
}

/// The sum of the amounts of a list of swaps.
pub open spec fn sum_amounts(swaps: Seq<EnginePositionSwap>) -> int
    decreases swaps.len(),
{
    if swaps.len() == 0 {
        0
    } else {
        sum_amounts(swaps.drop_last()) + swaps.last().amount
    }
}

impl SwapsView {
    /// The stored total is the sum of the stored amounts.
    pub open spec fn wf(self) -> bool {
        self.total == sum_amounts(self.swaps)
    }
}

impl View for EnginePositionSwaps {
    type V = SwapsView;

    open spec fn view(&self) -> SwapsView {
        SwapsView { swaps: self.swaps@, total: self.total }
    }
}

impl Clone for EnginePositionSwaps {
    fn clone(&self) -> (r: Self)
        ensures
            r@ == self@,
    {
        EnginePositionSwaps { swaps: self.swaps.clone(), total: self.total }
    }
}

impl Default for EnginePositionSwaps {
    fn default() -> (r: Self)
        ensures
            r@.swaps == Seq::<EnginePositionSwap>::empty(),
            r@.total == 0,
            r@.wf(),
    {
        EnginePositionSwaps { swaps: Vec::new(), total: 0 }
    }
}

impl EnginePositionSwaps {
    /// Whether `amount` can be added without the total leaving its range.
    pub open spec fn can_add(&self, amount: i64) -> bool {
        i64::MIN <= self.total + amount <= i64::MAX
    }

    /// Decides `can_add`.
    pub fn is_addable(&self, amount: i64) -> (r: bool)
        ensures
            r == self.can_add(amount),
    {
        let sum: i128 = (self.total as i128) + (amount as i128);
        -0x8000_0000_0000_0000 <= sum && sum <= 0x7fff_ffff_ffff_ffff
    }

    /// Appends a swap charged at `date` and adds its amount to the total.
    pub fn add_swap(&mut self, amount: i64, date: i64)
        requires
            old(self)@.wf(),
            old(self).can_add(amount),
        ensures
            final(self)@.swaps == old(self)@.swaps.push(EnginePositionSwap { date, amount }),
            final(self)@.total == old(self)@.total + amount,
            final(self)@.wf(),
    {
        let swap = EnginePositionSwap { date, amount };
        self.total = self.total + swap.amount;
        self.swaps.push(swap);
        proof {
            assert(self.swaps@.drop_last() =~= old(self).swaps@);
        }
    }
}

/// What a position holds in every state.
#[derive(Debug)]
pub struct EnginePositionBase {
    pub id: String,
    pub trader_id: String,
    pub account_id: String,
    pub asset_pair: String,
    pub side: PositionSide,
    pub invest_amount: u64,
    pub leverage: u64,
    pub stop_out_percent: u64,
    pub create_process_id: String,
    pub create_date: i64,
    pub last_update_process_id: String,
    pub last_update_date: i64,
    pub take_profit_in_position_profit: Option<i64>,
    pub take_profit_in_asset_price: Option<u64>,
    pub stop_loss_in_position_profit: Option<i64>,
    pub stop_loss_in_asset_price: Option<u64>,
    pub margin_call_percent: Option<u64>,
    pub topping_up_percent: Option<u64>,
    pub collateral_currency: String,
    pub base: String,
    pub quote: String,
}

/// The mathematical value of [`EnginePositionBase`].
pub struct PositionBaseView {
    pub id: Seq<char>,
    pub trader_id: Seq<char>,
    pub account_id: Seq<char>,
    pub asset_pair: Seq<char>,
    pub side: PositionSide,
    pub invest_amount: u64,
    pub leverage: u64,
    pub stop_out_percent: u64,
    pub create_process_id: Seq<char>,
    pub create_date: i64,
    pub last_update_process_id: Seq<char>,
    pub last_update_date: i64,
    pub take_profit_in_position_profit: Option<i64>,
    pub take_profit_in_asset_price: Option<u64>,
    pub stop_loss_in_position_profit: Option<i64>,
    pub stop_loss_in_asset_price: Option<u64>,
    pub margin_call_percent: Option<u64>,
    pub topping_up_percent: Option<u64>,
    pub collateral_currency: Seq<char>,
    pub base: Seq<char>,
    pub quote: Seq<char>,
}

impl PositionBaseView {
    /// The invest amount is positive, the leverage at least one, the
    /// stop-out percentage in `(0, 100]`, base and quote differ, and the
    /// traded volume stays within the engine's limit.
    pub open spec fn wf(self) -> bool {
        &&& 0 < self.invest_amount
        &&& SCALE <= self.leverage
        &&& volume_fits(self.invest_amount, self.leverage)
        &&& 0 < self.stop_out_percent <= HUNDRED_PERCENT
        &&& self.base != self.quote
    }
}

impl View for EnginePositionBase {
    type V = PositionBaseView;

    open spec fn view(&self) -> PositionBaseView {
        PositionBaseView {
            id: self.id@,
            trader_id: self.trader_id@,
            account_id: self.account_id@,
            asset_pair: self.asset_pair@,
            side: self.side,
            invest_amount: self.invest_amount,
            leverage: self.leverage,
            stop_out_percent: self.stop_out_percent,
            create_process_id: self.create_process_id@,
            create_date: self.create_date,
            last_update_process_id: self.last_update_process_id@,
            last_update_date: self.last_update_date,
            take_profit_in_position_profit: self.take_profit_in_position_profit,
            take_profit_in_asset_price: self.take_profit_in_asset_price,
            stop_loss_in_position_profit: self.stop_loss_in_position_profit,
            stop_loss_in_asset_price: self.stop_loss_in_asset_price,
            margin_call_percent: self.margin_call_percent,
            topping_up_percent: self.topping_up_percent,
            collateral_currency: self.collateral_currency@,
            base: self.base@,
            quote: self.quote@,
        }
    }
}

impl Clone for EnginePositionBase {
    fn clone(&self) -> (r: Self)
        ensures
            r@ == self@,
    {
        EnginePositionBase {
            id: self.id.clone(),
            trader_id: self.trader_id.clone(),
            account_id: self.account_id.clone(),
            asset_pair: self.asset_pair.clone(),
            side: self.side,
            invest_amount: self.invest_amount,
            leverage: self.leverage,
            stop_out_percent: self.stop_out_percent,
            create_process_id: self.create_process_id.clone(),
            create_date: self.create_date,
            last_update_process_id: self.last_update_process_id.clone(),
            last_update_date: self.last_update_date,
            take_profit_in_position_profit: self.take_profit_in_position_profit,
            take_profit_in_asset_price: self.take_profit_in_asset_price,
            stop_loss_in_position_profit: self.stop_loss_in_position_profit,
            stop_loss_in_asset_price: self.stop_loss_in_asset_price,
            margin_call_percent: self.margin_call_percent,
            topping_up_percent: self.topping_up_percent,
            collateral_currency: self.collateral_currency.clone(),
            base: self.base.clone(),
            quote: self.quote.clone(),
        }
    }
}

/// The state of an order that waits for its price.
#[derive(Debug, Clone, Copy, PartialEq, Eq, Structural)]
pub struct PendingPositionState {
    pub desire_price: u64,
    pub pending_order_type: ExecutionPendingOrderType,
}

/// The state of an open position.
#[derive(Debug)]
pub struct ActivePositionState {
    pub asset_open_price: u64,
    pub asset_open_bid_ask: EngineBidAsk,
    pub collateral_base_open_price: u64,
    pub collateral_base_open_bid_ask: Option<EngineBidAsk>,
    pub open_process_id: String,
    pub open_date: i64,
    pub asset_last_price: u64,
    pub asset_last_bid_ask: EngineBidAsk,
    pub collateral_quote_last_price: u64,
    pub collateral_quote_last_bid_ask: Option<EngineBidAsk>,
    pub profit: i128,
    pub swaps: EnginePositionSwaps,
    pub topping_up_reserve: u64,
    pub margin_call_hit: bool,
    pub pending_state: Option<PendingPositionState>,
}

/// The mathematical value of [`ActivePositionState`].
pub struct ActiveStateView {
    pub asset_open_price: u64,
    pub asset_open_bid_ask: BidAskView,
    pub collateral_base_open_price: u64,
    pub collateral_base_open_bid_ask: Option<BidAskView>,
    pub open_process_id: Seq<char>,
    pub open_date: i64,
    pub asset_last_price: u64,
    pub asset_last_bid_ask: BidAskView,
    pub collateral_quote_last_price: u64,
    pub collateral_quote_last_bid_ask: Option<BidAskView>,
    pub profit: i128,
    pub swaps: SwapsView,
    pub topping_up_reserve: u64,
    pub margin_call_hit: bool,
    pub pending_state: Option<PendingPositionState>,
}

/// How a rate quoted by `bid_ask` converts into `collateral`: no quote, no
/// conversion; a quote whose quote currency is the collateral divides; any
/// other multiplies.
pub open spec fn conversion_of(
    bid_ask: Option<BidAskView>,
    price: u64,
    collateral: Seq<char>,
) -> Conversion {
    match bid_ask {
        None => Conversion::Identity,
        Some(b) => if b.quote == collateral {
            Conversion::Divide(price)
        } else {
            Conversion::Multiply(price)
        },
    }
}

/// What the open data of a position holds: the part of an active state that
/// never changes after the position was opened.
pub struct OpenDataView {
    pub asset_open_price: u64,
    pub asset_open_bid_ask: BidAskView,
    pub collateral_base_open_price: u64,
    pub collateral_base_open_bid_ask: Option<BidAskView>,
    pub open_process_id: Seq<char>,
    pub open_date: i64,
}

impl ActiveStateView {
    pub open spec fn open_data(self) -> OpenDataView {
        OpenDataView {
            asset_open_price: self.asset_open_price,
            asset_open_bid_ask: self.asset_open_bid_ask,
            collateral_base_open_price: self.collateral_base_open_price,
            collateral_base_open_bid_ask: self.collateral_base_open_bid_ask,
            open_process_id: self.open_process_id,
            open_date: self.open_date,
        }
    }

    /// How the traded volume becomes invested collateral.
    pub open spec fn base_conversion(self, data: PositionBaseView) -> Conversion {
        conversion_of(
            self.collateral_base_open_bid_ask,
            self.collateral_base_open_price,
            data.collateral_currency,
        )
    }

    /// How a gain in the quote currency becomes collateral.
    pub open spec fn quote_conversion(self, data: PositionBaseView) -> Conversion {
        conversion_of(
            self.collateral_quote_last_bid_ask,
            self.collateral_quote_last_price,
            data.collateral_currency,
        )
    }

    /// The profit that the pricing formula gives for this state.
    pub open spec fn expected_profit(self, data: PositionBaseView) -> int {
        profit_formula(
            data.side.is_buy(),
            data.invest_amount as nat,
            data.leverage as nat,
            self.asset_open_price as nat,
            self.base_conversion(data),
            self.asset_last_price as nat,
            self.quote_conversion(data),
            self.swaps.total as int,
        )
    }

    /// Every price is within the price limit, and a leg that needs no
    /// conversion has no quote and the rate one.
    pub open spec fn rates_wf(self, data: PositionBaseView) -> bool {
        &&& self.asset_open_price <= MAX_PRICE
        &&& self.asset_last_price <= MAX_PRICE
        &&& self.collateral_base_open_price <= MAX_PRICE
        &&& self.collateral_quote_last_price <= MAX_PRICE
        &&& self.asset_last_bid_ask.wf()
        &&& data.base == data.collateral_currency ==> self.collateral_base_open_bid_ask is None
            && self.collateral_base_open_price == SCALE
        &&& data.quote == data.collateral_currency ==> self.collateral_quote_last_bid_ask is None
            && self.collateral_quote_last_price == SCALE
    }

    /// The rates are well formed, the swap total is the sum of the swaps,
    /// and the stored profit is the one the pricing formula gives.
    pub open spec fn wf(self, data: PositionBaseView) -> bool {
        &&& self.rates_wf(data)
        &&& self.swaps.wf()
        &&& self.profit == self.expected_profit(data)
    }
}

impl View for ActivePositionState {
    type V = ActiveStateView;

    open spec fn view(&self) -> ActiveStateView {
        ActiveStateView {
            asset_open_price: self.asset_open_price,
            asset_open_bid_ask: self.asset_open_bid_ask@,
            collateral_base_open_price: self.collateral_base_open_price,
            collateral_base_open_bid_ask: view_bid_ask_option(self.collateral_base_open_bid_ask),
            open_process_id: self.open_process_id@,
            open_date: self.open_date,
            asset_last_price: self.asset_last_price,
            asset_last_bid_ask: self.asset_last_bid_ask@,
            collateral_quote_last_price: self.collateral_quote_last_price,
            collateral_quote_last_bid_ask: view_bid_ask_option(self.collateral_quote_last_bid_ask),
            profit: self.profit,
            swaps: self.swaps@,
            topping_up_reserve: self.topping_up_reserve,
            margin_call_hit: self.margin_call_hit,
            pending_state: self.pending_state,
        }
    }
}

impl Clone for ActivePositionState {
    fn clone(&self) -> (r: Self)
        ensures
            r@ == self@,
    {
        ActivePositionState {
            asset_open_price: self.asset_open_price,
            asset_open_bid_ask: self.asset_open_bid_ask.clone(),
            collateral_base_open_price: self.collateral_base_open_price,
            collateral_base_open_bid_ask: clone_bid_ask_option(&self.collateral_base_open_bid_ask),
            open_process_id: self.open_process_id.clone(),
            open_date: self.open_date,
            asset_last_price: self.asset_last_price,
            asset_last_bid_ask: self.asset_last_bid_ask.clone(),
            collateral_quote_last_price: self.collateral_quote_last_price,
            collateral_quote_last_bid_ask: clone_bid_ask_option(
                &self.collateral_quote_last_bid_ask,
            ),
            profit: self.profit,
            swaps: self.swaps.clone(),
            topping_up_reserve: self.topping_up_reserve,
            margin_call_hit: self.margin_call_hit,
            pending_state: self.pending_state,
        }
    }
}

/// The state of a position that was closed.
#[derive(Debug)]
pub struct ClosedPositionStates {
    pub active_state: ActivePositionState,
    pub asset_close_price: u64,
    pub asset_close_bid_ask: EngineBidAsk,
    pub close_reason: ExecutionClosePositionReason,
    pub close_date: i64,
    pub close_process_id: String,
}

/// The mathematical value of [`ClosedPositionStates`].
pub struct ClosedStateView {
    pub active_state: ActiveStateView,
    pub asset_close_price: u64,
    pub asset_close_bid_ask: BidAskView,
    pub close_reason: ExecutionClosePositionReason,
    pub close_date: i64,
    pub close_process_id: Seq<char>,
}

impl View for ClosedPositionStates {
    type V = ClosedStateView;

    open spec fn view(&self) -> ClosedStateView {
        ClosedStateView {
            active_state: self.active_state@,
            asset_close_price: self.asset_close_price,
            asset_close_bid_ask: self.asset_close_bid_ask@,
            close_reason: self.close_reason,
            close_date: self.close_date,
            close_process_id: self.close_process_id@,
        }
    }
}

impl Clone for ClosedPositionStates {
    fn clone(&self) -> (r: Self)
        ensures
            r@ == self@,
    {
        ClosedPositionStates {
            active_state: self.active_state.clone(),
            asset_close_price: self.asset_close_price,
            asset_close_bid_ask: self.asset_close_bid_ask.clone(),
            close_reason: self.close_reason,
            close_date: self.close_date,
            close_process_id: self.close_process_id.clone(),
        }
    }
}

/// The three states of a position.
#[derive(Debug)]
pub enum EnginePositionState {
    Pending(PendingPositionState),
    Active(ActivePositionState),
    Closed(ClosedPositionStates),
}

/// The mathematical value of [`EnginePositionState`].
pub enum PositionStateView {
    Pending(PendingPositionState),
    Active(ActiveStateView),
    Closed(ClosedStateView),
}

impl View for EnginePositionState {
    type V = PositionStateView;

    open spec fn view(&self) -> PositionStateView {
        match self {
            EnginePositionState::Pending(p) => PositionStateView::Pending(*p),
            EnginePositionState::Active(a) => PositionStateView::Active(a@),
            EnginePositionState::Closed(c) => PositionStateView::Closed(c@),
        }
    }
}

impl Clone for EnginePositionState {
    fn clone(&self) -> (r: Self)
        ensures
            r@ == self@,
    {
        match self {
            EnginePositionState::Pending(p) => EnginePositionState::Pending(*p),
            EnginePositionState::Active(a) => EnginePositionState::Active(a.clone()),
            EnginePositionState::Closed(c) => EnginePositionState::Closed(c.clone()),
        }
    }
}

/// A position: what it holds in every state, and its state.
#[derive(Debug)]
pub struct EnginePosition {
    pub data: EnginePositionBase,
    pub state: EnginePositionState,
}

/// The mathematical value of an [`EnginePosition`].
pub struct PositionView {
    pub data: PositionBaseView,
    pub state: PositionStateView,
}

impl View for EnginePosition {
    type V = PositionView;

    open spec fn view(&self) -> PositionView {
        PositionView { data: self.data@, state: self.state@ }
    }
}

impl Clone for EnginePosition {
    fn clone(&self) -> (r: Self)
        ensures
            r@ == self@,
    {
        EnginePosition { data: self.data.clone(), state: self.state.clone() }
    }
}

impl PositionView {
    pub open spec fn is_pending(self) -> bool {
        self.state is Pending
    }

    pub open spec fn is_active(self) -> bool {
        self.state is Active
    }

    pub open spec fn is_closed(self) -> bool {
        self.state is Closed
    }

    /// The pending state of a pending position.
    pub open spec fn pending(self) -> PendingPositionState
        recommends
            self.is_pending(),
    {
        self.state->Pending_0
    }

    /// The active state of an active position.
    pub open spec fn active(self) -> ActiveStateView
        recommends
            self.is_active(),
    {
        self.state->Active_0
    }

    /// The closed state of a closed position.
    pub open spec fn closed(self) -> ClosedStateView
        recommends
            self.is_closed(),
    {
        self.state->Closed_0
    }

    /// The base data is well formed, and so is the state: the desired price
    /// of a pending order is within the price limit; an active state is well
    /// formed for the base data; a closed state holds a well-formed active
    /// state and closed at its last price.
    pub open spec fn wf(self) -> bool {
        &&& self.data.wf()
        &&& match self.state {
            PositionStateView::Pending(p) => p.desire_price <= MAX_PRICE,
            PositionStateView::Active(a) => a.wf(self.data),
            PositionStateView::Closed(c) => c.active_state.wf(self.data) && c.asset_close_price
                == c.active_state.asset_last_price && c.asset_close_bid_ask
                == c.active_state.asset_last_bid_ask,
        }
    }
}

} // verus!
