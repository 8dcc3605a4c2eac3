use vstd::prelude::*;
use crate::amounts::{
    compute_profit, is_loss_reached, lemma_profit_bound, loss_reaches, Conversion, MAX_PROFIT,
};
use crate::bid_ask::{get_close_price, EngineBidAsk};
use crate::dto::{ExecutionClosePositionReason, PositionSide};
use crate::positions_store_index::{IndexKeys, PositionsStoreIndexAccessor};
use crate::position::{
    ActivePositionState, ActiveStateView, ClosedPositionStates, ClosedStateView, EnginePosition,
    EnginePositionState, EnginePositionSwap, PositionBaseView, PositionStateView, PositionView,
    SwapsView,
};

verus! {

impl PositionView {
    /// The price at which the position would be closed now.
    pub open spec fn last_close_price(self) -> u64 {
        self.active().asset_last_bid_ask.close_price(self.data.side)
    }

    /// Stop-out: the loss, after the topping-up reserve, has eaten the
    /// stop-out percentage of the invest amount.
    pub open spec fn so_triggered(self) -> bool {
        loss_reaches(
            self.active().profit as int,
            self.active().topping_up_reserve as nat,
            self.data.invest_amount as nat,
            self.data.stop_out_percent as nat,
        )
    }

    /// Stop-loss: the profit is at or below the stop-loss profit, or the
    /// close price has reached the stop-loss price.
    pub open spec fn sl_triggered(self) -> bool {
        ||| match self.data.stop_loss_in_position_profit {
            Some(sl) => self.active().profit <= sl,
            None => false,
        }
        ||| match self.data.stop_loss_in_asset_price {
            Some(sl) => match self.data.side {
                PositionSide::Buy => self.last_close_price() <= sl,
                PositionSide::Sell => self.last_close_price() >= sl,
            },
            None => false,
        }
    }

    /// Take-profit: the profit is at or above the take-profit profit, or the
    /// close price has reached the take-profit price.
    pub open spec fn tp_triggered(self) -> bool {
        ||| match self.data.take_profit_in_position_profit {
            Some(tp) => self.active().profit >= tp,
            None => false,
        }
        ||| match self.data.take_profit_in_asset_price {
            Some(tp) => match self.data.side {
                PositionSide::Buy => self.last_close_price() >= tp,
                PositionSide::Sell => self.last_close_price() <= tp,
            },
            None => false,
        }
    }

    /// Why the position must be closed now, if it must: stop-out comes
    /// before stop-loss, stop-loss before take-profit.
    pub open spec fn close_reason(self) -> Option<ExecutionClosePositionReason> {
        if self.so_triggered() {
            Some(ExecutionClosePositionReason::StopOut)
        } else if self.sl_triggered() {
            Some(ExecutionClosePositionReason::StopLoss)
        } else if self.tp_triggered() {
            Some(ExecutionClosePositionReason::TakeProfit)
        } else {
            None
        }
    }

    /// The loss has eaten the margin-call percentage of the invest amount.
    pub open spec fn margin_call_reached(self) -> bool {
        match self.data.margin_call_percent {
            Some(percent) => loss_reaches(
                self.active().profit as int,
                self.active().topping_up_reserve as nat,
                self.data.invest_amount as nat,
                percent as nat,
            ),
            None => false,
        }
    }

    /// The reserve is no longer needed: the position has a topping-up
    /// percentage and a reserve, and without the reserve its loss stays
    /// below that percentage.
    pub open spec fn topping_up_refundable(self) -> bool {
        match self.data.topping_up_percent {
            Some(percent) => self.active().topping_up_reserve > 0 && !loss_reaches(
                self.active().profit as int,
                0,
                self.data.invest_amount as nat,
                percent as nat,
            ),
            None => false,
        }
    }

    /// The same position with another active state.
    pub open spec fn with_active(self, active: ActiveStateView) -> PositionView {
        PositionView { data: self.data, state: PositionStateView::Active(active) }
    }

    /// The same position with the profit that the pricing formula gives.
    pub open spec fn repriced(self) -> PositionView {
        self.with_active(
            ActiveStateView {
                profit: self.active().expected_profit(self.data) as i128,
                ..self.active()
            },
        )
    }

    /// The active state after the quote `bid_ask` has arrived: a quote of
    /// the position's asset pair becomes its last asset quote, and its close
    /// price the last asset price; a quote of the pair of the position's
    /// quote-collateral quote replaces that quote and its rate.
    pub open spec fn rates_after(self, bid_ask: crate::bid_ask::BidAskView) -> ActiveStateView {
        let a = self.active();
        let touched_asset = bid_ask.asset_pair == self.data.asset_pair;
        let touched_rate = a.collateral_quote_last_bid_ask is Some
            && a.collateral_quote_last_bid_ask->0.asset_pair == bid_ask.asset_pair;
        ActiveStateView {
            asset_last_bid_ask: if touched_asset {
                bid_ask
            } else {
                a.asset_last_bid_ask
            },
            asset_last_price: if touched_asset {
                bid_ask.close_price(self.data.side)
            } else {
                a.asset_last_price
            },
            collateral_quote_last_bid_ask: if touched_rate {
                Some(bid_ask)
            } else {
                a.collateral_quote_last_bid_ask
            },
            collateral_quote_last_price: if touched_rate {
                bid_ask.close_price(self.data.side)
            } else {
                a.collateral_quote_last_price
            },
            ..a
        }
    }

    /// The position after the quote `bid_ask` has arrived: its rates
    /// follow the quote and its profit is computed anew.
    pub open spec fn after_bid_ask(self, bid_ask: crate::bid_ask::BidAskView) -> PositionView {
        self.with_active(self.rates_after(bid_ask)).repriced()
    }

    /// The position after a swap was charged: the swap is appended, the
    /// total grows by its amount, and the profit is computed anew.
    pub open spec fn after_swap(self, amount: i64, date: i64) -> PositionView {
        let a = self.active();
        self.with_active(
            ActiveStateView {
                swaps: SwapsView {
                    swaps: a.swaps.swaps.push(EnginePositionSwap { date, amount }),
                    total: (a.swaps.total + amount) as i64,
                },
                ..a
            },
        ).repriced()
    }

    /// The position closed for `close_reason`: the active state is kept as
    /// it was, and the position closes at its last asset price and quote.
    pub open spec fn closed_as(
        self,
        process_id: Seq<char>,
        close_reason: ExecutionClosePositionReason,
        close_date: i64,
    ) -> PositionView {
        PositionView {
            data: self.data,
            state: PositionStateView::Closed(
                ClosedStateView {
                    active_state: self.active(),
                    asset_close_price: self.active().asset_last_price,
                    asset_close_bid_ask: self.active().asset_last_bid_ask,
                    close_reason,
                    close_date,
                    close_process_id: process_id,
                },
            ),
        }
    }
}

pub proof fn lemma_expected_profit_bound(a: ActiveStateView, data: PositionBaseView)
    requires
        data.wf(),
        a.rates_wf(data),
    ensures
        -MAX_PROFIT <= a.expected_profit(data) <= MAX_PROFIT,
{
    lemma_profit_bound(
        data.side.is_buy(),
        data.invest_amount as nat,
        data.leverage as nat,
        a.asset_open_price as nat,
        a.base_conversion(data),
        a.asset_last_price as nat,
        a.quote_conversion(data),
        a.swaps.total as int,
    );
}

/// How a rate quoted by `bid_ask` converts into `collateral`.
fn conversion_for(bid_ask: &Option<EngineBidAsk>, price: u64, collateral: &str) -> (r: Conversion)
    ensures
        r == crate::position::conversion_of(
            crate::bid_ask::view_bid_ask_option(*bid_ask),
            price,
            collateral@,
        ),
{
    match bid_ask {
        None => Conversion::Identity,
        Some(b) => {
            if b.quote.as_str().eq(collateral) {
                Conversion::Divide(price)
            } else {
                Conversion::Multiply(price)
            }
        },
    }
}

impl EnginePosition {
    pub open spec fn wf(&self) -> bool {
        self@.wf()
    }

    pub fn is_active(&self) -> (r: bool)
        ensures
            r == self@.is_active(),
    {
        match &self.state {
            EnginePositionState::Active(_) => true,
            _ => false,
        }
    }

    pub fn is_pending(&self) -> (r: bool)
        ensures
            r == self@.is_pending(),
    {
        match &self.state {
            EnginePositionState::Pending(_) => true,
            _ => false,
        }
    }

    /// The active state of an active position.
    pub fn get_active_state(&self) -> (r: &ActivePositionState)
        requires
            self@.is_active(),
        ensures
            r@ == self@.active(),
            self.state == EnginePositionState::Active(*r),
    {
        match &self.state {
            EnginePositionState::Active(active_state) => active_state,
            _ => vstd::pervasive::unreached(),
        }
    }

    /// The profit that the pricing formula gives for the position as it is.
    fn priced(&self) -> (r: i128)
        requires
            self@.is_active(),
            self@.data.wf(),
            self@.active().rates_wf(self@.data),
        ensures
            r == self@.active().expected_profit(self@.data),
            -MAX_PROFIT <= r <= MAX_PROFIT,
    {
        let active_state = self.get_active_state();
        let base_rate = conversion_for(
            &active_state.collateral_base_open_bid_ask,
            active_state.collateral_base_open_price,
            self.data.collateral_currency.as_str(),
        );
        let quote_rate = conversion_for(
            &active_state.collateral_quote_last_bid_ask,
            active_state.collateral_quote_last_price,
            self.data.collateral_currency.as_str(),
        );
        let buy = match self.data.side {
            PositionSide::Buy => true,
            PositionSide::Sell => false,
        };
        compute_profit(
            buy,
            self.data.invest_amount,
            self.data.leverage,
            active_state.asset_open_price,
            base_rate,
            active_state.asset_last_price,
            quote_rate,
            active_state.swaps.total,
        )
    }

    /// Stores the profit that the pricing formula gives.
    pub fn update_pl(&mut self)
        requires
            old(self)@.is_active(),
            old(self)@.data.wf(),
            old(self)@.active().rates_wf(old(self)@.data),
        ensures
            final(self)@ == old(self)@.repriced(),
            old(self)@.active().swaps.wf() ==> final(self).wf(),
    {
        let profit = self.priced();
        match &mut self.state {
            EnginePositionState::Active(active_state) => {
                active_state.profit = profit;
            },
            _ => {},
        }
    }

    /// Takes in a quote: the rates that the quote touches follow it, and
    /// the profit is computed anew.
    pub fn handle_bid_ask(&mut self, bid_ask: &EngineBidAsk)
        requires
            old(self)@.is_active(),
            old(self).wf(),
            bid_ask.wf(),
        ensures
            final(self)@ == old(self)@.after_bid_ask(bid_ask@),
            final(self).wf(),
    {
        let side = self.data.side;
        let touched_asset = bid_ask.asset_pair == self.data.asset_pair;
        let close_price = get_close_price(bid_ask, &side);
        match &mut self.state {
            EnginePositionState::Active(active_state) => {
                if touched_asset {
                    active_state.asset_last_bid_ask = bid_ask.clone();
                    active_state.asset_last_price = close_price;
                }
                let touched_rate = match &active_state.collateral_quote_last_bid_ask {
                    Some(collateral) => collateral.asset_pair == bid_ask.asset_pair,
                    None => false,
                };
                if touched_rate {
                    active_state.collateral_quote_last_bid_ask = Some(bid_ask.clone());
                    active_state.collateral_quote_last_price = close_price;
                }
            },
            _ => {},
        }
        assert(self@ == old(self)@.with_active(old(self)@.rates_after(bid_ask@)));
        self.update_pl();
    }

    /// Charges a swap: it is appended to the swaps, and the profit is
    /// computed anew.
    pub fn charge_swap(&mut self, swap: i64, date: i64)
        requires
            old(self)@.is_active(),
            old(self).wf(),
            i64::MIN <= old(self)@.active().swaps.total + swap <= i64::MAX,
        ensures
            final(self)@ == old(self)@.after_swap(swap, date),
            final(self).wf(),
    {
        match &mut self.state {
            EnginePositionState::Active(active_state) => {
                active_state.swaps.add_swap(swap, date);
            },
            _ => {},
        }
        self.update_pl();
    }

    /// Sets the two stop-loss levels.
    pub fn update_sl(&mut self, sl_in_profit: &Option<i64>, sl_in_asset_price: &Option<u64>)
        ensures
            final(self)@ == (PositionView {
                data: PositionBaseView {
                    stop_loss_in_position_profit: *sl_in_profit,
                    stop_loss_in_asset_price: *sl_in_asset_price,
                    ..old(self)@.data
                },
                ..old(self)@
            }),
            old(self).wf() ==> final(self).wf(),
    {
        self.data.stop_loss_in_asset_price = *sl_in_asset_price;
        self.data.stop_loss_in_position_profit = *sl_in_profit;
    }

    /// Sets the two take-profit levels.
    pub fn update_tp(&mut self, tp_in_profit: &Option<i64>, tp_in_asset_price: &Option<u64>)
        ensures
            final(self)@ == (PositionView {
                data: PositionBaseView {
                    take_profit_in_position_profit: *tp_in_profit,
                    take_profit_in_asset_price: *tp_in_asset_price,
                    ..old(self)@.data
                },
                ..old(self)@
            }),
            old(self).wf() ==> final(self).wf(),
    {
        self.data.take_profit_in_asset_price = *tp_in_asset_price;
        self.data.take_profit_in_position_profit = *tp_in_profit;
    }

    fn is_so_triggered(&self) -> (r: bool)
        requires
            self@.is_active(),
            self.wf(),
        ensures
            r == self@.so_triggered(),
    {
        proof {
            lemma_expected_profit_bound(self@.active(), self@.data);
        }
        let active_state = self.get_active_state();
        is_loss_reached(
            active_state.profit,
            active_state.topping_up_reserve,
            self.data.invest_amount,
            self.data.stop_out_percent,
        )
    }

    fn is_sl_triggered(&self) -> (r: bool)
        requires
            self@.is_active(),
        ensures
            r == self@.sl_triggered(),
    {
        let active_state = self.get_active_state();
        let by_profit = match self.data.stop_loss_in_position_profit {
            Some(sl) => active_state.profit <= sl as i128,
            None => false,
        };
        let close_price = get_close_price(&active_state.asset_last_bid_ask, &self.data.side);
        let by_price = match self.data.stop_loss_in_asset_price {
            Some(sl) => match self.data.side {
                PositionSide::Buy => close_price <= sl,
                PositionSide::Sell => close_price >= sl,
            },
            None => false,
        };
        by_profit || by_price
    }

    fn is_tp_triggered(&self) -> (r: bool)
        requires
            self@.is_active(),
        ensures
            r == self@.tp_triggered(),
    {
        let active_state = self.get_active_state();
        let by_profit = match self.data.take_profit_in_position_profit {
            Some(tp) => active_state.profit >= tp as i128,
            None => false,
        };
        let close_price = get_close_price(&active_state.asset_last_bid_ask, &self.data.side);
        let by_price = match self.data.take_profit_in_asset_price {
            Some(tp) => match self.data.side {
                PositionSide::Buy => close_price >= tp,
                PositionSide::Sell => close_price <= tp,
            },
            None => false,
        };
        by_profit || by_price
    }

    /// Why the position must be closed now, if it must.
    pub fn get_close_reason(&self) -> (r: Option<ExecutionClosePositionReason>)
        requires
            self@.is_active(),
            self.wf(),
        ensures
            r == self@.close_reason(),
    {
        if self.is_so_triggered() {
            return Some(ExecutionClosePositionReason::StopOut);
        }
        if self.is_sl_triggered() {
            return Some(ExecutionClosePositionReason::StopLoss);
        }
        if self.is_tp_triggered() {
            return Some(ExecutionClosePositionReason::TakeProfit);
        }
        None
    }

    /// Raises the margin call once: where the margin-call level is reached
    /// and the position is not flagged yet, flags it and answers `true`.
    pub fn update_margin_call_hit(&mut self) -> (r: bool)
        requires
            old(self)@.is_active(),
            old(self).wf(),
        ensures
            r == (old(self)@.margin_call_reached() && !old(self)@.active().margin_call_hit),
            final(self)@ == old(self)@.with_active(
                ActiveStateView {
                    margin_call_hit: old(self)@.active().margin_call_hit || r,
                    ..old(self)@.active()
                },
            ),
            final(self).wf(),
    {
        proof {
            lemma_expected_profit_bound(self@.active(), self@.data);
        }
        let reached = match self.data.margin_call_percent {
            Some(percent) => {
                let active_state = self.get_active_state();
                !active_state.margin_call_hit && is_loss_reached(
                    active_state.profit,
                    active_state.topping_up_reserve,
                    self.data.invest_amount,
                    percent,
                )
            },
            None => false,
        };
        if reached {
            match &mut self.state {
                EnginePositionState::Active(active_state) => {
                    active_state.margin_call_hit = true;
                },
                _ => {},
            }
        }
        assert(self@.state->Active_0 == (ActiveStateView {
            margin_call_hit: old(self)@.active().margin_call_hit || reached,
            ..old(self)@.active()
        }));
        reached
    }

    /// Whether the topping-up reserve can be handed back.
    pub fn can_return_topping_up_funds(&self) -> (r: bool)
        requires
            self@.is_active(),
            self.wf(),
        ensures
            r == self@.topping_up_refundable(),
    {
        proof {
            lemma_expected_profit_bound(self@.active(), self@.data);
        }
        match self.data.topping_up_percent {
            Some(percent) => {
                let active_state = self.get_active_state();
                active_state.topping_up_reserve > 0 && !is_loss_reached(
                    active_state.profit,
                    0,
                    self.data.invest_amount,
                    percent,
                )
            },
            None => false,
        }
    }

    /// Adds `amount` to the topping-up reserve.
    pub fn apply_position_topping_up(&mut self, amount: u64)
        requires
            old(self)@.is_active(),
            old(self)@.active().topping_up_reserve + amount <= u64::MAX,
        ensures
            final(self)@ == old(self)@.with_active(
                ActiveStateView {
                    topping_up_reserve: (old(self)@.active().topping_up_reserve + amount) as u64,
                    ..old(self)@.active()
                },
            ),
            old(self).wf() ==> final(self).wf(),
    {
        match &mut self.state {
            EnginePositionState::Active(active_state) => {
                active_state.topping_up_reserve = active_state.topping_up_reserve + amount;
            },
            _ => {},
        }
    }

    /// Takes `amount` out of the topping-up reserve.
    pub fn return_topping_up(&mut self, amount: u64)
        requires
            old(self)@.is_active(),
            amount <= old(self)@.active().topping_up_reserve,
        ensures
            final(self)@ == old(self)@.with_active(
                ActiveStateView {
                    topping_up_reserve: (old(self)@.active().topping_up_reserve - amount) as u64,
                    ..old(self)@.active()
                },
            ),
            old(self).wf() ==> final(self).wf(),
    {
        match &mut self.state {
            EnginePositionState::Active(active_state) => {
                active_state.topping_up_reserve = active_state.topping_up_reserve - amount;
            },
            _ => {},
        }
    }

    /// Closes an active position for `close_reason`.
    pub fn close_position(
        self,
        process_id: &str,
        close_reason: ExecutionClosePositionReason,
        close_date: i64,
    ) -> (r: Self)
        requires
            self@.is_active(),
        ensures
            r@ == self@.closed_as(process_id@, close_reason, close_date),
            self.wf() ==> r.wf(),
    {
        let EnginePosition { data, state } = self;
        match state {
            EnginePositionState::Active(active_state) => {
                let asset_close_price = active_state.asset_last_price;
                let asset_close_bid_ask = active_state.asset_last_bid_ask.clone();
                let closed_state = ClosedPositionStates {
                    active_state,
                    asset_close_price,
                    asset_close_bid_ask,
                    close_reason,
                    close_date,
                    close_process_id: process_id.to_owned(),
                };
                EnginePosition { data, state: EnginePositionState::Closed(closed_state) }
            },
            other => EnginePosition { data, state: other },
        }
    }
}


impl PositionView {
    /// The id of the position and the keys under which a store files it.
    pub open spec fn index_keys(self) -> IndexKeys {
        IndexKeys {
            id: self.data.id,
            trader: Some(self.data.trader_id),
            account: Some(self.data.account_id),
            instrument: Some(self.data.asset_pair),
            base: Some(self.data.base),
            quote: Some(self.data.quote),
            collateral: Some(self.data.collateral_currency),
        }
    }
}

impl EnginePositionState {
    /// Stores a profit in an active state.
    pub fn update_profit(&mut self, profit: i128)
        requires
            old(self)@ is Active,
        ensures
            final(self)@ == PositionStateView::Active(
                ActiveStateView { profit, ..old(self)@->Active_0 },
            ),
    {
        match self {
            EnginePositionState::Active(active_state) => {
                active_state.profit = profit;
            },
            _ => {},
        }
    }
}

impl EnginePosition {
    pub fn get_asset_pair(&self) -> (r: &str)
        ensures
            r@ == self@.data.asset_pair,
    {
        self.data.asset_pair.as_str()
    }

    pub fn get_side(&self) -> (r: &PositionSide)
        ensures
            *r == self@.data.side,
    {
        &self.data.side
    }

    pub fn get_invest_amount(&self) -> (r: u64)
        ensures
            r == self@.data.invest_amount,
    {
        self.data.invest_amount
    }

    pub fn get_so_percent(&self) -> (r: u64)
        ensures
            r == self@.data.stop_out_percent,
    {
        self.data.stop_out_percent
    }

    pub fn get_account_id(&self) -> (r: &str)
        ensures
            r@ == self@.data.account_id,
    {
        self.data.account_id.as_str()
    }

    /// Why the position must be closed now, if it must.
    pub fn get_position_close_reason(&self) -> (r: Option<ExecutionClosePositionReason>)
        requires
            self@.is_active(),
            self.wf(),
        ensures
            r == self@.close_reason(),
    {
        self.get_close_reason()
    }

    pub fn get_profit(&self) -> (r: i128)
        requires
            self@.is_active(),
        ensures
            r == self@.active().profit,
    {
        self.get_active_state().profit
    }

    pub fn get_open_price(&self) -> (r: u64)
        requires
            self@.is_active(),
        ensures
            r == self@.active().asset_open_price,
    {
        self.get_active_state().asset_open_price
    }

    pub fn get_take_profit_in_order_profit(&self) -> (r: Option<i64>)
        ensures
            r == self@.data.take_profit_in_position_profit,
    {
        self.data.take_profit_in_position_profit
    }

    pub fn get_take_profit_in_asset_price(&self) -> (r: Option<u64>)
        ensures
            r == self@.data.take_profit_in_asset_price,
    {
        self.data.take_profit_in_asset_price
    }

    pub fn get_stop_loss_in_order_profit(&self) -> (r: Option<i64>)
        ensures
            r == self@.data.stop_loss_in_position_profit,
    {
        self.data.stop_loss_in_position_profit
    }

    pub fn get_stop_loss_in_asset_price(&self) -> (r: Option<u64>)
        ensures
            r == self@.data.stop_loss_in_asset_price,
    {
        self.data.stop_loss_in_asset_price
    }

    /// The last asset price of an active position.
    pub fn get_last_close_price(&self) -> (r: u64)
        requires
            self@.is_active(),
        ensures
            r == self@.active().asset_last_price,
    {
        self.get_active_state().asset_last_price
    }
}

impl PositionsStoreIndexAccessor for EnginePosition {
    open spec fn index_keys(&self) -> IndexKeys {
        self@.index_keys()
    }

    fn get_id(&self) -> (r: &str) {
        self.data.id.as_str()
    }

    fn get_trader_index(&self) -> (r: Option<String>) {
        Some(self.data.trader_id.clone())
    }

    fn get_account_index(&self) -> (r: Option<String>) {
        Some(self.data.account_id.clone())
    }

    fn get_instrument_index(&self) -> (r: Option<String>) {
        Some(self.data.asset_pair.clone())
    }

    fn get_base_coll_index(&self) -> (r: Option<String>) {
        Some(self.data.base.clone())
    }

    fn get_quote_coll_index(&self) -> (r: Option<String>) {
        Some(self.data.quote.clone())
    }

    fn get_collateral_index(&self) -> (r: Option<String>) {
        Some(self.data.collateral_currency.clone())
    }
}

} // verus!
