use vstd::prelude::*;
use crate::active_positions_cache::ActivePositionsCache;
use crate::active_positions_store::{holds_id, place_of, put};
use crate::laws::{ids_apart, law_put_ids, law_put_is_stored};
use crate::pending_positions_cache::PendingPositionsCache;
use crate::active_prices_cache::ActivePricesCache;
use crate::amounts::{profit_formula, Conversion, SCALE};
use crate::bid_ask::{
    get_close_price, get_open_price, view_bid_ask_option, BidAskView, EngineBidAsk,
};
use crate::commands::{OpenCommandView, PositionOpenCommand};
use crate::dto::EngineError;
use crate::events::{event_views, Applied, EngineEvent, EventView};
use crate::position::{
    ActivePositionState, ActiveStateView, EnginePosition, EnginePositionBase, EnginePositionState,
    EnginePositionSwap, EnginePositionSwaps, PendingPositionState, PositionBaseView,
    PositionStateView, PositionView, SwapsView,
};

verus! {

/// A fresh id.
///
/// Calls `uuid::Uuid::new_v4` and writes the result in its hyphenated
/// form. Nothing is claimed of the result: it is random.
#[verifier::external_body]
pub(crate) fn generate_id() -> (r: String) {
    uuid::Uuid::new_v4().to_string()
}

/// How an amount in `currency` reaches the collateral.
pub enum Leg {
    /// The currency is the collateral.
    Same,
    /// This quote converts.
    Quoted(BidAskView),
    /// The quote cache has no quote for the two currencies.
    Missing,
}

impl Leg {
    pub open spec fn bid_ask(self) -> Option<BidAskView> {
        match self {
            Leg::Quoted(b) => Some(b),
            _ => None,
        }
    }
}

/// The leg from `currency` to `collateral`: none where they are the same
/// currency, else the quote for the two in either order.
pub open spec fn collateral_leg(
    prices: &ActivePricesCache,
    currency: Seq<char>,
    collateral: Seq<char>,
) -> Leg {
    if currency == collateral {
        Leg::Same
    } else {
        match prices.by_currencies(currency, collateral) {
            Some(b) => Leg::Quoted(b),
            None => Leg::Missing,
        }
    }
}

/// The base data of a position made from a command at `now`.
pub open spec fn base_data_of(command: OpenCommandView, id: Seq<char>, now: i64) -> PositionBaseView {
    PositionBaseView {
        id,
        trader_id: command.trader_id,
        account_id: command.account_id,
        asset_pair: command.asset_pair,
        side: command.side,
        invest_amount: command.invest_amount,
        leverage: command.leverage,
        stop_out_percent: command.stop_out_percent,
        create_process_id: command.process_id,
        create_date: now,
        last_update_process_id: command.process_id,
        last_update_date: now,
        take_profit_in_position_profit: command.tp_profit,
        take_profit_in_asset_price: command.tp_price,
        stop_loss_in_position_profit: command.sl_profit,
        stop_loss_in_asset_price: command.sl_price,
        margin_call_percent: command.margin_call_percent,
        topping_up_percent: command.topping_up_percent,
        collateral_currency: command.collateral,
        base: command.base,
        quote: command.quote,
    }
}

/// The state of a position that opens on the quote `asset`: it opens at the
/// open price of its side; a collateral leg that is quoted opens at the open
/// price (base leg) or stands at the close price (quote leg) of that quote;
/// the last asset price is the open price, so that the profit is zero; no
/// swap is charged and nothing is reserved.
pub open spec fn opened_state(
    side: crate::dto::PositionSide,
    asset: BidAskView,
    base_leg: Option<BidAskView>,
    quote_leg: Option<BidAskView>,
    process_id: Seq<char>,
    now: i64,
    pending_state: Option<PendingPositionState>,
) -> ActiveStateView {
    ActiveStateView {
        asset_open_price: asset.open_price(side),
        asset_open_bid_ask: asset,
        collateral_base_open_price: match base_leg {
            Some(b) => b.open_price(side),
            None => SCALE,
        },
        collateral_base_open_bid_ask: base_leg,
        open_process_id: process_id,
        open_date: now,
        asset_last_price: asset.open_price(side),
        asset_last_bid_ask: asset,
        collateral_quote_last_price: match quote_leg {
            Some(b) => b.close_price(side),
            None => SCALE,
        },
        collateral_quote_last_bid_ask: quote_leg,
        profit: 0,
        swaps: SwapsView { swaps: Seq::empty(), total: 0 },
        topping_up_reserve: 0,
        margin_call_hit: false,
        pending_state,
    }
}

/// The active position that a command gives on the quotes in `prices`, or
/// why there is none: `InvalidRequest` for a command that is not valid;
/// `NoLiquidity` where the asset pair has no quote, or a collateral leg that
/// needs one has none.
pub open spec fn make_active(
    command: OpenCommandView,
    id: Seq<char>,
    prices: &ActivePricesCache,
    now: i64,
    pending_state: Option<PendingPositionState>,
) -> Result<PositionView, EngineError> {
    let base_leg = collateral_leg(prices, command.base, command.collateral);
    let quote_leg = collateral_leg(prices, command.quote, command.collateral);
    if !command.valid() {
        Err(EngineError::InvalidRequest)
    } else if prices.by_pair(command.asset_pair) is None || base_leg is Missing
        || quote_leg is Missing {
        Err(EngineError::NoLiquidity)
    } else {
        Ok(
            PositionView {
                data: base_data_of(command, id, now),
                state: PositionStateView::Active(
                    opened_state(
                        command.side,
                        prices.by_pair(command.asset_pair)->0,
                        base_leg.bid_ask(),
                        quote_leg.bid_ask(),
                        command.process_id,
                        now,
                        pending_state,
                    ),
                ),
            },
        )
    }
}

/// A position whose last price is its open price, with no swaps, has no
/// profit.
pub proof fn lemma_no_move_no_profit(
    buy: bool,
    invest: nat,
    leverage: nat,
    price: nat,
    base_rate: Conversion,
    quote_rate: Conversion,
)
    ensures
        profit_formula(buy, invest, leverage, price, base_rate, price, quote_rate, 0) == 0,
{
    let collateral_invest = base_rate.apply(crate::amounts::scaled_mul(invest, leverage));
    assert(collateral_invest * 0 == 0) by (nonlinear_arith);
    assert(crate::amounts::scaled_mul(collateral_invest, 0) == 0);
    assert(quote_rate.apply(0) == 0) by {
        match quote_rate {
            Conversion::Identity => {},
            Conversion::Multiply(rate) => {
                assert(0 * (rate as nat) == 0) by (nonlinear_arith);
            },
            Conversion::Divide(rate) => {
                assert(0 * (SCALE as nat) == 0) by (nonlinear_arith);
                if rate != 0 {
                    assert(0nat / (rate as nat) == 0) by (nonlinear_arith)
                        requires
                            rate > 0,
                    ;
                }
            },
        }
    }
}

/// The quote that converts `currency` into `collateral`, where one is
/// needed.
fn resolve_leg(prices: &ActivePricesCache, currency: &str, collateral: &str) -> (r: Result<
    Option<EngineBidAsk>,
    EngineError,
>)
    requires
        prices.wf(),
    ensures
        match r {
            Ok(b) => collateral_leg(prices, currency@, collateral@) !is Missing
                && view_bid_ask_option(b) == collateral_leg(
                prices,
                currency@,
                collateral@,
            ).bid_ask() && (b is Some ==> b->0.wf()),
            Err(e) => e == EngineError::NoLiquidity && collateral_leg(
                prices,
                currency@,
                collateral@,
            ) is Missing,
        },
{
    if currency.eq(collateral) {
        return Ok(None);
    }
    match prices.get_by_currencies(currency, collateral) {
        Some(b) => Ok(Some(b)),
        None => Err(EngineError::NoLiquidity),
    }
}

/// Makes the base data of a position from a command.
pub fn make_base_data(command: &PositionOpenCommand, id: String, now: i64) -> (r:
    EnginePositionBase)
    ensures
        r@ == base_data_of(command@, id@, now),
{
    EnginePositionBase {
        id,
        trader_id: command.trader_id.clone(),
        account_id: command.account_id.clone(),
        asset_pair: command.asset_pair.clone(),
        side: command.side,
        invest_amount: command.invest_amount,
        leverage: command.leverage,
        stop_out_percent: command.stop_out_percent,
        create_process_id: command.process_id.clone(),
        create_date: now,
        last_update_process_id: command.process_id.clone(),
        last_update_date: now,
        take_profit_in_position_profit: command.tp_profit,
        take_profit_in_asset_price: command.tp_price,
        stop_loss_in_position_profit: command.sl_profit,
        stop_loss_in_asset_price: command.sl_price,
        margin_call_percent: command.margin_call_percent,
        topping_up_percent: command.topping_up_percent,
        collateral_currency: command.collateral.clone(),
        base: command.base.clone(),
        quote: command.quote.clone(),
    }
}

/// Makes the active position that a command gives on the quotes in
/// `prices`.
pub fn make_active_position(
    command: &PositionOpenCommand,
    id: String,
    prices: &ActivePricesCache,
    now: i64,
    pending_state: Option<PendingPositionState>,
) -> (r: Result<EnginePosition, EngineError>)
    requires
        prices.wf(),
    ensures
        match r {
            Ok(p) => make_active(command@, id@, prices, now, pending_state) == Ok::<
                PositionView,
                EngineError,
            >(p@) && p.wf() && p@.is_active() && p@.active().profit == 0,
            Err(e) => make_active(command@, id@, prices, now, pending_state) == Err::<
                PositionView,
                EngineError,
            >(e),
        },
{
    if !command.is_valid() {
        return Err(EngineError::InvalidRequest);
    }
    let asset = match prices.get_by_id(command.asset_pair.as_str()) {
        Some(b) => b,
        None => {
            return Err(EngineError::NoLiquidity);
        },
    };
    let base_leg = match resolve_leg(prices, command.base.as_str(), command.collateral.as_str()) {
        Ok(b) => b,
        Err(e) => {
            return Err(e);
        },
    };
    let quote_leg = match resolve_leg(prices, command.quote.as_str(), command.collateral.as_str()) {
        Ok(b) => b,
        Err(e) => {
            return Err(e);
        },
    };
    let side = command.side;
    let asset_open_price = get_open_price(&asset, &side);
    let collateral_base_open_price = match &base_leg {
        Some(b) => get_open_price(b, &side),
        None => SCALE,
    };
    let collateral_quote_last_price = match &quote_leg {
        Some(b) => get_close_price(b, &side),
        None => SCALE,
    };
    let data = make_base_data(command, id, now);
    let state = ActivePositionState {
        asset_open_price,
        asset_open_bid_ask: asset.clone(),
        collateral_base_open_price,
        collateral_base_open_bid_ask: base_leg,
        open_process_id: command.process_id.clone(),
        open_date: now,
        asset_last_price: asset_open_price,
        asset_last_bid_ask: asset,
        collateral_quote_last_price,
        collateral_quote_last_bid_ask: quote_leg,
        profit: 0,
        swaps: EnginePositionSwaps { swaps: Vec::new(), total: 0 },
        topping_up_reserve: 0,
        margin_call_hit: false,
        pending_state,
    };
    let position = EnginePosition { data, state: EnginePositionState::Active(state) };
    proof {
        let a = position@.active();
        assert(a.swaps.swaps =~= Seq::<EnginePositionSwap>::empty());
        lemma_no_move_no_profit(
            position@.data.side.is_buy(),
            position@.data.invest_amount as nat,
            position@.data.leverage as nat,
            a.asset_open_price as nat,
            a.base_conversion(position@.data),
            a.quote_conversion(position@.data),
        );
    }
    Ok(position)
}

/// What opening a position under the id `id` comes to. Where a pending
/// order holds the id, waiting for its price or for its confirmation, the
/// command is refused with `InvalidRequest`. Where the active positions hold
/// the id already, it is the position that they hold: the command has been
/// carried out before. Else it is what `make_active` gives.
pub open spec fn open_outcome(
    command: OpenCommandView,
    id: Seq<char>,
    prices: &ActivePricesCache,
    active: Seq<PositionView>,
    pending: Seq<PositionView>,
    awaiting: Seq<PositionView>,
    now: i64,
) -> Result<PositionView, EngineError> {
    if holds_id(pending, id) || holds_id(awaiting, id) {
        Err(EngineError::InvalidRequest)
    } else if holds_id(active, id) {
        Ok(active[place_of(active, id)])
    } else {
        make_active(command, id, prices, now, None)
    }
}

/// The active positions after a position was opened under the id `id`: the
/// new position is put in where one was made; else nothing changes.
pub open spec fn open_positions(
    command: OpenCommandView,
    id: Seq<char>,
    prices: &ActivePricesCache,
    active: Seq<PositionView>,
    pending: Seq<PositionView>,
    awaiting: Seq<PositionView>,
    now: i64,
) -> Seq<PositionView> {
    match open_outcome(command, id, prices, active, pending, awaiting, now) {
        Ok(position) => if holds_id(active, id) {
            active
        } else {
            put(active, position)
        },
        Err(_) => active,
    }
}

/// The events of opening a position under the id `id`: the one that tells
/// of the creation where a position was made; else none.
pub open spec fn open_events(
    command: OpenCommandView,
    id: Seq<char>,
    prices: &ActivePricesCache,
    active: Seq<PositionView>,
    pending: Seq<PositionView>,
    awaiting: Seq<PositionView>,
    now: i64,
) -> Seq<EventView> {
    match open_outcome(command, id, prices, active, pending, awaiting, now) {
        Ok(position) => if holds_id(active, id) {
            Seq::empty()
        } else {
            seq![EventView::CreatePosition { process_id: command.process_id, position }]
        },
        Err(_) => Seq::empty(),
    }
}

/// Opens a position under the id `id`. An id is held by one store at most:
/// where a pending order holds it, the command is refused with
/// `InvalidRequest`; where the active positions hold it already, the
/// position that they hold is handed out, nothing changes and no event is
/// told. Else the
/// position is made on the quotes in `prices`, put among the active
/// positions, and the event that tells of its creation is handed out. Where
/// no position can be made, the cache stays as it is.
pub fn open_position_with_id(
    prices: &ActivePricesCache,
    active: &mut ActivePositionsCache,
    pending: &PendingPositionsCache,
    awaiting: &PendingPositionsCache,
    command: &PositionOpenCommand,
    id: String,
    now: i64,
) -> (r: Result<Applied, EngineError>)
    requires
        prices.wf(),
        old(active).wf(),
        pending.wf(),
        awaiting.wf(),
    ensures
        final(active).wf(),
        final(active)@ == open_positions(
            command@,
            id@,
            prices,
            old(active)@,
            pending@,
            awaiting@,
            now,
        ),
        match r {
            Ok(applied) => open_outcome(
                command@,
                id@,
                prices,
                old(active)@,
                pending@,
                awaiting@,
                now,
            ) == Ok::<PositionView, EngineError>(applied.position@) && event_views(
                applied.events@,
            ) == open_events(command@, id@, prices, old(active)@, pending@, awaiting@, now)
                && applied.position@.data.id == id@ && holds_id(final(active)@, id@)
                && final(active)@[place_of(final(active)@, id@)] == applied.position@
                && !holds_id(pending@, id@)
                && !holds_id(awaiting@, id@),
            Err(e) => open_outcome(
                command@,
                id@,
                prices,
                old(active)@,
                pending@,
                awaiting@,
                now,
            ) == Err::<PositionView, EngineError>(e),
        },
        ids_apart(old(active)@, pending@) ==> ids_apart(final(active)@, pending@),
        ids_apart(old(active)@, awaiting@) ==> ids_apart(final(active)@, awaiting@),
{
    proof {
        active.positions.lemma_ids_unique();
    }
    if pending.positions.find_position(id.as_str()).is_some() || awaiting.positions.find_position(
        id.as_str(),
    ).is_some() {
        return Err(EngineError::InvalidRequest);
    }
    if let Some(existing) = active.get_position_by_id(id.as_str()) {
        let events: Vec<EngineEvent> = Vec::new();
        proof {
            assert(event_views(events@) =~= Seq::<EventView>::empty());
        }
        return Ok(Applied { position: existing, events });
    }
    let position = match make_active_position(command, id, prices, now, None) {
        Ok(p) => p,
        Err(e) => {
            return Err(e);
        },
    };
    proof {
        law_put_is_stored(active@, position@);
        assert forall|other: Seq<char>|
            holds_id(put(active@, position@), other) implies holds_id(active@, other) || other
            == position@.data.id by {
            law_put_ids(active@, position@, other);
        }
    }
    active.add_position(position.clone());
    let event = EngineEvent::CreatePosition {
        process_id: command.process_id.clone(),
        position: position.clone(),
    };
    Ok(Applied::one(position, event))
}

/// Opens a position under the id that the command names, or under a fresh
/// id where it names none. It does what `open_position_with_id` does with
/// that id.
pub fn open_position(
    prices: &ActivePricesCache,
    active: &mut ActivePositionsCache,
    pending: &PendingPositionsCache,
    awaiting: &PendingPositionsCache,
    command: &PositionOpenCommand,
    now: i64,
) -> (r: Result<Applied, EngineError>)
    requires
        prices.wf(),
        old(active).wf(),
        pending.wf(),
        awaiting.wf(),
    ensures
        final(active).wf(),
        match r {
            Ok(applied) => open_outcome(
                command@,
                applied.position@.data.id,
                prices,
                old(active)@,
                pending@,
                awaiting@,
                now,
            ) == Ok::<PositionView, EngineError>(applied.position@) && final(active)@
                == open_positions(
                command@,
                applied.position@.data.id,
                prices,
                old(active)@,
                pending@,
                awaiting@,
                now,
            ) && event_views(applied.events@) == open_events(
                command@,
                applied.position@.data.id,
                prices,
                old(active)@,
                pending@,
                awaiting@,
                now,
            ) && holds_id(final(active)@, applied.position@.data.id)
                && final(active)@[place_of(final(active)@, applied.position@.data.id)]
                == applied.position@
                && !holds_id(pending@, applied.position@.data.id) && !holds_id(
                awaiting@,
                applied.position@.data.id,
            ) && (command.id is Some ==> applied.position@.data.id == command.id->0@),
            Err(e) => final(active)@ == old(active)@ && exists|id: Seq<char>|
                (command.id is Some ==> id == command.id->0@) && #[trigger] open_outcome(
                    command@,
                    id,
                    prices,
                    old(active)@,
                    pending@,
                    awaiting@,
                    now,
                ) == Err::<PositionView, EngineError>(e),
        },
        ids_apart(old(active)@, pending@) ==> ids_apart(final(active)@, pending@),
        ids_apart(old(active)@, awaiting@) ==> ids_apart(final(active)@, awaiting@),
{
    let id = match &command.id {
        Some(src) => src.clone(),
        None => generate_id(),
    };
    let ghost chosen = id@;
    let r = open_position_with_id(prices, active, pending, awaiting, command, id, now);
    proof {
        if r is Err {
            assert(open_outcome(command@, chosen, prices, old(active)@, pending@, awaiting@, now)
                == Err::<PositionView, EngineError>(r->Err_0));
        }
    }
    r
}

} // verus!
