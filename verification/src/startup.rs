use vstd::prelude::*;
use crate::active_prices_cache::ActivePricesCache;
use crate::amounts::{MAX_PRICE, SCALE};
use crate::bid_ask::{get_close_price, view_bid_ask_option, BidAskView, EngineBidAsk};
use crate::dto::EngineError;
use crate::open_position::{collateral_leg, Leg};
use crate::pending::{get_pending_position_type, pending_type_of};
use crate::position::{
    sum_amounts, ActiveStateView, EnginePosition, EnginePositionState, EnginePositionSwap,
    PendingPositionState, PositionStateView, PositionView, SwapsView,
};

verus! {

/// The quote cache after each of `quotes` was stored, in turn: the latest
/// quote of each asset pair.
pub open spec fn stored_prices(quotes: Seq<BidAskView>) -> Map<Seq<char>, BidAskView>
    decreases quotes.len(),
{
    if quotes.len() == 0 {
        Map::empty()
    } else {
        stored_prices(quotes.drop_last()).insert(quotes.last().asset_pair, quotes.last())
    }
}

/// The asset pair last quoted for each base and quote currency, after each
/// of `quotes` was stored, in turn.
pub open spec fn stored_directed(quotes: Seq<BidAskView>) -> Map<(Seq<char>, Seq<char>), Seq<char>>
    decreases quotes.len(),
{
    if quotes.len() == 0 {
        Map::empty()
    } else {
        stored_directed(quotes.drop_last()).insert(
            (quotes.last().base, quotes.last().quote),
            quotes.last().asset_pair,
        )
    }
}

/// The values of a list of quotes.
pub open spec fn quote_views(quotes: Seq<EngineBidAsk>) -> Seq<BidAskView> {
    quotes.map_values(|b: EngineBidAsk| b@)
}

/// Makes the quote cache from a snapshot of quotes.
pub fn load_prices_cache(quotes: Vec<EngineBidAsk>) -> (r: ActivePricesCache)
    requires
        forall|i: int| 0 <= i < quotes@.len() ==> (#[trigger] quotes@[i]).wf(),
    ensures
        r.wf(),
        r.prices() == stored_prices(quote_views(quotes@)),
        r.directed() == stored_directed(quote_views(quotes@)),
{
    let ghost all = quote_views(quotes@);
    let mut cache = ActivePricesCache::new();
    let mut i: usize = 0;
    proof {
        assert(all.take(0) =~= Seq::<BidAskView>::empty());
    }
    while i < quotes.len()
        invariant
            i <= quotes@.len(),
            all == quote_views(quotes@),
            forall|j: int| 0 <= j < quotes@.len() ==> (#[trigger] quotes@[j]).wf(),
            cache.wf(),
            cache.prices() == stored_prices(all.take(i as int)),
            cache.directed() == stored_directed(all.take(i as int)),
        decreases quotes@.len() - i,
    {
        proof {
            assert(all.take(i + 1).drop_last() =~= all.take(i as int));
            assert(all.take(i + 1).last() == all[i as int]);
        }
        cache.update(quotes[i].clone());
        i = i + 1;
    }
    proof {
        assert(all.take(i as int) =~= all);
    }
    cache
}

/// The quotes that an active position stands on: that of its asset pair,
/// and that of the leg from its quote currency to its collateral. Fails with
/// `NoLiquidity` where the quote cache has no quote for the base and the
/// quote currency.
pub fn get_active_prices(cache: &ActivePricesCache, base: &str, quote: &str, collateral: &str) -> (r:
    Result<(EngineBidAsk, Option<EngineBidAsk>), EngineError>)
    requires
        cache.wf(),
    ensures
        match r {
            Ok((asset, quote_collateral)) => cache.by_base_quote(base@, quote@) == Some(asset@)
                && view_bid_ask_option(quote_collateral) == cache.by_currencies(
                quote@,
                collateral@,
            ) && asset.wf() && (quote_collateral is Some ==> quote_collateral->0.wf()),
            Err(e) => e == EngineError::NoLiquidity && cache.by_base_quote(base@, quote@) is None,
        },
{
    let asset_bid_ask = match cache.get_by_base_quote(base, quote) {
        Some(b) => b,
        None => {
            return Err(EngineError::NoLiquidity);
        },
    };
    let quote_collateral = cache.get_by_currencies(quote, collateral);
    Ok((asset_bid_ask, quote_collateral))
}

impl PositionView {
    /// Whether a stored active position can be taken back: its base data
    /// and its open data are well formed, and the sum of its swaps is within
    /// the range of the total.
    pub open spec fn restorable(self) -> bool {
        let a = self.active();
        &&& self.data.wf()
        &&& a.asset_open_price <= MAX_PRICE
        &&& a.collateral_base_open_price <= MAX_PRICE
        &&& self.data.base == self.data.collateral_currency ==> a.collateral_base_open_bid_ask
            is None && a.collateral_base_open_price == SCALE
        &&& i64::MIN <= sum_amounts(a.swaps.swaps) <= i64::MAX
    }
}

/// The active position that a stored one becomes on the quotes in
/// `prices`: it keeps its base data, its open data, its swaps, its reserve
/// and its margin-call flag; the total of the swaps is their sum; its last
/// quotes and prices are those of the cache; its profit is the one the
/// pricing formula gives. There is none, with `InvalidRequest`, where the
/// stored position cannot be taken back, and with `NoLiquidity` where a
/// quote that it needs is missing.
pub open spec fn restored_active(stored: PositionView, prices: &ActivePricesCache) -> Result<
    PositionView,
    EngineError,
> {
    let a = stored.active();
    let asset = prices.by_base_quote(stored.data.base, stored.data.quote);
    let quote_leg = collateral_leg(prices, stored.data.quote, stored.data.collateral_currency);
    if !stored.restorable() {
        Err(EngineError::InvalidRequest)
    } else if asset is None || quote_leg is Missing {
        Err(EngineError::NoLiquidity)
    } else {
        Ok(
            stored.with_active(
                ActiveStateView {
                    asset_last_price: asset->0.close_price(stored.data.side),
                    asset_last_bid_ask: asset->0,
                    collateral_quote_last_price: match quote_leg {
                        Leg::Quoted(b) => b.close_price(stored.data.side),
                        _ => SCALE,
                    },
                    collateral_quote_last_bid_ask: quote_leg.bid_ask(),
                    swaps: SwapsView {
                        swaps: a.swaps.swaps,
                        total: sum_amounts(a.swaps.swaps) as i64,
                    },
                    ..a
                },
            ).repriced(),
        )
    }
}

pub proof fn lemma_sum_bounds(swaps: Seq<EnginePositionSwap>)
    ensures
        -0x8000_0000_0000_0000 * swaps.len() <= sum_amounts(swaps) <= 0x8000_0000_0000_0000
            * swaps.len(),
    decreases swaps.len(),
{
    if swaps.len() > 0 {
        lemma_sum_bounds(swaps.drop_last());
        assert(0x8000_0000_0000_0000 * swaps.len() == 0x8000_0000_0000_0000 * (swaps.len() - 1)
            + 0x8000_0000_0000_0000) by (nonlinear_arith);
    }
}

/// The sum of the amounts of a list of swaps.
fn total_of(swaps: &Vec<EnginePositionSwap>) -> (r: i128)
    ensures
        r == sum_amounts(swaps@),
{
    let mut total: i128 = 0;
    let mut i: usize = 0;
    proof {
        assert(swaps@.take(0) =~= Seq::<EnginePositionSwap>::empty());
    }
    while i < swaps.len()
        invariant
            i <= swaps@.len(),
            total == sum_amounts(swaps@.take(i as int)),
        decreases swaps@.len() - i,
    {
        proof {
            lemma_sum_bounds(swaps@.take(i as int));
            assert(swaps@.take(i + 1).drop_last() =~= swaps@.take(i as int));
            assert(0x8000_0000_0000_0000 * (i as int) <= 0x8000_0000_0000_0000
                * 0xffff_ffff_ffff_ffff) by (nonlinear_arith)
                requires
                    0 <= i <= 0xffff_ffff_ffff_ffff,
            ;
        }
        total = total + (swaps[i].amount as i128);
        i = i + 1;
    }
    proof {
        assert(swaps@.take(i as int) =~= swaps@);
    }
    total
}

/// Takes back a stored active position on the quotes in `prices`.
pub fn restore_active_position(stored: EnginePosition, prices: &ActivePricesCache) -> (r: Result<
    EnginePosition,
    EngineError,
>)
    requires
        prices.wf(),
        stored@.is_active(),
    ensures
        match r {
            Ok(p) => restored_active(stored@, prices) == Ok::<PositionView, EngineError>(p@)
                && p.wf() && p@.is_active(),
            Err(e) => restored_active(stored@, prices) == Err::<PositionView, EngineError>(e),
        },
{
    let mut position = stored;
    let side = position.data.side;
    let data_ok = 0 < position.data.invest_amount && SCALE <= position.data.leverage
        && crate::amounts::is_volume_within(position.data.invest_amount, position.data.leverage)
        && 0 < position.data.stop_out_percent
        && position.data.stop_out_percent <= crate::amounts::HUNDRED_PERCENT && !(position.data.base
        == position.data.quote);
    let same_base = position.data.base == position.data.collateral_currency;
    let active_state = position.get_active_state();
    let open_ok = active_state.asset_open_price <= MAX_PRICE
        && active_state.collateral_base_open_price <= MAX_PRICE && (!same_base || (
    active_state.collateral_base_open_bid_ask.is_none() && active_state.collateral_base_open_price
        == SCALE));
    let total = total_of(&active_state.swaps.swaps);
    if !data_ok || !open_ok || total < -0x8000_0000_0000_0000 || total > 0x7fff_ffff_ffff_ffff {
        return Err(EngineError::InvalidRequest);
    }
    let asset = match prices.get_by_base_quote(
        position.data.base.as_str(),
        position.data.quote.as_str(),
    ) {
        Some(b) => b,
        None => {
            return Err(EngineError::NoLiquidity);
        },
    };
    let quote_leg = if position.data.quote == position.data.collateral_currency {
        None
    } else {
        match prices.get_by_currencies(
            position.data.quote.as_str(),
            position.data.collateral_currency.as_str(),
        ) {
            Some(b) => Some(b),
            None => {
                return Err(EngineError::NoLiquidity);
            },
        }
    };
    let asset_last_price = get_close_price(&asset, &side);
    let collateral_quote_last_price = match &quote_leg {
        Some(b) => get_close_price(b, &side),
        None => SCALE,
    };
    match &mut position.state {
        EnginePositionState::Active(active_state) => {
            active_state.asset_last_price = asset_last_price;
            active_state.asset_last_bid_ask = asset;
            active_state.collateral_quote_last_price = collateral_quote_last_price;
            active_state.collateral_quote_last_bid_ask = quote_leg;
            active_state.swaps.total = total as i64;
        },
        _ => {},
    }
    position.update_pl();
    Ok(position)
}

/// The pending order that a stored one becomes on the quotes in `prices`:
/// its kind is taken anew from where its desired price lies against the
/// current close price. There is none, with `InvalidRequest`, where the
/// stored order is not well formed, and with `NoLiquidity` where its asset
/// pair has no quote.
pub open spec fn restored_pending(stored: PositionView, prices: &ActivePricesCache) -> Result<
    PositionView,
    EngineError,
> {
    if !(stored.data.wf() && stored.pending().desire_price <= MAX_PRICE) {
        Err(EngineError::InvalidRequest)
    } else {
        match prices.by_pair(stored.data.asset_pair) {
            None => Err(EngineError::NoLiquidity),
            Some(asset) => Ok(
                PositionView {
                    state: PositionStateView::Pending(
                        PendingPositionState {
                            desire_price: stored.pending().desire_price,
                            pending_order_type: pending_type_of(
                                asset.close_price(stored.data.side),
                                stored.pending().desire_price,
                                stored.data.side,
                            ),
                        },
                    ),
                    ..stored
                },
            ),
        }
    }
}

/// Takes back a stored pending order on the quotes in `prices`.
pub fn restore_pending_position(stored: EnginePosition, prices: &ActivePricesCache) -> (r: Result<
    EnginePosition,
    EngineError,
>)
    requires
        prices.wf(),
        stored@.is_pending(),
    ensures
        match r {
            Ok(p) => restored_pending(stored@, prices) == Ok::<PositionView, EngineError>(p@)
                && p.wf() && p@.is_pending(),
            Err(e) => restored_pending(stored@, prices) == Err::<PositionView, EngineError>(e),
        },
{
    let mut position = stored;
    let side = position.data.side;
    let data_ok = 0 < position.data.invest_amount && SCALE <= position.data.leverage
        && crate::amounts::is_volume_within(position.data.invest_amount, position.data.leverage)
        && 0 < position.data.stop_out_percent
        && position.data.stop_out_percent <= crate::amounts::HUNDRED_PERCENT && !(position.data.base
        == position.data.quote);
    let desire_price = match &position.state {
        EnginePositionState::Pending(p) => p.desire_price,
        _ => 0,
    };
    if !data_ok || desire_price > MAX_PRICE {
        return Err(EngineError::InvalidRequest);
    }
    let current_price = match prices.get_by_id(position.data.asset_pair.as_str()) {
        Some(b) => b,
        None => {
            return Err(EngineError::NoLiquidity);
        },
    };
    let close_price = get_close_price(&current_price, &side);
    position.state = EnginePositionState::Pending(
        PendingPositionState {
            desire_price,
            pending_order_type: get_pending_position_type(close_price, desire_price, &side),
        },
    );
    Ok(position)
}

} // verus!
