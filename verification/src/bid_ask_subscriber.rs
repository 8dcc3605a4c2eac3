use vstd::prelude::*;
use crate::active_positions_cache::{tick_cases, ticked, ActivePositionsCache};
use crate::active_positions_store::{holds_id, loaded, place_of, taken};
use crate::active_prices_cache::ActivePricesCache;
use crate::bid_ask::{BidAskView, EngineBidAsk};
use crate::close_position::close_position_background;
use crate::events::{
    case_views, event_views, CaseView, EngineEvent, EventView,
    PositionManagerPositionMarginCallHit, UpdatePositionCase,
};
use crate::execute_pending_positions::{approval_requests, handle_pending_rdy_to_execute};
use crate::handle_position_margin_call::handle_position_margin_call;
use crate::pending_positions_cache::{activated, waiting, PendingPositionsCache};
use crate::position::PositionView;
use crate::positions_store_index::{find_id, id_seq, id_set};
use crate::process_topping_up_refund::{
    process_topping_up_refund, refund_events, refund_positions,
};
use crate::query::{EngineCacheQueryBuilder, QueryView};

verus! {

/// The positions in the quoted asset pair: their base and quote currency
/// are those of the quote.
pub open spec fn asset_query(bid_ask: BidAskView) -> QueryView {
    QueryView { base: Some(bid_ask.base), quote: Some(bid_ask.quote), ..QueryView::all() }
}

/// The positions whose base currency is converted by the quote: their base
/// currency is its base, their collateral its quote currency.
pub open spec fn base_collateral_query(bid_ask: BidAskView) -> QueryView {
    QueryView { base: Some(bid_ask.base), collateral: Some(bid_ask.quote), ..QueryView::all() }
}

/// The positions whose quote currency is converted by the quote: their
/// quote currency is its base, their collateral its quote currency.
pub open spec fn quote_collateral_query(bid_ask: BidAskView) -> QueryView {
    QueryView { quote: Some(bid_ask.base), collateral: Some(bid_ask.quote), ..QueryView::all() }
}

/// The positions after the three passes of one quote.
pub open spec fn updated(positions: Seq<PositionView>, bid_ask: BidAskView) -> Seq<PositionView> {
    let first = ticked(positions, asset_query(bid_ask), bid_ask);
    let second = ticked(first, base_collateral_query(bid_ask), bid_ask);
    ticked(second, quote_collateral_query(bid_ask), bid_ask)
}

/// What the three passes of one quote make of the positions, pass after
/// pass.
pub open spec fn update_cases(positions: Seq<PositionView>, bid_ask: BidAskView) -> Seq<CaseView> {
    let first = ticked(positions, asset_query(bid_ask), bid_ask);
    let second = ticked(first, base_collateral_query(bid_ask), bid_ask);
    tick_cases(positions, asset_query(bid_ask), bid_ask) + tick_cases(
        first,
        base_collateral_query(bid_ask),
        bid_ask,
    ) + tick_cases(second, quote_collateral_query(bid_ask), bid_ask)
}

/// Where the dispatch of the cases of one quote stands.
pub struct Dispatched {
    /// The active positions.
    pub positions: Seq<PositionView>,
    /// The events handed out so far.
    pub events: Seq<EventView>,
    /// The positions whose margin call was notified.
    pub margin_calls: Set<Seq<char>>,
    /// The positions whose refund was processed.
    pub refunds: Set<Seq<char>>,
}

/// The dispatch of one case. A position to close leaves the store and the
/// event that tells of its close is handed out; where it has left already,
/// nothing happens. A margin call is notified once for each position. A
/// refund is processed once for each position.
pub open spec fn dispatch_case(
    state: Dispatched,
    case: CaseView,
    process_id: Seq<char>,
    now: i64,
) -> Dispatched {
    match case {
        CaseView::Close { id, close_reason, .. } => if holds_id(state.positions, id) {
            Dispatched {
                positions: taken(state.positions, id),
                events: state.events.push(
                    EventView::ClosePosition {
                        process_id,
                        position: state.positions[place_of(state.positions, id)].closed_as(
                            process_id,
                            close_reason,
                            now,
                        ),
                    },
                ),
                ..state
            }
        } else {
            state
        },
        CaseView::MarginCallHit(hit) => if state.margin_calls.contains(hit.position_id) {
            state
        } else {
            Dispatched {
                events: state.events.push(EventView::MarginCallHit(hit)),
                margin_calls: state.margin_calls.insert(hit.position_id),
                ..state
            }
        },
        CaseView::ReturnToppingUp { id, topping_up_amount, .. } => if state.refunds.contains(id) {
            state
        } else {
            Dispatched {
                positions: refund_positions(
                    state.positions,
                    id,
                    topping_up_amount,
                    process_id,
                    now,
                ),
                events: state.events + refund_events(
                    state.positions,
                    id,
                    topping_up_amount,
                    process_id,
                    now,
                ),
                refunds: state.refunds.insert(id),
                ..state
            }
        },
    }
}

/// The dispatch of a list of cases, one after the other.
pub open spec fn dispatch_cases(
    state: Dispatched,
    cases: Seq<CaseView>,
    process_id: Seq<char>,
    now: i64,
) -> Dispatched
    decreases cases.len(),
{
    if cases.len() == 0 {
        state
    } else {
        dispatch_case(
            dispatch_cases(state, cases.drop_last(), process_id, now),
            cases.last(),
            process_id,
            now,
        )
    }
}

/// What one quote does to the active positions: the three passes update
/// them, and the cases that the passes have found are dispatched.
pub open spec fn tick_dispatch(
    positions: Seq<PositionView>,
    bid_ask: BidAskView,
    process_id: Seq<char>,
    now: i64,
) -> Dispatched {
    dispatch_cases(
        Dispatched {
            positions: updated(positions, bid_ask),
            events: Seq::empty(),
            margin_calls: Set::empty(),
            refunds: Set::empty(),
        },
        update_cases(positions, bid_ask),
        process_id,
        now,
    )
}

/// Stores a quote in the quote cache.
pub fn handle_prices_update_bid_ask(prices: &mut ActivePricesCache, bid_ask: EngineBidAsk)
    requires
        old(prices).wf(),
        bid_ask.wf(),
    ensures
        final(prices).wf(),
        final(prices).prices() == old(prices).prices().insert(bid_ask@.asset_pair, bid_ask@),
        final(prices).directed() == old(prices).directed().insert(
            (bid_ask@.base, bid_ask@.quote),
            bid_ask@.asset_pair,
        ),
{
    prices.update(bid_ask);
}

fn clone_margin_call(hit: &PositionManagerPositionMarginCallHit) -> (r:
    PositionManagerPositionMarginCallHit)
    ensures
        r@ == hit@,
{
    PositionManagerPositionMarginCallHit {
        position_id: hit.position_id.clone(),
        trader_id: hit.trader_id.clone(),
        account_id: hit.account_id.clone(),
        margin_call_percent: hit.margin_call_percent,
        topping_up_amount: hit.topping_up_amount,
    }
}

fn remember(seen: &mut Vec<String>, id: &String)
    requires
        !id_set(old(seen)@).contains(id@),
    ensures
        id_set(final(seen)@) == id_set(old(seen)@).insert(id@),
{
    let owned = id.clone();
    seen.push(owned);
    proof {
        let a = id_seq(seen@);
        let b = id_seq(old(seen)@);
        assert(a =~= b.push(id@));
        assert forall|x: Seq<char>| a.contains(x) <==> (b.contains(x) || x == id@) by {
            if a.contains(x) {
                let i = choose|i: int| 0 <= i < a.len() && a[i] == x;
                if i < b.len() {
                    assert(b[i] == x);
                }
            }
            if b.contains(x) {
                let i = choose|i: int| 0 <= i < b.len() && b[i] == x;
                assert(a[i] == x);
            }
            if x == id@ {
                assert(a[b.len() as int] == x);
            }
        }
        assert(id_set(seen@) =~= id_set(old(seen)@).insert(id@));
    }
}

/// Takes a quote into the active positions. Three passes update the
/// positions that the quote touches: those in the quoted asset pair, those
/// whose base currency it converts, and those whose quote currency it
/// converts. The cases that the passes have found are then dispatched in
/// their order: a position to close leaves the cache and its close is told;
/// a margin call and a refund are each handled once for a position.
pub fn handle_active_positions_update_bid_ask(
    active: &mut ActivePositionsCache,
    bid_ask: &EngineBidAsk,
    process_id: &str,
    now: i64,
) -> (r: Vec<EngineEvent>)
    requires
        old(active).wf(),
        bid_ask.wf(),
    ensures
        final(active).wf(),
        final(active)@ == tick_dispatch(old(active)@, bid_ask@, process_id@, now).positions,
        event_views(r@) == tick_dispatch(old(active)@, bid_ask@, process_id@, now).events,
{
    let base_quote_query = EngineCacheQueryBuilder::new().with_base(
        bid_ask.base.as_str(),
    ).with_quote(bid_ask.quote.as_str());
    let base_collateral_query = EngineCacheQueryBuilder::new().with_base(
        bid_ask.base.as_str(),
    ).with_collateral(bid_ask.quote.as_str());
    let quote_collateral_query = EngineCacheQueryBuilder::new().with_quote(
        bid_ask.base.as_str(),
    ).with_collateral(bid_ask.quote.as_str());

    let mut update_positions_result = active.update_rate(bid_ask, &base_quote_query);
    let ghost first = case_views(update_positions_result@);
    let mut second_pass = active.update_rate(bid_ask, &base_collateral_query);
    let ghost second = case_views(second_pass@);
    update_positions_result.append(&mut second_pass);
    let mut third_pass = active.update_rate(bid_ask, &quote_collateral_query);
    let ghost third = case_views(third_pass@);
    update_positions_result.append(&mut third_pass);

    let ghost cases = update_cases(old(active)@, bid_ask@);
    let ghost start = Dispatched {
        positions: updated(old(active)@, bid_ask@),
        events: Seq::empty(),
        margin_calls: Set::empty(),
        refunds: Set::empty(),
    };
    proof {
        assert(case_views(update_positions_result@) =~= first + second + third);
        assert(cases.take(0) =~= Seq::<CaseView>::empty());
    }

    let mut events: Vec<EngineEvent> = Vec::new();
    let mut margin_call_hit_list: Vec<String> = Vec::new();
    let mut topping_up_refund_list: Vec<String> = Vec::new();
    proof {
        assert(event_views(events@) =~= Seq::<EventView>::empty());
        assert(id_set(margin_call_hit_list@) =~= Set::<Seq<char>>::empty());
        assert(id_set(topping_up_refund_list@) =~= Set::<Seq<char>>::empty());
    }
    let mut i: usize = 0;
    while i < update_positions_result.len()
        invariant
            i <= update_positions_result@.len(),
            cases == case_views(update_positions_result@),
            active.wf(),
            ({
                let state = dispatch_cases(start, cases.take(i as int), process_id@, now);
                &&& active@ == state.positions
                &&& event_views(events@) == state.events
                &&& id_set(margin_call_hit_list@) == state.margin_calls
                &&& id_set(topping_up_refund_list@) == state.refunds
            }),
        decreases update_positions_result@.len() - i,
    {
        let ghost state = dispatch_cases(start, cases.take(i as int), process_id@, now);
        let ghost sent = event_views(events@);
        proof {
            assert(cases.take(i + 1).drop_last() =~= cases.take(i as int));
            assert(cases.take(i + 1).last() == cases[i as int]);
            assert(cases[i as int] == update_positions_result@[i as int]@);
        }
        match &update_positions_result[i] {
            UpdatePositionCase::Close(close_position) => {
                match close_position_background(
                    active,
                    close_position.id.as_str(),
                    close_position.close_reason,
                    process_id,
                    now,
                ) {
                    Ok(mut applied) => {
                        let ghost told = event_views(applied.events@);
                        events.append(&mut applied.events);
                        proof {
                            assert(event_views(events@) =~= sent + told);
                            assert(sent + told =~= sent.push(told[0]));
                        }
                    },
                    Err(_) => {},
                }
            },
            UpdatePositionCase::MarginCallHit(margin_call_hit) => {
                if find_id(&margin_call_hit_list, margin_call_hit.position_id.as_str()).is_none() {
                    remember(&mut margin_call_hit_list, &margin_call_hit.position_id);
                    events.push(handle_position_margin_call(clone_margin_call(margin_call_hit)));
                    proof {
                        assert(event_views(events@) =~= sent.push(
                            EventView::MarginCallHit(margin_call_hit@),
                        ));
                    }
                }
            },
            UpdatePositionCase::ReturnToppingUp(topping_up_return) => {
                if find_id(&topping_up_refund_list, topping_up_return.id.as_str()).is_none() {
                    let mut told = process_topping_up_refund(
                        active,
                        topping_up_return.id.as_str(),
                        process_id,
                        topping_up_return.topping_up_amount,
                        now,
                    );
                    let ghost told_views = event_views(told@);
                    events.append(&mut told);
                    remember(&mut topping_up_refund_list, &topping_up_return.id);
                    proof {
                        assert(event_views(events@) =~= sent + told_views);
                    }
                }
            },
        }
        i = i + 1;
    }
    proof {
        assert(cases.take(i as int) =~= cases);
    }
    events
}

/// Takes a quote into the pending orders: every order in the quoted asset
/// pair that the quote activates leaves the cache of pending orders, goes
/// into the cache of orders that wait for their confirmation, and has the
/// request to approve its execution handed out.
pub fn handle_pending_positions_update(
    pending: &mut PendingPositionsCache,
    awaiting: &mut PendingPositionsCache,
    bid_ask: &EngineBidAsk,
    process_id: &str,
) -> (r: Vec<EngineEvent>)
    requires
        old(pending).wf(),
        old(awaiting).wf(),
    ensures
        final(pending).wf(),
        final(awaiting).wf(),
        final(pending)@ == waiting(old(pending)@, asset_query(bid_ask@), bid_ask@),
        final(awaiting)@ == loaded(
            old(awaiting)@,
            activated(old(pending)@, asset_query(bid_ask@), bid_ask@),
        ),
        event_views(r@) == approval_requests(
            activated(old(pending)@, asset_query(bid_ask@), bid_ask@),
            process_id@,
        ),
{
    let query = EngineCacheQueryBuilder::new().with_base(bid_ask.base.as_str()).with_quote(
        bid_ask.quote.as_str(),
    );
    let positions_to_execute = pending.query_and_select_remove(&query, bid_ask);
    handle_pending_rdy_to_execute(awaiting, positions_to_execute, process_id)
}

/// Takes one quote through the engine: into the quote cache, then into the
/// active positions, then into the pending orders. The events come out in
/// that order.
pub fn handle_bid_ask_message(
    prices: &mut ActivePricesCache,
    active: &mut ActivePositionsCache,
    pending: &mut PendingPositionsCache,
    awaiting: &mut PendingPositionsCache,
    bid_ask: EngineBidAsk,
    process_id: &str,
    now: i64,
) -> (r: Vec<EngineEvent>)
    requires
        old(prices).wf(),
        old(active).wf(),
        old(pending).wf(),
        old(awaiting).wf(),
        bid_ask.wf(),
    ensures
        final(prices).wf(),
        final(active).wf(),
        final(pending).wf(),
        final(awaiting).wf(),
        final(prices).prices() == old(prices).prices().insert(bid_ask@.asset_pair, bid_ask@),
        final(prices).directed() == old(prices).directed().insert(
            (bid_ask@.base, bid_ask@.quote),
            bid_ask@.asset_pair,
        ),
        final(active)@ == tick_dispatch(old(active)@, bid_ask@, process_id@, now).positions,
        final(pending)@ == waiting(old(pending)@, asset_query(bid_ask@), bid_ask@),
        final(awaiting)@ == loaded(
            old(awaiting)@,
            activated(old(pending)@, asset_query(bid_ask@), bid_ask@),
        ),
        event_views(r@) == tick_dispatch(old(active)@, bid_ask@, process_id@, now).events
            + approval_requests(
            activated(old(pending)@, asset_query(bid_ask@), bid_ask@),
            process_id@,
        ),
{
    handle_prices_update_bid_ask(prices, bid_ask.clone());
    let mut events = handle_active_positions_update_bid_ask(active, &bid_ask, process_id, now);
    let ghost told = event_views(events@);
    let mut requests = handle_pending_positions_update(pending, awaiting, &bid_ask, process_id);
    let ghost asked = event_views(requests@);
    events.append(&mut requests);
    proof {
        assert(event_views(events@) =~= told + asked);
    }
    events
}

} // verus!
