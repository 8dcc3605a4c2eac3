use vstd::prelude::*;
use crate::active_positions_cache::{tick_cases, ticked, ActivePositionsCache};
use crate::active_positions_store::{
    holds_id, ids_unique, lemma_put_elements, lemma_put_sorted, lemma_sorted_remove,
    lemma_sorted_update, loaded, place_of, put, rank, sorted, taken,
};
use crate::id_order::precedes;
use crate::amounts::profit_formula;
use crate::bid_ask::BidAskView;
use crate::bid_ask_subscriber::{
    dispatch_case, dispatch_cases, tick_dispatch, update_cases, updated, Dispatched,
};
use crate::dto::ExecutionClosePositionReason;
use crate::events::{CaseView, EventView};
use crate::pending_positions_cache::{activated, waiting};
use crate::position::{sum_amounts, PositionView};
use crate::process_topping_up_refund::{can_refund, refund_positions};
use crate::query::QueryView;

verus! {

/// No id is held by both lists.
pub open spec fn ids_apart(a: Seq<PositionView>, b: Seq<PositionView>) -> bool {
    forall|id: Seq<char>| !(holds_id(a, id) && holds_id(b, id))
}

/// Every id that `after` holds, `before` held.
pub open spec fn no_new_id(before: Seq<PositionView>, after: Seq<PositionView>) -> bool {
    forall|id: Seq<char>| holds_id(after, id) ==> holds_id(before, id)
}

/// Putting a position in adds its id and no other.
pub proof fn law_put_ids(positions: Seq<PositionView>, position: PositionView, id: Seq<char>)
    ensures
        holds_id(put(positions, position), id) <==> (holds_id(positions, id) || id
            == position.data.id),
{
    let after = put(positions, position);
    lemma_put_elements(positions, position);
    let k = rank(taken(positions, position.data.id), position.data.id);
    assert(after[k].data.id == position.data.id);
    if holds_id(after, id) && id != position.data.id {
        let i = choose|i: int| 0 <= i < after.len() && #[trigger] after[i].data.id == id;
        assert(positions.contains(after[i]));
        let j = choose|j: int| 0 <= j < positions.len() && positions[j] == after[i];
        assert(positions[j].data.id == id);
    }
    if holds_id(positions, id) && id != position.data.id {
        let j = choose|j: int| 0 <= j < positions.len() && #[trigger] positions[j].data.id == id;
        assert(after.contains(positions[j]));
        let i = choose|i: int| 0 <= i < after.len() && after[i] == positions[j];
        assert(after[i].data.id == id);
    }
}

/// Taking a position out brings no new id, and where ids are unique the id
/// taken out is gone.
pub proof fn law_taken_ids(positions: Seq<PositionView>, gone: Seq<char>)
    ensures
        no_new_id(positions, taken(positions, gone)),
        ids_unique(positions) ==> !holds_id(taken(positions, gone), gone) && ids_unique(
            taken(positions, gone),
        ),
{
    let after = taken(positions, gone);
    if holds_id(positions, gone) {
        let at = place_of(positions, gone);
        assert forall|id: Seq<char>| holds_id(after, id) implies holds_id(positions, id) by {
            let i = choose|i: int| 0 <= i < after.len() && #[trigger] after[i].data.id == id;
            if i < at {
                assert(positions[i].data.id == id);
            } else {
                assert(positions[i + 1].data.id == id);
            }
        }
        if ids_unique(positions) {
            assert forall|i: int| 0 <= i < after.len() implies #[trigger] after[i].data.id
                != gone by {
                if i < at {
                    assert(positions[i].data.id != positions[at].data.id);
                } else {
                    assert(positions[at].data.id != positions[i + 1].data.id);
                }
            }
            assert forall|i: int, j: int| 0 <= i < j < after.len() implies #[trigger] after[i].data.id
                != #[trigger] after[j].data.id by {
                let i2 = if i < at {
                    i
                } else {
                    i + 1
                };
                let j2 = if j < at {
                    j
                } else {
                    j + 1
                };
                assert(positions[i2].data.id != positions[j2].data.id);
            }
        }
    }
}

/// Changing a position in its place, without changing its id, changes no
/// id.
pub proof fn law_update_ids(positions: Seq<PositionView>, at: int, position: PositionView)
    requires
        0 <= at < positions.len(),
        position.data.id == positions[at].data.id,
    ensures
        no_new_id(positions, positions.update(at, position)),
        no_new_id(positions.update(at, position), positions),
        ids_unique(positions) ==> ids_unique(positions.update(at, position)),
{
    let after = positions.update(at, position);
    assert forall|id: Seq<char>| holds_id(after, id) implies holds_id(positions, id) by {
        let i = choose|i: int| 0 <= i < after.len() && #[trigger] after[i].data.id == id;
        assert(positions[i].data.id == id);
    }
    assert forall|id: Seq<char>| holds_id(positions, id) implies holds_id(after, id) by {
        let i = choose|i: int| 0 <= i < positions.len() && #[trigger] positions[i].data.id == id;
        assert(after[i].data.id == id);
    }
    if ids_unique(positions) {
        assert forall|i: int, j: int| 0 <= i < j < after.len() implies #[trigger] after[i].data.id
            != #[trigger] after[j].data.id by {
            assert(positions[i].data.id != positions[j].data.id);
        }
    }
}

/// A quote changes the id of no position.
pub proof fn law_ticked_ids(positions: Seq<PositionView>, query: QueryView, bid_ask: BidAskView)
    ensures
        no_new_id(positions, ticked(positions, query, bid_ask)),
        ids_unique(positions) ==> ids_unique(ticked(positions, query, bid_ask)),
        ticked(positions, query, bid_ask).len() == positions.len(),
{
    let after = ticked(positions, query, bid_ask);
    assert forall|i: int| 0 <= i < after.len() implies #[trigger] after[i].data.id
        == positions[i].data.id by {}
    assert forall|id: Seq<char>| holds_id(after, id) implies holds_id(positions, id) by {
        let i = choose|i: int| 0 <= i < after.len() && #[trigger] after[i].data.id == id;
        assert(positions[i].data.id == id);
    }
    if ids_unique(positions) {
        assert forall|i: int, j: int| 0 <= i < j < after.len() implies #[trigger] after[i].data.id
            != #[trigger] after[j].data.id by {
            assert(positions[i].data.id != positions[j].data.id);
        }
    }
}

/// The three passes of a quote change the id of no position.
pub proof fn law_updated_ids(positions: Seq<PositionView>, bid_ask: BidAskView)
    ensures
        no_new_id(positions, updated(positions, bid_ask)),
        ids_unique(positions) ==> ids_unique(updated(positions, bid_ask)),
{
    let first = ticked(positions, crate::bid_ask_subscriber::asset_query(bid_ask), bid_ask);
    let second = ticked(
        first,
        crate::bid_ask_subscriber::base_collateral_query(bid_ask),
        bid_ask,
    );
    law_ticked_ids(positions, crate::bid_ask_subscriber::asset_query(bid_ask), bid_ask);
    law_ticked_ids(first, crate::bid_ask_subscriber::base_collateral_query(bid_ask), bid_ask);
    law_ticked_ids(second, crate::bid_ask_subscriber::quote_collateral_query(bid_ask), bid_ask);
}

/// The orders that go on waiting are among those that waited.
pub proof fn law_waiting_ids(positions: Seq<PositionView>, query: QueryView, bid_ask: BidAskView)
    ensures
        no_new_id(positions, waiting(positions, query, bid_ask)),
{
    let keep = |p: PositionView| !(query.matches(p.index_keys()) && p.ready_to_execute(bid_ask));
    let after = positions.filter(keep);
    assert forall|id: Seq<char>| holds_id(after, id) implies holds_id(positions, id) by {
        let i = choose|i: int| 0 <= i < after.len() && #[trigger] after[i].data.id == id;
        assert(after.contains(after[i]));
        positions.lemma_filter_contains_rev(keep, after[i]);
        let j = choose|j: int| 0 <= j < positions.len() && positions[j] == after[i];
        assert(positions[j].data.id == id);
    }
}

/// A refund changes the id of no position.
pub proof fn law_refund_ids(
    positions: Seq<PositionView>,
    id: Seq<char>,
    amount: u64,
    process_id: Seq<char>,
    now: i64,
)
    ensures
        no_new_id(positions, refund_positions(positions, id, amount, process_id, now)),
        ids_unique(positions) ==> ids_unique(
            refund_positions(positions, id, amount, process_id, now),
        ),
{
    if can_refund(positions, id, amount) {
        law_update_ids(
            positions,
            place_of(positions, id),
            crate::process_topping_up_refund::refunded_position(
                positions,
                id,
                amount,
                process_id,
                now,
            ),
        );
    }
}

/// Taking a position out leaves the others in the order of their ids.
pub proof fn law_taken_sorted(positions: Seq<PositionView>, gone: Seq<char>)
    requires
        sorted(positions),
    ensures
        sorted(taken(positions, gone)),
{
    if holds_id(positions, gone) {
        lemma_sorted_remove(positions, place_of(positions, gone));
    }
}

/// A quote leaves the positions in the order of their ids.
pub proof fn law_ticked_sorted(positions: Seq<PositionView>, query: QueryView, bid_ask: BidAskView)
    requires
        sorted(positions),
    ensures
        sorted(ticked(positions, query, bid_ask)),
{
    let after = ticked(positions, query, bid_ask);
    assert forall|i: int, j: int| 0 <= i < j < after.len() implies precedes(
        #[trigger] after[i].data.id,
        #[trigger] after[j].data.id,
    ) by {
        assert(after[i].data.id == positions[i].data.id);
        assert(after[j].data.id == positions[j].data.id);
        assert(precedes(positions[i].data.id, positions[j].data.id));
    }
}

/// A refund leaves the positions in the order of their ids.
pub proof fn law_refund_sorted(
    positions: Seq<PositionView>,
    id: Seq<char>,
    amount: u64,
    process_id: Seq<char>,
    now: i64,
)
    requires
        sorted(positions),
    ensures
        sorted(refund_positions(positions, id, amount, process_id, now)),
{
    if can_refund(positions, id, amount) {
        lemma_sorted_update(
            positions,
            place_of(positions, id),
            crate::process_topping_up_refund::refunded_position(
                positions,
                id,
                amount,
                process_id,
                now,
            ),
        );
    }
}

/// What is picked out of positions that stand in the order of their ids
/// stands in that order.
pub proof fn law_filter_sorted(positions: Seq<PositionView>, pred: spec_fn(PositionView) -> bool)
    requires
        sorted(positions),
    ensures
        sorted(positions.filter(pred)),
    decreases positions.len(),
{
    reveal(Seq::filter);
    if positions.len() > 0 {
        let rest = positions.drop_last();
        let last = positions.last();
        assert forall|i: int, j: int| 0 <= i < j < rest.len() implies precedes(
            #[trigger] rest[i].data.id,
            #[trigger] rest[j].data.id,
        ) by {
            assert(precedes(positions[i].data.id, positions[j].data.id));
        }
        law_filter_sorted(rest, pred);
        let sub = rest.filter(pred);
        let out = positions.filter(pred);
        assert forall|i: int, j: int| 0 <= i < j < out.len() implies precedes(
            #[trigger] out[i].data.id,
            #[trigger] out[j].data.id,
        ) by {
            if j < sub.len() {
                assert(precedes(sub[i].data.id, sub[j].data.id));
            } else {
                assert(sub.contains(sub[i]));
                rest.lemma_filter_contains_rev(pred, sub[i]);
                let k = choose|k: int| 0 <= k < rest.len() && rest[k] == sub[i];
                assert(precedes(positions[k].data.id, positions[positions.len() - 1].data.id));
            }
        }
    }
}

/// Loading positions into a store that stands in the order of its ids
/// leaves it in that order.
pub proof fn law_loaded_sorted(store: Seq<PositionView>, incoming: Seq<PositionView>)
    requires
        sorted(store),
    ensures
        sorted(loaded(store, incoming)),
    decreases incoming.len(),
{
    if incoming.len() > 0 {
        law_loaded_sorted(store, incoming.drop_last());
        lemma_put_sorted(loaded(store, incoming.drop_last()), incoming.last());
    }
}

/// The dispatch of the cases of a quote leaves the positions in the order
/// of their ids.
pub proof fn law_dispatch_sorted(
    state: Dispatched,
    cases: Seq<CaseView>,
    process_id: Seq<char>,
    now: i64,
)
    requires
        sorted(state.positions),
    ensures
        sorted(dispatch_cases(state, cases, process_id, now).positions),
    decreases cases.len(),
{
    if cases.len() > 0 {
        law_dispatch_sorted(state, cases.drop_last(), process_id, now);
        let before = dispatch_cases(state, cases.drop_last(), process_id, now);
        match cases.last() {
            CaseView::Close { id, .. } => {
                law_taken_sorted(before.positions, id);
            },
            CaseView::MarginCallHit(_) => {},
            CaseView::ReturnToppingUp { id, topping_up_amount, .. } => {
                law_refund_sorted(before.positions, id, topping_up_amount, process_id, now);
            },
        }
    }
}

/// One quote, taken into the active positions, leaves them in the order of
/// their ids: what a query lists, and with it the order of the cases and of
/// the events of a quote, goes by ascending id.
pub proof fn law_tick_sorted(
    positions: Seq<PositionView>,
    bid_ask: BidAskView,
    process_id: Seq<char>,
    now: i64,
)
    requires
        sorted(positions),
    ensures
        sorted(tick_dispatch(positions, bid_ask, process_id, now).positions),
{
    let first = ticked(positions, crate::bid_ask_subscriber::asset_query(bid_ask), bid_ask);
    let second = ticked(
        first,
        crate::bid_ask_subscriber::base_collateral_query(bid_ask),
        bid_ask,
    );
    law_ticked_sorted(positions, crate::bid_ask_subscriber::asset_query(bid_ask), bid_ask);
    law_ticked_sorted(first, crate::bid_ask_subscriber::base_collateral_query(bid_ask), bid_ask);
    law_ticked_sorted(second, crate::bid_ask_subscriber::quote_collateral_query(bid_ask), bid_ask);
    law_dispatch_sorted(
        Dispatched {
            positions: updated(positions, bid_ask),
            events: Seq::empty(),
            margin_calls: Set::empty(),
            refunds: Set::empty(),
        },
        update_cases(positions, bid_ask),
        process_id,
        now,
    );
}

/// The id of the position that an event of the active stream tells of.
pub open spec fn closed_id(event: EventView) -> Option<Seq<char>> {
    match event {
        EventView::ClosePosition { position, .. } => Some(position.data.id),
        _ => None,
    }
}

/// Every close that was told is of a position that the store no longer
/// holds.
pub open spec fn closes_are_gone(state: Dispatched) -> bool {
    forall|i: int|
        0 <= i < state.events.len() && closed_id(#[trigger] state.events[i]) is Some ==> !holds_id(
            state.positions,
            closed_id(state.events[i])->0,
        )
}

/// Every margin call that was told is remembered, and none was told twice.
pub open spec fn margin_calls_once(state: Dispatched) -> bool {
    &&& forall|i: int|
        0 <= i < state.events.len() && (#[trigger] state.events[i]) is MarginCallHit
            ==> state.margin_calls.contains(state.events[i]->MarginCallHit_0.position_id)
    &&& forall|i: int, j: int|
        0 <= i < j < state.events.len() && (#[trigger] state.events[i]) is MarginCallHit && (
        #[trigger] state.events[j]) is MarginCallHit
            ==> state.events[i]->MarginCallHit_0.position_id
            != state.events[j]->MarginCallHit_0.position_id
}

proof fn lemma_dispatch_case(state: Dispatched, case: CaseView, process_id: Seq<char>, now: i64)
    requires
        ids_unique(state.positions),
        closes_are_gone(state),
        margin_calls_once(state),
    ensures
        ids_unique(dispatch_case(state, case, process_id, now).positions),
        no_new_id(state.positions, dispatch_case(state, case, process_id, now).positions),
        closes_are_gone(dispatch_case(state, case, process_id, now)),
        margin_calls_once(dispatch_case(state, case, process_id, now)),
{
    let after = dispatch_case(state, case, process_id, now);
    match case {
        CaseView::Close { id, close_reason, .. } => {
            if holds_id(state.positions, id) {
                law_taken_ids(state.positions, id);
                assert forall|i: int|
                    0 <= i < after.events.len() && closed_id(#[trigger] after.events[i])
                        is Some implies !holds_id(after.positions, closed_id(after.events[i])->0) by {
                    if i < state.events.len() {
                        assert(after.events[i] == state.events[i]);
                    }
                }
                assert forall|i: int|
                    0 <= i < after.events.len() && (#[trigger] after.events[i])
                        is MarginCallHit implies i < state.events.len() && after.events[i]
                    == state.events[i] by {}
            }
        },
        CaseView::MarginCallHit(hit) => {
            if !state.margin_calls.contains(hit.position_id) {
                assert forall|i: int|
                    0 <= i < after.events.len() && closed_id(#[trigger] after.events[i])
                        is Some implies !holds_id(after.positions, closed_id(after.events[i])->0) by {
                    if i < state.events.len() {
                        assert(after.events[i] == state.events[i]);
                    }
                }
                assert forall|i: int|
                    0 <= i < state.events.len() implies #[trigger] after.events[i]
                    == state.events[i] by {}
            }
        },
        CaseView::ReturnToppingUp { id, topping_up_amount, .. } => {
            if !state.refunds.contains(id) {
                law_refund_ids(state.positions, id, topping_up_amount, process_id, now);
                let told = crate::process_topping_up_refund::refund_events(
                    state.positions,
                    id,
                    topping_up_amount,
                    process_id,
                    now,
                );
                assert forall|i: int| 0 <= i < after.events.len() implies (if i
                    < state.events.len() {
                    #[trigger] after.events[i] == state.events[i]
                } else {
                    closed_id(after.events[i]) is None && !(after.events[i] is MarginCallHit)
                }) by {
                    if i >= state.events.len() {
                        assert(after.events[i] == told[i - state.events.len()]);
                    }
                }
            }
        },
    }
}

/// The dispatch of the cases of a quote keeps the ids unique and brings no
/// new id; every close that it tells is of a position that has left the
/// store; and it tells the margin call of a position at most once.
pub proof fn law_dispatch(
    state: Dispatched,
    cases: Seq<CaseView>,
    process_id: Seq<char>,
    now: i64,
)
    requires
        ids_unique(state.positions),
        closes_are_gone(state),
        margin_calls_once(state),
    ensures
        ids_unique(dispatch_cases(state, cases, process_id, now).positions),
        no_new_id(state.positions, dispatch_cases(state, cases, process_id, now).positions),
        closes_are_gone(dispatch_cases(state, cases, process_id, now)),
        margin_calls_once(dispatch_cases(state, cases, process_id, now)),
    decreases cases.len(),
{
    if cases.len() > 0 {
        law_dispatch(state, cases.drop_last(), process_id, now);
        lemma_dispatch_case(
            dispatch_cases(state, cases.drop_last(), process_id, now),
            cases.last(),
            process_id,
            now,
        );
    }
}

/// One quote, taken into the active positions, keeps their ids unique and
/// brings no new id; every close that it tells is of a position that has
/// left the store; and it tells the margin call of a position at most once.
pub proof fn law_tick(
    positions: Seq<PositionView>,
    bid_ask: BidAskView,
    process_id: Seq<char>,
    now: i64,
)
    requires
        ids_unique(positions),
    ensures
        ids_unique(tick_dispatch(positions, bid_ask, process_id, now).positions),
        no_new_id(positions, tick_dispatch(positions, bid_ask, process_id, now).positions),
        closes_are_gone(tick_dispatch(positions, bid_ask, process_id, now)),
        margin_calls_once(tick_dispatch(positions, bid_ask, process_id, now)),
{
    law_updated_ids(positions, bid_ask);
    let start = Dispatched {
        positions: updated(positions, bid_ask),
        events: Seq::empty(),
        margin_calls: Set::empty(),
        refunds: Set::empty(),
    };
    law_dispatch(start, update_cases(positions, bid_ask), process_id, now);
}

/// Every position with the id `id` has its margin-call flag set.
pub open spec fn flag_is_set(positions: Seq<PositionView>, id: Seq<char>) -> bool {
    forall|j: int|
        0 <= j < positions.len() && (#[trigger] positions[j]).data.id == id
            ==> positions[j].active().margin_call_hit
}

/// Every margin call among the events is of a position whose flag is set,
/// as far as the store still holds it.
pub open spec fn margin_calls_are_flagged(state: Dispatched) -> bool {
    forall|i: int|
        0 <= i < state.events.len() && (#[trigger] state.events[i]) is MarginCallHit
            ==> flag_is_set(state.positions, state.events[i]->MarginCallHit_0.position_id)
}

proof fn lemma_ticked_keeps_flag(
    positions: Seq<PositionView>,
    query: QueryView,
    bid_ask: BidAskView,
    id: Seq<char>,
)
    requires
        flag_is_set(positions, id),
    ensures
        flag_is_set(ticked(positions, query, bid_ask), id),
{
    let after = ticked(positions, query, bid_ask);
    assert forall|j: int| 0 <= j < after.len() && (#[trigger] after[j]).data.id
        == id implies after[j].active().margin_call_hit by {
        assert(positions[j].data.id == id);
        assert(positions[j].active().margin_call_hit);
    }
}

proof fn lemma_pass_sets_flag(
    positions: Seq<PositionView>,
    query: QueryView,
    bid_ask: BidAskView,
    case: CaseView,
)
    requires
        ids_unique(positions),
        tick_cases(positions, query, bid_ask).contains(case),
        case is MarginCallHit,
    ensures
        flag_is_set(ticked(positions, query, bid_ask), case->MarginCallHit_0.position_id),
{
    let outcome = |p: PositionView|
        if query.matches(p.index_keys()) {
            p.tick_outcome(bid_ask)
        } else {
            None
        };
    positions.lemma_filter_map_contains(outcome, case);
    let t = choose|t: PositionView| #[trigger] positions.contains(t) && outcome(t) == Some(case);
    let i = choose|i: int| 0 <= i < positions.len() && positions[i] == t;
    let id = case->MarginCallHit_0.position_id;
    let after = ticked(positions, query, bid_ask);
    assert(t.after_bid_ask(bid_ask).raises_margin_call());
    assert(after[i].active().margin_call_hit);
    assert forall|j: int| 0 <= j < after.len() && (#[trigger] after[j]).data.id
        == id implies after[j].active().margin_call_hit by {
        assert(positions[j].data.id == after[j].data.id);
        if j < i {
            assert(positions[j].data.id != positions[i].data.id);
        } else if i < j {
            assert(positions[i].data.id != positions[j].data.id);
        }
    }
}

proof fn lemma_cases_are_flagged(positions: Seq<PositionView>, bid_ask: BidAskView, k: int)
    requires
        ids_unique(positions),
        0 <= k < update_cases(positions, bid_ask).len(),
        update_cases(positions, bid_ask)[k] is MarginCallHit,
    ensures
        flag_is_set(
            updated(positions, bid_ask),
            update_cases(positions, bid_ask)[k]->MarginCallHit_0.position_id,
        ),
{
    let q1 = crate::bid_ask_subscriber::asset_query(bid_ask);
    let q2 = crate::bid_ask_subscriber::base_collateral_query(bid_ask);
    let q3 = crate::bid_ask_subscriber::quote_collateral_query(bid_ask);
    let first = ticked(positions, q1, bid_ask);
    let second = ticked(first, q2, bid_ask);
    let c1 = tick_cases(positions, q1, bid_ask);
    let c2 = tick_cases(first, q2, bid_ask);
    let c3 = tick_cases(second, q3, bid_ask);
    let case = update_cases(positions, bid_ask)[k];
    let id = case->MarginCallHit_0.position_id;
    law_ticked_ids(positions, q1, bid_ask);
    law_ticked_ids(first, q2, bid_ask);
    if k < c1.len() {
        assert(c1[k] == case);
        assert(c1.contains(case));
        lemma_pass_sets_flag(positions, q1, bid_ask, case);
        lemma_ticked_keeps_flag(first, q2, bid_ask, id);
        lemma_ticked_keeps_flag(second, q3, bid_ask, id);
    } else if k < c1.len() + c2.len() {
        assert(c2[k - c1.len()] == case);
        assert(c2.contains(case));
        lemma_pass_sets_flag(first, q2, bid_ask, case);
        lemma_ticked_keeps_flag(second, q3, bid_ask, id);
    } else {
        assert(c3[k - c1.len() - c2.len()] == case);
        assert(c3.contains(case));
        lemma_pass_sets_flag(second, q3, bid_ask, case);
    }
}

proof fn lemma_dispatch_case_keeps_flag(
    state: Dispatched,
    case: CaseView,
    process_id: Seq<char>,
    now: i64,
    id: Seq<char>,
)
    requires
        flag_is_set(state.positions, id),
    ensures
        flag_is_set(dispatch_case(state, case, process_id, now).positions, id),
{
    let after = dispatch_case(state, case, process_id, now).positions;
    match case {
        CaseView::Close { id: gone, .. } => {
            if holds_id(state.positions, gone) {
                let at = place_of(state.positions, gone);
                assert forall|j: int| 0 <= j < after.len() && (#[trigger] after[j]).data.id
                    == id implies after[j].active().margin_call_hit by {
                    if j < at {
                        assert(state.positions[j] == after[j]);
                    } else {
                        assert(state.positions[j + 1] == after[j]);
                    }
                }
            }
        },
        CaseView::MarginCallHit(_) => {},
        CaseView::ReturnToppingUp { id: back, topping_up_amount, .. } => {
            if !state.refunds.contains(back) && can_refund(
                state.positions,
                back,
                topping_up_amount,
            ) {
                let at = place_of(state.positions, back);
                assert forall|j: int| 0 <= j < after.len() && (#[trigger] after[j]).data.id
                    == id implies after[j].active().margin_call_hit by {
                    assert(state.positions[j].data.id == after[j].data.id);
                    assert(state.positions[j].active().margin_call_hit);
                }
            }
        },
    }
}

proof fn lemma_dispatch_keeps_flag(
    state: Dispatched,
    cases: Seq<CaseView>,
    process_id: Seq<char>,
    now: i64,
    id: Seq<char>,
)
    requires
        flag_is_set(state.positions, id),
    ensures
        flag_is_set(dispatch_cases(state, cases, process_id, now).positions, id),
    decreases cases.len(),
{
    if cases.len() > 0 {
        lemma_dispatch_keeps_flag(state, cases.drop_last(), process_id, now, id);
        lemma_dispatch_case_keeps_flag(
            dispatch_cases(state, cases.drop_last(), process_id, now),
            cases.last(),
            process_id,
            now,
            id,
        );
    }
}

proof fn lemma_dispatch_flagged(
    state: Dispatched,
    cases: Seq<CaseView>,
    process_id: Seq<char>,
    now: i64,
)
    requires
        margin_calls_are_flagged(state),
        forall|k: int|
            0 <= k < cases.len() && (#[trigger] cases[k]) is MarginCallHit ==> flag_is_set(
                state.positions,
                cases[k]->MarginCallHit_0.position_id,
            ),
    ensures
        margin_calls_are_flagged(dispatch_cases(state, cases, process_id, now)),
    decreases cases.len(),
{
    if cases.len() > 0 {
        let rest = cases.drop_last();
        assert forall|k: int|
            0 <= k < rest.len() && (#[trigger] rest[k]) is MarginCallHit implies flag_is_set(
            state.positions,
            rest[k]->MarginCallHit_0.position_id,
        ) by {
            assert(cases[k] == rest[k]);
        }
        lemma_dispatch_flagged(state, rest, process_id, now);
        let before = dispatch_cases(state, rest, process_id, now);
        let after = dispatch_case(before, cases.last(), process_id, now);
        assert forall|i: int|
            0 <= i < after.events.len() && (#[trigger] after.events[i])
                is MarginCallHit implies flag_is_set(
            after.positions,
            after.events[i]->MarginCallHit_0.position_id,
        ) by {
            let id = after.events[i]->MarginCallHit_0.position_id;
            if i < before.events.len() {
                assert(after.events[i] == before.events[i]);
                lemma_dispatch_case_keeps_flag(before, cases.last(), process_id, now, id);
            } else {
                match cases.last() {
                    CaseView::MarginCallHit(hit) => {
                        assert(cases[cases.len() - 1] is MarginCallHit);
                        lemma_dispatch_keeps_flag(state, rest, process_id, now, id);
                        lemma_dispatch_case_keeps_flag(before, cases.last(), process_id, now, id);
                    },
                    CaseView::Close { .. } => {},
                    CaseView::ReturnToppingUp { id: back, topping_up_amount, .. } => {
                        let told = crate::process_topping_up_refund::refund_events(
                            before.positions,
                            back,
                            topping_up_amount,
                            process_id,
                            now,
                        );
                        if !before.refunds.contains(back) {
                            assert(after.events[i] == told[i - before.events.len()]);
                        }
                    },
                }
            }
        }
    }
}

/// Every margin call that a quote tells is of a position whose margin-call
/// flag the quote has set: the store holds the position with the flag, or
/// the position has left the store.
pub proof fn law_margin_calls_are_flagged(
    positions: Seq<PositionView>,
    bid_ask: BidAskView,
    process_id: Seq<char>,
    now: i64,
)
    requires
        ids_unique(positions),
    ensures
        margin_calls_are_flagged(tick_dispatch(positions, bid_ask, process_id, now)),
{
    let start = Dispatched {
        positions: updated(positions, bid_ask),
        events: Seq::empty(),
        margin_calls: Set::empty(),
        refunds: Set::empty(),
    };
    let cases = update_cases(positions, bid_ask);
    assert forall|k: int|
        0 <= k < cases.len() && (#[trigger] cases[k]) is MarginCallHit implies flag_is_set(
        start.positions,
        cases[k]->MarginCallHit_0.position_id,
    ) by {
        lemma_cases_are_flagged(positions, bid_ask, k);
    }
    lemma_dispatch_flagged(start, cases, process_id, now);
}

/// Ids stay apart between the active positions and the pending orders when
/// a position is put among the active ones whose id no pending order has.
pub proof fn law_open_keeps_ids_apart(
    active: Seq<PositionView>,
    pending: Seq<PositionView>,
    position: PositionView,
)
    requires
        ids_apart(active, pending),
        !holds_id(pending, position.data.id),
    ensures
        ids_apart(put(active, position), pending),
        ids_apart(pending, put(active, position)),
{
    assert forall|id: Seq<char>| !(holds_id(put(active, position), id) && holds_id(pending, id)) by {
        law_put_ids(active, position, id);
    }
}

/// Ids stay apart when a position leaves either store.
pub proof fn law_leave_keeps_ids_apart(
    active: Seq<PositionView>,
    pending: Seq<PositionView>,
    id: Seq<char>,
)
    requires
        ids_apart(active, pending),
    ensures
        ids_apart(taken(active, id), pending),
        ids_apart(active, taken(pending, id)),
{
    law_taken_ids(active, id);
    law_taken_ids(pending, id);
}

/// Ids stay apart when a position is changed in its place.
pub proof fn law_update_keeps_ids_apart(
    active: Seq<PositionView>,
    pending: Seq<PositionView>,
    at: int,
    position: PositionView,
)
    requires
        ids_apart(active, pending),
        0 <= at < active.len(),
        position.data.id == active[at].data.id,
    ensures
        ids_apart(active.update(at, position), pending),
{
    law_update_ids(active, at, position);
}

/// Ids stay apart when a quote goes through the engine: it is taken into
/// the active positions, and the pending orders that it activates leave.
pub proof fn law_tick_keeps_ids_apart(
    active: Seq<PositionView>,
    pending: Seq<PositionView>,
    bid_ask: BidAskView,
    process_id: Seq<char>,
    now: i64,
)
    requires
        ids_unique(active),
        ids_apart(active, pending),
    ensures
        ids_apart(
            tick_dispatch(active, bid_ask, process_id, now).positions,
            waiting(pending, crate::bid_ask_subscriber::asset_query(bid_ask), bid_ask),
        ),
{
    law_tick(active, bid_ask, process_id, now);
    law_waiting_ids(pending, crate::bid_ask_subscriber::asset_query(bid_ask), bid_ask);
}

/// The profit that an active position of the cache holds is the one that the
/// pricing formula gives for its open data, its last asset price, its last
/// quote-collateral rate, the total of its swaps and its side.
pub proof fn law_profit_follows_formula(active: &ActivePositionsCache, i: int)
    requires
        active.wf(),
        0 <= i < active@.len(),
    ensures
        active@[i].active().profit == profit_formula(
            active@[i].data.side.is_buy(),
            active@[i].data.invest_amount as nat,
            active@[i].data.leverage as nat,
            active@[i].active().asset_open_price as nat,
            active@[i].active().base_conversion(active@[i].data),
            active@[i].active().asset_last_price as nat,
            active@[i].active().quote_conversion(active@[i].data),
            active@[i].active().swaps.total as int,
        ),
{
    assert(active@[i].is_active() && active@[i].wf());
}

/// The swap total that an active position of the cache holds is the sum of
/// the amounts of its swaps.
pub proof fn law_swaps_total(active: &ActivePositionsCache, i: int)
    requires
        active.wf(),
        0 <= i < active@.len(),
    ensures
        active@[i].active().swaps.total == sum_amounts(active@[i].active().swaps.swaps),
{
    assert(active@[i].is_active() && active@[i].wf());
}

/// Every order that a quote activates matches the query and meets the
/// activation rule of its kind on that quote.
pub proof fn law_activated_orders_are_ready(
    positions: Seq<PositionView>,
    query: QueryView,
    bid_ask: BidAskView,
    i: int,
)
    requires
        0 <= i < activated(positions, query, bid_ask).len(),
    ensures
        activated(positions, query, bid_ask)[i].ready_to_execute(bid_ask),
        query.matches(activated(positions, query, bid_ask)[i].index_keys()),
        positions.contains(activated(positions, query, bid_ask)[i]),
{
    let go = |p: PositionView| query.matches(p.index_keys()) && p.ready_to_execute(bid_ask);
    positions.lemma_filter_pred(go, i);
    let order = positions.filter(go)[i];
    assert(positions.filter(go).contains(order));
    positions.lemma_filter_contains_rev(go, order);
}

/// The event that tells of a position put into a store tells of what the
/// store holds under that id.
pub proof fn law_put_is_stored(positions: Seq<PositionView>, position: PositionView)
    requires
        ids_unique(positions),
    ensures
        holds_id(put(positions, position), position.data.id),
        put(positions, position)[place_of(put(positions, position), position.data.id)]
            == position,
        ids_unique(put(positions, position)),
{
    let after = put(positions, position);
    let rest = taken(positions, position.data.id);
    let k = rank(rest, position.data.id);
    lemma_put_elements(positions, position);
    law_taken_ids(positions, position.data.id);
    assert(after[k] == position);
    assert forall|i: int, j: int| 0 <= i < j < after.len() implies #[trigger] after[i].data.id
        != #[trigger] after[j].data.id by {
        let a = if i < k {
            i
        } else {
            i - 1
        };
        let b = if j < k {
            j
        } else {
            j - 1
        };
        if i == k {
            assert(after[j] == rest[b]);
            assert(rest[b].data.id != position.data.id);
        } else if j == k {
            assert(after[i] == rest[a]);
            assert(rest[a].data.id != position.data.id);
        } else {
            assert(after[i] == rest[a]);
            assert(after[j] == rest[b]);
            assert(rest[a].data.id != rest[b].data.id);
        }
    }
    crate::active_positions_store::lemma_place_of(after, k);
}

/// Putting the same position in twice leaves the store as putting it in
/// once does.
pub proof fn law_put_is_idempotent(positions: Seq<PositionView>, position: PositionView)
    requires
        ids_unique(positions),
    ensures
        put(put(positions, position), position) == put(positions, position),
{
    let once = put(positions, position);
    let rest = taken(positions, position.data.id);
    let k = rank(rest, position.data.id);
    law_put_is_stored(positions, position);
    lemma_put_elements(positions, position);
    crate::active_positions_store::lemma_place_of(once, k);
    assert(once.remove(k) =~= rest);
}

/// The event that tells of a position changed in its place tells of what
/// the store holds under that id.
pub proof fn law_update_is_stored(positions: Seq<PositionView>, at: int, position: PositionView)
    requires
        ids_unique(positions),
        0 <= at < positions.len(),
        position.data.id == positions[at].data.id,
    ensures
        holds_id(positions.update(at, position), position.data.id),
        positions.update(at, position)[place_of(
            positions.update(at, position),
            position.data.id,
        )] == position,
{
    law_update_ids(positions, at, position);
    crate::active_positions_store::lemma_place_of(positions.update(at, position), at);
}

/// A closed position holds the active state, and with it the open data,
/// that the position had when it was closed; and its id is the same.
pub proof fn law_close_keeps_open_data(
    position: PositionView,
    process_id: Seq<char>,
    close_reason: ExecutionClosePositionReason,
    close_date: i64,
)
    requires
        position.is_active(),
    ensures
        position.closed_as(process_id, close_reason, close_date).closed().active_state
            == position.active(),
        position.closed_as(process_id, close_reason, close_date).closed().active_state.open_data()
            == position.active().open_data(),
        position.closed_as(process_id, close_reason, close_date).data.id == position.data.id,
{
}

/// A quote and a swap leave the open data of a position as it was.
pub proof fn law_open_data_is_kept(position: PositionView, bid_ask: BidAskView, amount: i64, date: i64)
    requires
        position.is_active(),
    ensures
        position.after_tick(bid_ask).active().open_data() == position.active().open_data(),
        position.after_swap(amount, date).active().open_data() == position.active().open_data(),
        position.after_tick(bid_ask).data == position.data,
{
}

} // verus!
