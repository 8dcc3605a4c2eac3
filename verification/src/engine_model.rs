use vstd::prelude::*;
use crate::active_positions_cache::{
    all_active, lemma_put_all_active, lemma_taken_all_active, lemma_update_all_active, ticked,
};
use crate::active_positions_store::{
    holds_id, ids_unique, lemma_put_sorted, lemma_sorted_update, loaded, place_of, put, sorted,
    taken,
};
use crate::active_prices_cache::ActivePricesCache;
use crate::bid_ask::BidAskView;
use crate::commands::{OpenCommandView, OpenPendingCommandView};
use crate::open_pending::{make_pending, pending_orders};
use crate::open_position::{make_active, open_positions};
use crate::bid_ask_subscriber::{
    asset_query, base_collateral_query, dispatch_cases, quote_collateral_query, tick_dispatch,
    update_cases, updated, Dispatched,
};
use crate::events::CaseView;
use crate::laws::{
    ids_apart, law_filter_sorted, law_loaded_sorted, law_put_ids, law_put_is_stored,
    law_taken_ids, law_taken_sorted, law_tick, law_tick_sorted, law_update_ids, no_new_id,
};
use crate::pending_positions_cache::{
    activated, all_pending, lemma_put_all_pending, lemma_taken_all_pending, waiting,
};
use crate::position::PositionView;
use crate::position_impl::lemma_expected_profit_bound;
use crate::process_topping_up_refund::{can_refund, refund_positions};
use crate::query::QueryView;

verus! {

/// The three stores of positions.
pub struct EngineView {
    /// The active positions.
    pub active: Seq<PositionView>,
    /// The pending orders.
    pub pending: Seq<PositionView>,
    /// The activated orders that wait for their confirmation.
    pub awaiting: Seq<PositionView>,
}

/// What can happen to the stores.
pub enum Operation {
    /// A position is opened: it is put among the active positions, unless
    /// a store holds its id already.
    OpenPosition { position: PositionView },
    /// An order is placed: it is put among the pending orders, unless a
    /// store holds its id already.
    OpenPending { order: PositionView },
    /// A pending order is cancelled.
    CancelPending { id: Seq<char> },
    /// An active position is closed.
    ClosePosition { id: Seq<char> },
    /// An active position is changed in its place by a command: a swap is
    /// charged, its reserve or its levels are changed.
    ChangePosition { position: PositionView },
    /// A quote goes through the engine.
    Tick { bid_ask: BidAskView, process_id: Seq<char>, now: i64 },
    /// The execution of a waiting order is confirmed: the order leaves, the
    /// position that it has become is put among the active positions.
    ConfirmPending { position: PositionView },
}

/// Whether one of the three stores holds the id `id`.
pub open spec fn holds_anywhere(state: EngineView, id: Seq<char>) -> bool {
    holds_id(state.active, id) || holds_id(state.pending, id) || holds_id(state.awaiting, id)
}

/// The stores after an operation.
pub open spec fn step(state: EngineView, operation: Operation) -> EngineView {
    match operation {
        Operation::OpenPosition { position } => if holds_anywhere(state, position.data.id) {
            state
        } else {
            EngineView { active: put(state.active, position), ..state }
        },
        Operation::OpenPending { order } => if holds_anywhere(state, order.data.id) {
            state
        } else {
            EngineView { pending: put(state.pending, order), ..state }
        },
        Operation::CancelPending { id } => EngineView { pending: taken(state.pending, id), ..state },
        Operation::ClosePosition { id } => EngineView { active: taken(state.active, id), ..state },
        Operation::ChangePosition { position } => if holds_id(state.active, position.data.id) {
            EngineView {
                active: state.active.update(
                    place_of(state.active, position.data.id),
                    position,
                ),
                ..state
            }
        } else {
            state
        },
        Operation::Tick { bid_ask, process_id, now } => EngineView {
            active: tick_dispatch(state.active, bid_ask, process_id, now).positions,
            pending: waiting(state.pending, asset_query(bid_ask), bid_ask),
            awaiting: loaded(
                state.awaiting,
                activated(state.pending, asset_query(bid_ask), bid_ask),
            ),
        },
        Operation::ConfirmPending { position } => EngineView {
            active: put(state.active, position),
            awaiting: taken(state.awaiting, position.data.id),
            ..state
        },
    }
}

/// The stores after a list of operations, one after the other.
pub open spec fn run(state: EngineView, operations: Seq<Operation>) -> EngineView
    decreases operations.len(),
{
    if operations.len() == 0 {
        state
    } else {
        step(run(state, operations.drop_last()), operations.last())
    }
}

/// Whether an operation can be asked of the engine in a state: what goes
/// into a store is a well-formed position of the store's kind, and an order
/// whose execution is confirmed waits for it.
pub open spec fn admissible(state: EngineView, operation: Operation) -> bool {
    match operation {
        Operation::OpenPosition { position } => position.is_active() && position.wf(),
        Operation::OpenPending { order } => order.is_pending() && order.wf(),
        Operation::CancelPending { .. } => true,
        Operation::ClosePosition { .. } => true,
        Operation::ChangePosition { position } => position.is_active() && position.wf(),
        Operation::Tick { bid_ask, .. } => bid_ask.wf(),
        Operation::ConfirmPending { position } => position.is_active() && position.wf()
            && holds_id(state.awaiting, position.data.id),
    }
}

/// Whether each of a list of operations can be asked in the state that the
/// operations before it have led to.
pub open spec fn admissible_run(state: EngineView, operations: Seq<Operation>) -> bool
    decreases operations.len(),
{
    if operations.len() == 0 {
        true
    } else {
        admissible_run(state, operations.drop_last()) && admissible(
            run(state, operations.drop_last()),
            operations.last(),
        )
    }
}

/// What holds of the stores at all times: each store stands in the
/// ascending order of its ids; no id occurs twice, in one store or in two;
/// the active store holds active positions, the other two hold pending
/// orders; and every position is well formed, so that the profit of an
/// active position is the one that the pricing formula gives and its swap
/// total is the sum of its swaps.
pub open spec fn engine_inv(state: EngineView) -> bool {
    &&& sorted(state.active)
    &&& sorted(state.pending)
    &&& sorted(state.awaiting)
    &&& ids_unique(state.active)
    &&& ids_unique(state.pending)
    &&& ids_unique(state.awaiting)
    &&& ids_apart(state.active, state.pending)
    &&& ids_apart(state.active, state.awaiting)
    &&& ids_apart(state.pending, state.awaiting)
    &&& all_active(state.active)
    &&& all_pending(state.pending)
    &&& all_pending(state.awaiting)
}

/// A quote leaves an active, well-formed position active and well formed.
pub proof fn lemma_after_tick_wf(position: PositionView, bid_ask: BidAskView)
    requires
        position.is_active(),
        position.wf(),
        bid_ask.wf(),
    ensures
        position.after_tick(bid_ask).is_active(),
        position.after_tick(bid_ask).wf(),
        position.after_tick(bid_ask).data == position.data,
{
    let moved = position.with_active(position.rates_after(bid_ask));
    assert(moved.active().rates_wf(moved.data));
    lemma_expected_profit_bound(moved.active(), moved.data);
}

proof fn lemma_ticked_all_active(positions: Seq<PositionView>, query: QueryView, bid_ask: BidAskView)
    requires
        all_active(positions),
        bid_ask.wf(),
    ensures
        all_active(ticked(positions, query, bid_ask)),
{
    let after = ticked(positions, query, bid_ask);
    assert forall|i: int| 0 <= i < after.len() implies (#[trigger] after[i]).is_active()
        && after[i].wf() by {
        assert(positions[i].is_active() && positions[i].wf());
        lemma_after_tick_wf(positions[i], bid_ask);
    }
}

proof fn lemma_refund_all_active(
    positions: Seq<PositionView>,
    id: Seq<char>,
    amount: u64,
    process_id: Seq<char>,
    now: i64,
)
    requires
        all_active(positions),
    ensures
        all_active(refund_positions(positions, id, amount, process_id, now)),
{
    let after = refund_positions(positions, id, amount, process_id, now);
    if can_refund(positions, id, amount) {
        let at = place_of(positions, id);
        assert(positions[at].is_active() && positions[at].wf());
        assert forall|i: int| 0 <= i < after.len() implies (#[trigger] after[i]).is_active()
            && after[i].wf() by {
            if i != at {
                assert(after[i] == positions[i]);
            }
        }
    }
}

proof fn lemma_dispatch_all_active(
    state: Dispatched,
    cases: Seq<CaseView>,
    process_id: Seq<char>,
    now: i64,
)
    requires
        all_active(state.positions),
    ensures
        all_active(dispatch_cases(state, cases, process_id, now).positions),
    decreases cases.len(),
{
    if cases.len() > 0 {
        lemma_dispatch_all_active(state, cases.drop_last(), process_id, now);
        let before = dispatch_cases(state, cases.drop_last(), process_id, now);
        match cases.last() {
            CaseView::Close { id, .. } => {
                lemma_taken_all_active(before.positions, id);
            },
            CaseView::MarginCallHit(_) => {},
            CaseView::ReturnToppingUp { id, topping_up_amount, .. } => {
                lemma_refund_all_active(before.positions, id, topping_up_amount, process_id, now);
            },
        }
    }
}

/// A quote leaves the active positions active and well formed.
pub proof fn lemma_tick_all_active(
    positions: Seq<PositionView>,
    bid_ask: BidAskView,
    process_id: Seq<char>,
    now: i64,
)
    requires
        all_active(positions),
        bid_ask.wf(),
    ensures
        all_active(tick_dispatch(positions, bid_ask, process_id, now).positions),
{
    let first = ticked(positions, asset_query(bid_ask), bid_ask);
    let second = ticked(first, base_collateral_query(bid_ask), bid_ask);
    lemma_ticked_all_active(positions, asset_query(bid_ask), bid_ask);
    lemma_ticked_all_active(first, base_collateral_query(bid_ask), bid_ask);
    lemma_ticked_all_active(second, quote_collateral_query(bid_ask), bid_ask);
    lemma_dispatch_all_active(
        Dispatched {
            positions: updated(positions, bid_ask),
            events: Seq::empty(),
            margin_calls: Set::empty(),
            refunds: Set::empty(),
        },
        update_cases(positions, bid_ask),
        process_id,
        now,
    );
}

/// The orders that a quote activates and those that go on waiting share no
/// id, and both are among the orders that waited.
proof fn lemma_activated_apart(positions: Seq<PositionView>, query: QueryView, bid_ask: BidAskView)
    requires
        ids_unique(positions),
        all_pending(positions),
    ensures
        ids_apart(waiting(positions, query, bid_ask), activated(positions, query, bid_ask)),
        no_new_id(positions, activated(positions, query, bid_ask)),
        no_new_id(positions, waiting(positions, query, bid_ask)),
        ids_unique(waiting(positions, query, bid_ask)),
        ids_unique(activated(positions, query, bid_ask)),
        all_pending(waiting(positions, query, bid_ask)),
        all_pending(activated(positions, query, bid_ask)),
{
    let go = |p: PositionView| query.matches(p.index_keys()) && p.ready_to_execute(bid_ask);
    let keep = |p: PositionView| !(query.matches(p.index_keys()) && p.ready_to_execute(bid_ask));
    lemma_filter_facts(positions, go);
    lemma_filter_facts(positions, keep);
    let gone = positions.filter(go);
    let kept = positions.filter(keep);
    assert forall|id: Seq<char>| !(holds_id(kept, id) && holds_id(gone, id)) by {
        if holds_id(kept, id) && holds_id(gone, id) {
            let i = choose|i: int| 0 <= i < kept.len() && #[trigger] kept[i].data.id == id;
            let j = choose|j: int| 0 <= j < gone.len() && #[trigger] gone[j].data.id == id;
            assert(kept.contains(kept[i]));
            assert(gone.contains(gone[j]));
            positions.lemma_filter_contains_rev(keep, kept[i]);
            positions.lemma_filter_contains_rev(go, gone[j]);
            let a = choose|a: int| 0 <= a < positions.len() && positions[a] == kept[i];
            let b = choose|b: int| 0 <= b < positions.len() && positions[b] == gone[j];
            positions.lemma_filter_pred(keep, i);
            positions.lemma_filter_pred(go, j);
            if a < b {
                assert(positions[a].data.id != positions[b].data.id);
            } else if b < a {
                assert(positions[b].data.id != positions[a].data.id);
            }
        }
    }
}

/// What is filtered out of a list with unique ids has unique ids and brings
/// no new id; of a list of pending orders, it is a list of pending orders.
proof fn lemma_filter_facts(positions: Seq<PositionView>, pred: spec_fn(PositionView) -> bool)
    requires
        ids_unique(positions),
        all_pending(positions),
    ensures
        ids_unique(positions.filter(pred)),
        no_new_id(positions, positions.filter(pred)),
        all_pending(positions.filter(pred)),
    decreases positions.len(),
{
    reveal(Seq::filter);
    if positions.len() > 0 {
        let rest = positions.drop_last();
        assert forall|i: int, j: int| 0 <= i < j < rest.len() implies #[trigger] rest[i].data.id
            != #[trigger] rest[j].data.id by {
            assert(positions[i].data.id != positions[j].data.id);
        }
        assert forall|i: int| 0 <= i < rest.len() implies (#[trigger] rest[i]).is_pending()
            && rest[i].wf() by {
            assert(positions[i].is_pending() && positions[i].wf());
        }
        lemma_filter_facts(rest, pred);
        let sub = rest.filter(pred);
        let out = positions.filter(pred);
        let last = positions.last();
        assert forall|id: Seq<char>| holds_id(out, id) implies holds_id(positions, id) by {
            let i = choose|i: int| 0 <= i < out.len() && #[trigger] out[i].data.id == id;
            if i < sub.len() {
                assert(sub[i].data.id == id);
                assert(holds_id(sub, id));
                let j = choose|j: int| 0 <= j < rest.len() && #[trigger] rest[j].data.id == id;
                assert(positions[j].data.id == id);
            } else {
                assert(positions[positions.len() - 1].data.id == id);
            }
        }
        assert forall|i: int, j: int| 0 <= i < j < out.len() implies #[trigger] out[i].data.id
            != #[trigger] out[j].data.id by {
            if j < sub.len() {
                assert(sub[i].data.id != sub[j].data.id);
            } else {
                assert(sub[i].data.id == out[i].data.id);
                assert(holds_id(sub, out[i].data.id));
                let k = choose|k: int|
                    0 <= k < rest.len() && #[trigger] rest[k].data.id == out[i].data.id;
                assert(positions[k].data.id != positions[positions.len() - 1].data.id);
            }
        }
        assert forall|i: int| 0 <= i < out.len() implies (#[trigger] out[i]).is_pending()
            && out[i].wf() by {
            if i < sub.len() {
                assert(sub[i].is_pending() && sub[i].wf());
            } else {
                assert(positions[positions.len() - 1].is_pending());
            }
        }
    }
}

/// Loading orders into a store of pending orders keeps the ids unique, and
/// the store then holds the ids it held and those of the orders.
proof fn lemma_loaded(store: Seq<PositionView>, incoming: Seq<PositionView>)
    requires
        ids_unique(store),
        all_pending(store),
        all_pending(incoming),
    ensures
        ids_unique(loaded(store, incoming)),
        all_pending(loaded(store, incoming)),
        forall|id: Seq<char>|
            holds_id(loaded(store, incoming), id) <==> (holds_id(store, id) || holds_id(
                incoming,
                id,
            )),
    decreases incoming.len(),
{
    if incoming.len() > 0 {
        let rest = incoming.drop_last();
        assert forall|i: int| 0 <= i < rest.len() implies (#[trigger] rest[i]).is_pending()
            && rest[i].wf() by {
            assert(incoming[i].is_pending() && incoming[i].wf());
        }
        lemma_loaded(store, rest);
        let before = loaded(store, rest);
        let last = incoming.last();
        assert(incoming[incoming.len() - 1].is_pending() && incoming[incoming.len() - 1].wf());
        law_put_is_stored(before, last);
        lemma_put_all_pending(before, last);
        assert forall|id: Seq<char>|
            holds_id(loaded(store, incoming), id) <==> (holds_id(store, id) || holds_id(
                incoming,
                id,
            )) by {
            law_put_ids(before, last, id);
            if holds_id(rest, id) {
                let i = choose|i: int| 0 <= i < rest.len() && #[trigger] rest[i].data.id == id;
                assert(incoming[i].data.id == id);
            }
            if holds_id(incoming, id) && id != last.data.id {
                let i = choose|i: int|
                    0 <= i < incoming.len() && #[trigger] incoming[i].data.id == id;
                assert(rest[i].data.id == id);
            }
            if id == last.data.id {
                assert(incoming[incoming.len() - 1].data.id == id);
            }
        }
    }
}

/// An operation that can be asked keeps what holds of the stores.
pub proof fn law_step_keeps_invariant(state: EngineView, operation: Operation)
    requires
        engine_inv(state),
        admissible(state, operation),
    ensures
        engine_inv(step(state, operation)),
{
    let after = step(state, operation);
    match operation {
        Operation::OpenPosition { position } => if !holds_anywhere(state, position.data.id) {
            lemma_put_sorted(state.active, position);
            law_put_is_stored(state.active, position);
            lemma_put_all_active(state.active, position);
            assert forall|id: Seq<char>|
                !(holds_id(after.active, id) && (holds_id(state.pending, id) || holds_id(
                    state.awaiting,
                    id,
                ))) by {
                law_put_ids(state.active, position, id);
            }
        },
        Operation::OpenPending { order } => if !holds_anywhere(state, order.data.id) {
            lemma_put_sorted(state.pending, order);
            law_put_is_stored(state.pending, order);
            lemma_put_all_pending(state.pending, order);
            assert forall|id: Seq<char>|
                !(holds_id(after.pending, id) && (holds_id(state.active, id) || holds_id(
                    state.awaiting,
                    id,
                ))) by {
                law_put_ids(state.pending, order, id);
            }
        },
        Operation::CancelPending { id } => {
            law_taken_sorted(state.pending, id);
            law_taken_ids(state.pending, id);
            lemma_taken_all_pending(state.pending, id);
        },
        Operation::ClosePosition { id } => {
            law_taken_sorted(state.active, id);
            law_taken_ids(state.active, id);
            lemma_taken_all_active(state.active, id);
        },
        Operation::ChangePosition { position } => {
            if holds_id(state.active, position.data.id) {
                let at = place_of(state.active, position.data.id);
                lemma_sorted_update(state.active, at, position);
                law_update_ids(state.active, at, position);
                lemma_update_all_active(state.active, at, position);
            }
        },
        Operation::Tick { bid_ask, process_id, now } => {
            let query = asset_query(bid_ask);
            law_tick_sorted(state.active, bid_ask, process_id, now);
            law_filter_sorted(
                state.pending,
                |p: PositionView| !(query.matches(p.index_keys()) && p.ready_to_execute(bid_ask)),
            );
            law_loaded_sorted(state.awaiting, activated(state.pending, query, bid_ask));
            law_tick(state.active, bid_ask, process_id, now);
            lemma_tick_all_active(state.active, bid_ask, process_id, now);
            lemma_activated_apart(state.pending, query, bid_ask);
            lemma_loaded(state.awaiting, activated(state.pending, query, bid_ask));
        },
        Operation::ConfirmPending { position } => {
            lemma_put_sorted(state.active, position);
            law_taken_sorted(state.awaiting, position.data.id);
            law_put_is_stored(state.active, position);
            lemma_put_all_active(state.active, position);
            law_taken_ids(state.awaiting, position.data.id);
            lemma_taken_all_pending(state.awaiting, position.data.id);
            assert forall|id: Seq<char>|
                !(holds_id(after.active, id) && (holds_id(state.pending, id) || holds_id(
                    after.awaiting,
                    id,
                ))) by {
                law_put_ids(state.active, position, id);
            }
        },
    }
}

/// After any list of operations every store stands in the ascending order
/// of its ids, no id occurs twice in the stores, in one store or in two, and
/// every active position holds the profit that the pricing formula gives and
/// the sum of its swaps.
pub proof fn law_invariant_after_any_run(state: EngineView, operations: Seq<Operation>)
    requires
        engine_inv(state),
        admissible_run(state, operations),
    ensures
        engine_inv(run(state, operations)),
    decreases operations.len(),
{
    if operations.len() > 0 {
        law_invariant_after_any_run(state, operations.drop_last());
        law_step_keeps_invariant(run(state, operations.drop_last()), operations.last());
    }
}

/// What `open_position` does to the active positions is the step of the
/// operation that opens the position made.
pub proof fn law_open_position_is_a_step(
    command: OpenCommandView,
    id: Seq<char>,
    prices: &ActivePricesCache,
    state: EngineView,
    now: i64,
)
    requires
        make_active(command, id, prices, now, None) is Ok,
    ensures
        open_positions(command, id, prices, state.active, state.pending, state.awaiting, now)
            == step(
            state,
            Operation::OpenPosition { position: make_active(command, id, prices, now, None)->Ok_0 },
        ).active,
{
}

/// What `open_pending` does to the pending orders is the step of the
/// operation that places the order made.
pub proof fn law_open_pending_is_a_step(
    command: OpenPendingCommandView,
    id: Seq<char>,
    prices: &ActivePricesCache,
    state: EngineView,
    now: i64,
)
    requires
        make_pending(command, id, prices, now) is Ok,
    ensures
        pending_orders(command, id, prices, state.active, state.pending, state.awaiting, now)
            == step(
            state,
            Operation::OpenPending { order: make_pending(command, id, prices, now)->Ok_0 },
        ).pending,
{
}

/// The empty engine meets what holds of the stores at all times.
pub proof fn law_empty_engine()
    ensures
        engine_inv(
            EngineView { active: Seq::empty(), pending: Seq::empty(), awaiting: Seq::empty() },
        ),
{
}

} // verus!
