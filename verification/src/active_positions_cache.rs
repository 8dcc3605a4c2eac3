use vstd::prelude::*;
use crate::active_positions_store::{
    holds_id, lemma_put_elements, loaded, place_of, put, selected, taken, views,
    ActivePositionsStore,
};
use crate::bid_ask::{BidAskView, EngineBidAsk};
use crate::dto::ExecutionClosePositionReason;
use crate::events::{
    case_views, CaseView, MarginCallHitView, PositionManagerPositionMarginCallHit,
    PositionsReturnToppingUp, PositionsToCloseDto, UpdatePositionCase,
};
use crate::position::{ActiveStateView, EnginePosition, PositionView};
use crate::query::{EngineCacheQueryBuilder, QueryView};

verus! {

impl PositionView {
    /// Whether the margin call is raised now: nothing closes the position,
    /// its margin-call level is reached, and it is not flagged yet.
    pub open spec fn raises_margin_call(self) -> bool {
        self.close_reason() is None && self.margin_call_reached()
            && !self.active().margin_call_hit
    }

    /// The position with its margin-call flag set where the margin call is
    /// raised now.
    pub open spec fn flagged(self) -> PositionView {
        if self.raises_margin_call() {
            self.with_active(ActiveStateView { margin_call_hit: true, ..self.active() })
        } else {
            self
        }
    }

    /// What the engine makes of the position as it stands: it is closed for
    /// the first reason that holds; else its margin call is raised, once;
    /// else its topping-up reserve is handed back where it is no longer
    /// needed.
    pub open spec fn tick_case(self) -> Option<CaseView> {
        match self.close_reason() {
            Some(close_reason) => Some(
                CaseView::Close {
                    trader_id: self.data.trader_id,
                    account_id: self.data.account_id,
                    id: self.data.id,
                    close_reason,
                },
            ),
            None => if self.raises_margin_call() {
                Some(
                    CaseView::MarginCallHit(
                        MarginCallHitView {
                            position_id: self.data.id,
                            trader_id: self.data.trader_id,
                            account_id: self.data.account_id,
                            margin_call_percent: self.data.margin_call_percent->0,
                            topping_up_amount: self.active().topping_up_reserve,
                        },
                    ),
                )
            } else if self.topping_up_refundable() {
                Some(
                    CaseView::ReturnToppingUp {
                        id: self.data.id,
                        trader_id: self.data.trader_id,
                        account_id: self.data.account_id,
                        topping_up_amount: self.active().topping_up_reserve,
                    },
                )
            } else {
                None
            },
        }
    }

    /// The position after a quote: its rates and profit follow the quote,
    /// and its margin-call flag is set where the margin call is raised.
    pub open spec fn after_tick(self, bid_ask: BidAskView) -> PositionView {
        self.after_bid_ask(bid_ask).flagged()
    }

    /// What the engine makes of the position once it has taken in a quote.
    pub open spec fn tick_outcome(self, bid_ask: BidAskView) -> Option<CaseView> {
        self.after_bid_ask(bid_ask).tick_case()
    }
}

/// The value of an optional case.
pub open spec fn view_case(case: Option<UpdatePositionCase>) -> Option<CaseView> {
    match case {
        Some(c) => Some(c@),
        None => None,
    }
}

/// Takes a quote into one position and says what is to be done with it.
pub fn update_position_case(position: &mut EnginePosition, bid_ask: &EngineBidAsk) -> (r: Option<
    UpdatePositionCase,
>)
    requires
        old(position)@.is_active(),
        old(position).wf(),
        bid_ask.wf(),
    ensures
        final(position)@ == old(position)@.after_tick(bid_ask@),
        final(position).wf(),
        view_case(r) == old(position)@.tick_outcome(bid_ask@),
{
    position.handle_bid_ask(bid_ask);
    let ghost repriced = position@;
    if let Some(close_reason) = position.get_close_reason() {
        return Some(
            UpdatePositionCase::Close(
                PositionsToCloseDto {
                    trader_id: position.data.trader_id.clone(),
                    account_id: position.data.account_id.clone(),
                    id: position.data.id.clone(),
                    close_reason,
                },
            ),
        );
    }
    if let Some(margin_call_percent) = position.data.margin_call_percent {
        if position.update_margin_call_hit() {
            let topping_up_amount = position.get_active_state().topping_up_reserve;
            return Some(
                UpdatePositionCase::MarginCallHit(
                    PositionManagerPositionMarginCallHit {
                        position_id: position.data.id.clone(),
                        trader_id: position.data.trader_id.clone(),
                        account_id: position.data.account_id.clone(),
                        margin_call_percent,
                        topping_up_amount,
                    },
                ),
            );
        }
    }
    assert(position@ == repriced);
    if position.can_return_topping_up_funds() {
        let topping_up_amount = position.get_active_state().topping_up_reserve;
        return Some(
            UpdatePositionCase::ReturnToppingUp(
                PositionsReturnToppingUp {
                    id: position.data.id.clone(),
                    trader_id: position.data.trader_id.clone(),
                    account_id: position.data.account_id.clone(),
                    topping_up_amount,
                },
            ),
        );
    }
    None
}

/// Every position is active and well formed.
pub open spec fn all_active(positions: Seq<PositionView>) -> bool {
    forall|i: int|
        0 <= i < positions.len() ==> (#[trigger] positions[i]).is_active() && positions[i].wf()
}

/// The positions after the quote `bid_ask` was taken into those that match
/// `query`.
pub open spec fn ticked(
    positions: Seq<PositionView>,
    query: QueryView,
    bid_ask: BidAskView,
) -> Seq<PositionView> {
    positions.map_values(
        |p: PositionView|
            if query.matches(p.index_keys()) {
                p.after_tick(bid_ask)
            } else {
                p
            },
    )
}

/// What the quote `bid_ask` makes of the positions that match `query`, in
/// the order of the positions.
pub open spec fn tick_cases(
    positions: Seq<PositionView>,
    query: QueryView,
    bid_ask: BidAskView,
) -> Seq<CaseView> {
    positions.filter_map(
        |p: PositionView|
            if query.matches(p.index_keys()) {
                p.tick_outcome(bid_ask)
            } else {
                None
            },
    )
}

pub proof fn lemma_put_all_active(positions: Seq<PositionView>, position: PositionView)
    requires
        all_active(positions),
        position.is_active(),
        position.wf(),
    ensures
        all_active(put(positions, position)),
{
    let after = put(positions, position);
    lemma_put_elements(positions, position);
    assert forall|i: int| 0 <= i < after.len() implies (#[trigger] after[i]).is_active()
        && after[i].wf() by {
        if after[i] != position {
            let j = choose|j: int| 0 <= j < positions.len() && positions[j] == after[i];
            assert(positions[j].is_active() && positions[j].wf());
        }
    }
}

pub proof fn lemma_taken_all_active(positions: Seq<PositionView>, id: Seq<char>)
    requires
        all_active(positions),
    ensures
        all_active(taken(positions, id)),
{
    let after = taken(positions, id);
    assert forall|i: int| 0 <= i < after.len() implies (#[trigger] after[i]).is_active()
        && after[i].wf() by {
        if holds_id(positions, id) {
            let at = place_of(positions, id);
            if i < at {
                assert(after[i] == positions[i]);
            } else {
                assert(after[i] == positions[i + 1]);
            }
        }
    }
}

pub proof fn lemma_update_all_active(positions: Seq<PositionView>, at: int, position: PositionView)
    requires
        all_active(positions),
        0 <= at < positions.len(),
        position.is_active(),
        position.wf(),
    ensures
        all_active(positions.update(at, position)),
{
    let after = positions.update(at, position);
    assert forall|i: int| 0 <= i < after.len() implies (#[trigger] after[i]).is_active()
        && after[i].wf() by {
        if i != at {
            assert(after[i] == positions[i]);
        }
    }
}

/// The ids and reasons of a list of positions to close.
pub open spec fn named(list: Seq<(String, ExecutionClosePositionReason)>) -> Seq<
    (Seq<char>, ExecutionClosePositionReason),
> {
    list.map_values(|e: (String, ExecutionClosePositionReason)| (e.0@, e.1))
}

/// The values of a list of positions handed out with their reasons.
pub open spec fn handed_out(list: Seq<(EnginePosition, ExecutionClosePositionReason)>) -> Seq<
    (PositionView, ExecutionClosePositionReason),
> {
    list.map_values(|e: (EnginePosition, ExecutionClosePositionReason)| (e.0@, e.1))
}

/// What is left of `positions` and what is handed out when the positions
/// named are taken out in turn.
pub open spec fn closed_out(
    positions: Seq<PositionView>,
    names: Seq<(Seq<char>, ExecutionClosePositionReason)>,
) -> (Seq<PositionView>, Seq<(PositionView, ExecutionClosePositionReason)>)
    decreases names.len(),
{
    if names.len() == 0 {
        (positions, Seq::empty())
    } else {
        let before = closed_out(positions, names.drop_last());
        let id = names.last().0;
        if holds_id(before.0, id) {
            (taken(before.0, id), before.1.push((before.0[place_of(before.0, id)], names.last().1)))
        } else {
            before
        }
    }
}

/// The active positions.
pub struct ActivePositionsCache {
    pub positions: ActivePositionsStore,
}

impl View for ActivePositionsCache {
    type V = Seq<PositionView>;

    open spec fn view(&self) -> Seq<PositionView> {
        self.positions@
    }
}

impl ActivePositionsCache {
    /// The store is well formed and holds active, well-formed positions
    /// only.
    pub open spec fn wf(&self) -> bool {
        self.positions.wf() && all_active(self@)
    }

    pub fn new() -> (r: Self)
        ensures
            r.wf(),
            r@ == Seq::<PositionView>::empty(),
    {
        Self { positions: ActivePositionsStore::new() }
    }

    /// Puts each of `positions` into the cache, in turn.
    pub fn load_positions(&mut self, positions: Vec<EnginePosition>)
        requires
            old(self).wf(),
            all_active(views(positions@)),
        ensures
            final(self).wf(),
            final(self)@ == loaded(old(self)@, views(positions@)),
    {
        let ghost incoming = views(positions@);
        let mut i: usize = 0;
        proof {
            assert(incoming.take(0) =~= Seq::<PositionView>::empty());
        }
        while i < positions.len()
            invariant
                i <= positions@.len(),
                incoming == views(positions@),
                all_active(incoming),
                self.wf(),
                self@ == loaded(old(self)@, incoming.take(i as int)),
            decreases positions@.len() - i,
        {
            let position = positions[i].clone();
            proof {
                assert(position@ == incoming[i as int]);
                assert(incoming.take(i + 1).drop_last() =~= incoming.take(i as int));
                assert(incoming.take(i + 1).last() == incoming[i as int]);
            }
            self.add_position(position);
            i = i + 1;
        }
        proof {
            assert(incoming.take(i as int) =~= incoming);
        }
    }

    pub fn count_positions_in_cache(&self) -> (r: usize)
        ensures
            r == self@.len(),
    {
        self.positions.count_positions()
    }

    /// Copies of the active positions of an account, in the order of the
    /// cache.
    pub fn get_account_active_positions(&self, account_id: &str) -> (r: Vec<EnginePosition>)
        requires
            self.wf(),
        ensures
            views(r@) == selected(
                self@,
                QueryView { account: Some(account_id@), ..QueryView::all() },
            ),
    {
        let query = EngineCacheQueryBuilder::new().with_account(account_id);
        self.positions.query_positions(&query)
    }

    /// Puts an active position into the cache. A cached position with the
    /// same id leaves.
    pub fn add_position(&mut self, position: EnginePosition)
        requires
            old(self).wf(),
            position@.is_active(),
            position.wf(),
        ensures
            final(self).wf(),
            final(self)@ == put(old(self)@, position@),
    {
        proof {
            lemma_put_all_active(self@, position@);
        }
        self.positions.add_position(position);
    }

    /// Puts `position` in the place of the cached position with its id.
    /// Answers whether there was one; if not, nothing changes.
    pub fn update_position(&mut self, position: EnginePosition) -> (r: bool)
        requires
            old(self).wf(),
            position@.is_active(),
            position.wf(),
            holds_id(old(self)@, position@.data.id) ==> old(self)@[place_of(
                old(self)@,
                position@.data.id,
            )].index_keys() == position@.index_keys(),
        ensures
            final(self).wf(),
            r == holds_id(old(self)@, position@.data.id),
            r ==> final(self)@ == old(self)@.update(
                place_of(old(self)@, position@.data.id),
                position@,
            ),
            !r ==> final(self)@ == old(self)@,
    {
        match self.positions.find_position(position.data.id.as_str()) {
            Some(i) => {
                proof {
                    self.positions.lemma_ids_unique();
                    crate::active_positions_store::lemma_place_of(self@, i as int);
                }
                self.positions.replace_at(i, position);
                true
            },
            None => false,
        }
    }

    /// Takes out the position with the given id.
    pub fn remove_position(&mut self, id: &str) -> (r: Option<EnginePosition>)
        requires
            old(self).wf(),
        ensures
            final(self).wf(),
            final(self)@ == taken(old(self)@, id@),
            !holds_id(final(self)@, id@),
            match r {
                Some(p) => holds_id(old(self)@, id@) && p@ == old(self)@[place_of(old(self)@, id@)]
                    && p@.data.id == id@ && p@.is_active() && p.wf(),
                None => !holds_id(old(self)@, id@),
            },
    {
        proof {
            lemma_taken_all_active(self@, id@);
        }
        self.positions.remove_position(id)
    }

    /// A copy of the position with the given id.
    pub fn get_position_by_id(&self, id: &str) -> (r: Option<EnginePosition>)
        requires
            self.wf(),
        ensures
            match r {
                Some(p) => holds_id(self@, id@) && p@ == self@[place_of(self@, id@)] && p@.data.id
                    == id@ && p@.is_active() && p.wf(),
                None => !holds_id(self@, id@),
            },
    {
        match self.positions.find_position(id) {
            Some(i) => {
                proof {
                    self.positions.lemma_ids_unique();
                    crate::active_positions_store::lemma_place_of(self@, i as int);
                }
                Some(self.positions.position_at(i).clone())
            },
            None => None,
        }
    }

    /// Closes the positions named, in their order: each leaves the cache and
    /// is handed out as it was, with the reason given for it. A position that
    /// the cache does not hold is passed over.
    pub fn close_positions(
        &mut self,
        positions_close_reason: Vec<(String, ExecutionClosePositionReason)>,
    ) -> (r: Vec<(EnginePosition, ExecutionClosePositionReason)>)
        requires
            old(self).wf(),
        ensures
            final(self).wf(),
            final(self)@ == closed_out(old(self)@, named(positions_close_reason@)).0,
            handed_out(r@) == closed_out(old(self)@, named(positions_close_reason@)).1,
    {
        let ghost all = named(positions_close_reason@);
        let mut result: Vec<(EnginePosition, ExecutionClosePositionReason)> = Vec::new();
        let mut i: usize = 0;
        proof {
            assert(all.take(0) =~= Seq::<(Seq<char>, ExecutionClosePositionReason)>::empty());
            assert(handed_out(result@) =~= Seq::<
                (PositionView, ExecutionClosePositionReason),
            >::empty());
        }
        while i < positions_close_reason.len()
            invariant
                i <= positions_close_reason@.len(),
                all == named(positions_close_reason@),
                self.wf(),
                self@ == closed_out(old(self)@, all.take(i as int)).0,
                handed_out(result@) == closed_out(old(self)@, all.take(i as int)).1,
            decreases positions_close_reason@.len() - i,
        {
            let ghost before = handed_out(result@);
            proof {
                assert(all.take(i + 1).drop_last() =~= all.take(i as int));
                assert(all.take(i + 1).last() == all[i as int]);
            }
            let reason = positions_close_reason[i].1;
            match self.remove_position(positions_close_reason[i].0.as_str()) {
                Some(position) => {
                    result.push((position, reason));
                    proof {
                        assert(handed_out(result@) =~= before.push((position@, reason)));
                    }
                },
                None => {},
            }
            i = i + 1;
        }
        proof {
            assert(all.take(i as int) =~= all);
        }
        result
    }

    /// Takes a quote into every position that matches `query` and says what
    /// is to be done with each.
    pub fn update_rate(&mut self, bid_ask: &EngineBidAsk, query: &EngineCacheQueryBuilder) -> (r:
        Vec<UpdatePositionCase>)
        requires
            old(self).wf(),
            bid_ask.wf(),
        ensures
            final(self).wf(),
            final(self)@ == ticked(old(self)@, query@, bid_ask@),
            case_views(r@) == tick_cases(old(self)@, query@, bid_ask@),
    {
        let mut result: Vec<UpdatePositionCase> = Vec::new();
        let ghost step = |p: PositionView|
            if query@.matches(p.index_keys()) {
                p.after_tick(bid_ask@)
            } else {
                p
            };
        let ghost outcome = |p: PositionView|
            if query@.matches(p.index_keys()) {
                p.tick_outcome(bid_ask@)
            } else {
                None
            };
        let count = self.positions.count_positions();
        let mut i: usize = 0;
        proof {
            assert(old(self)@.take(0) =~= Seq::<PositionView>::empty());
            assert(case_views(result@) =~= old(self)@.take(0).filter_map(outcome));
        }
        while i < count
            invariant
                i <= count,
                count == old(self)@.len(),
                self@.len() == count,
                self.wf(),
                bid_ask.wf(),
                all_active(old(self)@),
                step == |p: PositionView|
                    if query@.matches(p.index_keys()) {
                        p.after_tick(bid_ask@)
                    } else {
                        p
                    },
                outcome == |p: PositionView|
                    if query@.matches(p.index_keys()) {
                        p.tick_outcome(bid_ask@)
                    } else {
                        None
                    },
                forall|j: int| 0 <= j < i ==> self@[j] == step(old(self)@[j]),
                forall|j: int| i <= j < count ==> self@[j] == old(self)@[j],
                case_views(result@) == old(self)@.take(i as int).filter_map(outcome),
            decreases count - i,
        {
            let ghost before = case_views(result@);
            let ghost stored = self@;
            if self.positions.matches_at(i, query) {
                let position = self.positions.position_at_mut(i);
                let case = update_position_case(position, bid_ask);
                match case {
                    Some(c) => {
                        result.push(c);
                        assert(case_views(result@) =~= before.push(outcome(old(self)@[i as int])->0));
                    },
                    None => {},
                }
            }
            proof {
                old(self)@.lemma_filter_map_take_succ(outcome, i as int);
                assert forall|j: int| 0 <= j < self@.len() implies (#[trigger] self@[j]).is_active()
                    && self@[j].wf() by {
                    if j != i {
                        assert(self@[j] == stored[j]);
                    }
                }
            }
            i = i + 1;
        }
        proof {
            assert(old(self)@.take(i as int) =~= old(self)@);
            assert(self@ =~= ticked(old(self)@, query@, bid_ask@));
        }
        result
    }
}

} // verus!
