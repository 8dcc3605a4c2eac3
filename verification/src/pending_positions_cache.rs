use vstd::prelude::*;
use crate::active_positions_store::{
    holds_id, lemma_place_of, lemma_put_elements, place_of, put, selected, taken, views,
    ActivePositionsStore,
};
use crate::bid_ask::{BidAskView, EngineBidAsk};
use crate::pending::is_ready_to_execute_pending_position;
use crate::position::{EnginePosition, PositionView};
use crate::query::{EngineCacheQueryBuilder, QueryView};

verus! {

/// Every position is a pending order and well formed.
pub open spec fn all_pending(positions: Seq<PositionView>) -> bool {
    forall|i: int|
        0 <= i < positions.len() ==> (#[trigger] positions[i]).is_pending() && positions[i].wf()
}

/// The orders among `positions` that match `query` and that the quote
/// `bid_ask` activates, in their order.
pub open spec fn activated(
    positions: Seq<PositionView>,
    query: QueryView,
    bid_ask: BidAskView,
) -> Seq<PositionView> {
    positions.filter(
        |p: PositionView| query.matches(p.index_keys()) && p.ready_to_execute(bid_ask),
    )
}

/// The orders among `positions` that go on waiting, in their order.
pub open spec fn waiting(
    positions: Seq<PositionView>,
    query: QueryView,
    bid_ask: BidAskView,
) -> Seq<PositionView> {
    positions.filter(
        |p: PositionView| !(query.matches(p.index_keys()) && p.ready_to_execute(bid_ask)),
    )
}

pub proof fn lemma_put_all_pending(positions: Seq<PositionView>, position: PositionView)
    requires
        all_pending(positions),
        position.is_pending(),
        position.wf(),
    ensures
        all_pending(put(positions, position)),
{
    let after = put(positions, position);
    lemma_put_elements(positions, position);
    assert forall|i: int| 0 <= i < after.len() implies (#[trigger] after[i]).is_pending()
        && after[i].wf() by {
        if after[i] != position {
            let j = choose|j: int| 0 <= j < positions.len() && positions[j] == after[i];
            assert(positions[j].is_pending() && positions[j].wf());
        }
    }
}

pub proof fn lemma_taken_all_pending(positions: Seq<PositionView>, id: Seq<char>)
    requires
        all_pending(positions),
    ensures
        all_pending(taken(positions, id)),
{
    let after = taken(positions, id);
    assert forall|i: int| 0 <= i < after.len() implies (#[trigger] after[i]).is_pending()
        && after[i].wf() by {
        if holds_id(positions, id) {
            let at = place_of(positions, id);
            if i < at {
                assert(after[i] == positions[i]);
            } else {
                assert(after[i] == positions[i + 1]);
            }
        }
    }
}

/// The pending orders.
pub struct PendingPositionsCache {
    pub positions: ActivePositionsStore,
}

impl View for PendingPositionsCache {
    type V = Seq<PositionView>;

    open spec fn view(&self) -> Seq<PositionView> {
        self.positions@
    }
}

impl PendingPositionsCache {
    /// The store is well formed and holds well-formed pending orders only.
    pub open spec fn wf(&self) -> bool {
        self.positions.wf() && all_pending(self@)
    }

    pub fn new() -> (r: Self)
        ensures
            r.wf(),
            r@ == Seq::<PositionView>::empty(),
    {
        Self { positions: ActivePositionsStore::new() }
    }

    pub fn count_positions_in_cache(&self) -> (r: usize)
        ensures
            r == self@.len(),
    {
        self.positions.count_positions()
    }

    /// Puts a pending order into the cache. A cached order with the same id
    /// leaves.
    pub fn add_position(&mut self, position: EnginePosition)
        requires
            old(self).wf(),
            position@.is_pending(),
            position.wf(),
        ensures
            final(self).wf(),
            final(self)@ == put(old(self)@, position@),
    {
        proof {
            lemma_put_all_pending(self@, position@);
        }
        self.positions.add_position(position);
    }

    /// Takes out the order with the given id.
    pub fn remove_position(&mut self, id: &str) -> (r: Option<EnginePosition>)
        requires
            old(self).wf(),
        ensures
            final(self).wf(),
            final(self)@ == taken(old(self)@, id@),
            !holds_id(final(self)@, id@),
            match r {
                Some(p) => holds_id(old(self)@, id@) && p@ == old(self)@[place_of(old(self)@, id@)]
                    && p@.data.id == id@ && p@.is_pending() && p.wf(),
                None => !holds_id(old(self)@, id@),
            },
    {
        proof {
            lemma_taken_all_pending(self@, id@);
        }
        self.positions.remove_position(id)
    }

    /// A copy of the order with the given id.
    pub fn get_position_by_id(&self, id: &str) -> (r: Option<EnginePosition>)
        requires
            self.wf(),
        ensures
            match r {
                Some(p) => holds_id(self@, id@) && p@ == self@[place_of(self@, id@)] && p@.data.id
                    == id@ && p@.is_pending() && p.wf(),
                None => !holds_id(self@, id@),
            },
    {
        match self.positions.find_position(id) {
            Some(i) => {
                proof {
                    self.positions.lemma_ids_unique();
                    lemma_place_of(self@, i as int);
                }
                Some(self.positions.position_at(i).clone())
            },
            None => None,
        }
    }

    /// Copies of the pending orders of an account, in the order of the
    /// cache.
    pub fn get_account_pending_positions(&self, account_id: &str) -> (r: Vec<EnginePosition>)
        requires
            self.wf(),
        ensures
            views(r@) == selected(
                self@,
                QueryView { account: Some(account_id@), ..QueryView::all() },
            ),
    {
        let query = EngineCacheQueryBuilder::new().with_account(account_id);
        self.positions.query_positions(&query)
    }

    /// Takes out, in one step, every order that matches `query` and that
    /// the quote `bid_ask` activates, and hands them out in their order.
    pub fn query_and_select_remove(
        &mut self,
        query: &EngineCacheQueryBuilder,
        bid_ask: &EngineBidAsk,
    ) -> (r: Vec<EnginePosition>)
        requires
            old(self).wf(),
        ensures
            final(self).wf(),
            final(self)@ == waiting(old(self)@, query@, bid_ask@),
            views(r@) == activated(old(self)@, query@, bid_ask@),
            all_pending(views(r@)),
    {
        let mut result: Vec<EnginePosition> = Vec::new();
        let ghost before = self@;
        let ghost go = |p: PositionView|
            query@.matches(p.index_keys()) && p.ready_to_execute(bid_ask@);
        let ghost keep = |p: PositionView|
            !(query@.matches(p.index_keys()) && p.ready_to_execute(bid_ask@));
        let total = self.positions.count_positions();
        let mut done: usize = 0;
        let mut i: usize = 0;
        proof {
            assert(before.take(0) =~= Seq::<PositionView>::empty());
            assert(before.skip(0) =~= before);
            assert(self@ =~= before.take(0).filter(keep) + before.skip(0));
            assert(views(result@) =~= before.take(0).filter(go));
        }
        while done < total
            invariant
                done <= total,
                total == before.len(),
                before == old(self)@,
                self.wf(),
                go == |p: PositionView|
                    query@.matches(p.index_keys()) && p.ready_to_execute(bid_ask@),
                keep == |p: PositionView|
                    !(query@.matches(p.index_keys()) && p.ready_to_execute(bid_ask@)),
                i == before.take(done as int).filter(keep).len(),
                self@ == before.take(done as int).filter(keep) + before.skip(done as int),
                views(result@) == before.take(done as int).filter(go),
                all_pending(views(result@)),
            decreases total - done,
        {
            let ghost kept = before.take(done as int).filter(keep);
            let ghost gone = views(result@);
            let ghost current = before[done as int];
            proof {
                assert(self@[i as int] == current);
                assert(before.take(done + 1) =~= before.take(done as int).push(current));
                before.take(done as int).lemma_filter_push(current, keep);
                before.take(done as int).lemma_filter_push(current, go);
                assert(before.skip(done as int).skip(1) =~= before.skip(done + 1));
            }
            let selected = self.positions.matches_at(i, query)
                && is_ready_to_execute_pending_position(self.positions.position_at(i), bid_ask);
            if selected {
                let position = self.positions.remove_at(i);
                proof {
                    assert(self@ =~= kept + before.skip(done + 1));
                    assert(all_pending(self@)) by {
                        assert forall|j: int| 0 <= j < self@.len() implies (#[trigger] self@[j]).is_pending()
                            && self@[j].wf() by {
                            if j < i {
                                assert(self@[j] == (kept + before.skip(done as int))[j]);
                            } else {
                                assert(self@[j] == (kept + before.skip(done as int))[j + 1]);
                            }
                        }
                    }
                }
                result.push(position);
                proof {
                    assert(views(result@) =~= gone.push(current));
                    assert forall|j: int| 0 <= j < views(result@).len() implies (#[trigger] views(
                        result@,
                    )[j]).is_pending() && views(result@)[j].wf() by {
                        if j < gone.len() {
                            assert(views(result@)[j] == gone[j]);
                        }
                    }
                }
            } else {
                proof {
                    assert(self@ =~= kept.push(current) + before.skip(done + 1));
                }
                i = i + 1;
            }
            done = done + 1;
        }
        proof {
            assert(before.take(done as int) =~= before);
            assert(before.skip(done as int) =~= Seq::<PositionView>::empty());
            assert(self@ =~= before.filter(keep));
        }
        result
    }
}

} // verus!
