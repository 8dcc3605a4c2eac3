use vstd::prelude::*;
use crate::id_order::{
    id_precedes, lemma_precedes_irreflexive, lemma_precedes_total, lemma_precedes_transitive,
    precedes,
};
use crate::position::{EnginePosition, PositionView};
use crate::positions_store_index::{
    filed, filed_if_set, with_id, without_id, IdSets, IndexKeys, IndexView, PositionsStoreIndex,
};
use crate::query::{meets, EngineCacheQueryBuilder, QueryView};

verus! {

/// Whether one of `positions` has the id `id`.
pub open spec fn holds_id(positions: Seq<PositionView>, id: Seq<char>) -> bool {
    exists|i: int| 0 <= i < positions.len() && #[trigger] positions[i].data.id == id
}

/// No two of `positions` have the same id.
pub open spec fn ids_unique(positions: Seq<PositionView>) -> bool {
    forall|i: int, j: int|
        0 <= i < j < positions.len() ==> #[trigger] positions[i].data.id
            != #[trigger] positions[j].data.id
}

/// The place of the position with the id `id`, where one of `positions` has
/// it.
pub open spec fn place_of(positions: Seq<PositionView>, id: Seq<char>) -> int {
    choose|i: int| 0 <= i < positions.len() && #[trigger] positions[i].data.id == id
}

/// The positions stand in the ascending order of their ids.
pub open spec fn sorted(positions: Seq<PositionView>) -> bool {
    forall|i: int, j: int|
        0 <= i < j < positions.len() ==> precedes(
            #[trigger] positions[i].data.id,
            #[trigger] positions[j].data.id,
        )
}

/// How many of `positions` have an id that comes before `id`.
pub open spec fn rank(positions: Seq<PositionView>, id: Seq<char>) -> int
    decreases positions.len(),
{
    if positions.len() == 0 {
        0
    } else {
        rank(positions.drop_last(), id) + if precedes(positions.last().data.id, id) {
            1int
        } else {
            0int
        }
    }
}

/// `positions` after `position` was put in: a position with the same id
/// leaves, and the new one takes the place that the order of ids gives it.
pub open spec fn put(positions: Seq<PositionView>, position: PositionView) -> Seq<PositionView> {
    let rest = taken(positions, position.data.id);
    rest.insert(rank(rest, position.data.id), position)
}

/// `positions` without the position with the id `id`.
pub open spec fn taken(positions: Seq<PositionView>, id: Seq<char>) -> Seq<PositionView> {
    if holds_id(positions, id) {
        positions.remove(place_of(positions, id))
    } else {
        positions
    }
}

/// `store` after each of `incoming` was put in, in turn.
pub open spec fn loaded(store: Seq<PositionView>, incoming: Seq<PositionView>) -> Seq<PositionView>
    decreases incoming.len(),
{
    if incoming.len() == 0 {
        store
    } else {
        put(loaded(store, incoming.drop_last()), incoming.last())
    }
}

/// The positions that match a query, in their order.
pub open spec fn selected(positions: Seq<PositionView>, query: QueryView) -> Seq<PositionView> {
    positions.filter(|p: PositionView| query.matches(p.index_keys()))
}

/// The values of a list of positions.
pub open spec fn views(positions: Seq<EnginePosition>) -> Seq<PositionView> {
    positions.map_values(|p: EnginePosition| p@)
}

/// Positions in the order of their ids have different ids.
pub proof fn lemma_sorted_unique(positions: Seq<PositionView>)
    requires
        sorted(positions),
    ensures
        ids_unique(positions),
{
    assert forall|i: int, j: int| 0 <= i < j < positions.len() implies #[trigger] positions[i].data.id
        != #[trigger] positions[j].data.id by {
        assert(precedes(positions[i].data.id, positions[j].data.id));
        lemma_precedes_irreflexive(positions[i].data.id);
    }
}

pub proof fn lemma_rank_bounds(positions: Seq<PositionView>, id: Seq<char>)
    ensures
        0 <= rank(positions, id) <= positions.len(),
    decreases positions.len(),
{
    if positions.len() > 0 {
        lemma_rank_bounds(positions.drop_last(), id);
    }
}

/// In positions that stand in the order of their ids, those whose id comes
/// before `id` are the first `rank` of them.
pub proof fn lemma_rank_splits(positions: Seq<PositionView>, id: Seq<char>)
    requires
        sorted(positions),
    ensures
        0 <= rank(positions, id) <= positions.len(),
        forall|j: int|
            0 <= j < positions.len() ==> (j < rank(positions, id) <==> precedes(
                #[trigger] positions[j].data.id,
                id,
            )),
    decreases positions.len(),
{
    lemma_rank_bounds(positions, id);
    if positions.len() > 0 {
        let rest = positions.drop_last();
        let n = positions.len() - 1;
        assert forall|i: int, j: int| 0 <= i < j < rest.len() implies precedes(
            #[trigger] rest[i].data.id,
            #[trigger] rest[j].data.id,
        ) by {
            assert(precedes(positions[i].data.id, positions[j].data.id));
        }
        lemma_rank_splits(rest, id);
        assert forall|j: int| 0 <= j < positions.len() implies (j < rank(positions, id)
            <==> precedes(#[trigger] positions[j].data.id, id)) by {
            if j < n {
                assert(rest[j].data.id == positions[j].data.id);
                if precedes(positions[n].data.id, id) {
                    assert(precedes(positions[j].data.id, positions[n].data.id));
                    lemma_precedes_transitive(positions[j].data.id, positions[n].data.id, id);
                }
            } else {
                if precedes(positions[n].data.id, id) && n > 0 {
                    assert(precedes(positions[n - 1].data.id, positions[n].data.id));
                    lemma_precedes_transitive(positions[n - 1].data.id, positions[n].data.id, id);
                    assert(rest[n - 1].data.id == positions[n - 1].data.id);
                    assert(n - 1 < rank(rest, id));
                }
            }
        }
    }
}

/// Taking one position out leaves the others in their order.
pub proof fn lemma_sorted_remove(positions: Seq<PositionView>, at: int)
    requires
        sorted(positions),
        0 <= at < positions.len(),
    ensures
        sorted(positions.remove(at)),
{
    let rest = positions.remove(at);
    assert forall|i: int, j: int| 0 <= i < j < rest.len() implies precedes(
        #[trigger] rest[i].data.id,
        #[trigger] rest[j].data.id,
    ) by {
        let i2 = if i < at {
            i
        } else {
            i + 1
        };
        let j2 = if j < at {
            j
        } else {
            j + 1
        };
        assert(precedes(positions[i2].data.id, positions[j2].data.id));
    }
}

/// Changing a position in its place, without changing its id, leaves the
/// order as it is.
pub proof fn lemma_sorted_update(positions: Seq<PositionView>, at: int, position: PositionView)
    requires
        sorted(positions),
        0 <= at < positions.len(),
        position.data.id == positions[at].data.id,
    ensures
        sorted(positions.update(at, position)),
{
    let after = positions.update(at, position);
    assert forall|i: int, j: int| 0 <= i < j < after.len() implies precedes(
        #[trigger] after[i].data.id,
        #[trigger] after[j].data.id,
    ) by {
        assert(precedes(positions[i].data.id, positions[j].data.id));
    }
}

/// What `put` gives: the new position stands at its rank among the others,
/// every other position stays, and nothing else comes in.
pub proof fn lemma_put_elements(positions: Seq<PositionView>, position: PositionView)
    ensures
        put(positions, position).len() == taken(positions, position.data.id).len() + 1,
        0 <= rank(taken(positions, position.data.id), position.data.id) < put(
            positions,
            position,
        ).len(),
        put(positions, position)[rank(taken(positions, position.data.id), position.data.id)]
            == position,
        forall|i: int|
            0 <= i < put(positions, position).len() ==> (#[trigger] put(positions, position)[i])
                == position || positions.contains(put(positions, position)[i]),
        forall|j: int|
            0 <= j < positions.len() && (#[trigger] positions[j]).data.id != position.data.id
                ==> put(positions, position).contains(positions[j]),
{
    let id = position.data.id;
    let rest = taken(positions, id);
    let k = rank(rest, id);
    let out = put(positions, position);
    lemma_rank_bounds(rest, id);
    assert forall|i: int| 0 <= i < rest.len() implies positions.contains(#[trigger] rest[i]) by {
        if holds_id(positions, id) {
            let at = place_of(positions, id);
            if i < at {
                assert(positions[i] == rest[i]);
            } else {
                assert(positions[i + 1] == rest[i]);
            }
        } else {
            assert(positions[i] == rest[i]);
        }
    }
    assert forall|i: int| 0 <= i < out.len() implies (#[trigger] out[i]) == position
        || positions.contains(out[i]) by {
        if i < k {
            assert(out[i] == rest[i]);
        } else if i > k {
            assert(out[i] == rest[i - 1]);
        }
    }
    assert forall|j: int|
        0 <= j < positions.len() && (#[trigger] positions[j]).data.id
            != id implies out.contains(positions[j]) by {
        let r = if holds_id(positions, id) && j > place_of(positions, id) {
            j - 1
        } else {
            j
        };
        assert(rest[r] == positions[j]);
        if r < k {
            assert(out[r] == positions[j]);
        } else {
            assert(out[r + 1] == positions[j]);
        }
    }
}

/// Putting a position among positions that stand in the order of their ids
/// leaves them in that order.
pub proof fn lemma_put_sorted(positions: Seq<PositionView>, position: PositionView)
    requires
        sorted(positions),
    ensures
        sorted(put(positions, position)),
{
    let id = position.data.id;
    let rest = taken(positions, id);
    let k = rank(rest, id);
    let out = put(positions, position);
    lemma_sorted_unique(positions);
    if holds_id(positions, id) {
        lemma_sorted_remove(positions, place_of(positions, id));
    }
    lemma_rank_splits(rest, id);
    assert forall|i: int| 0 <= i < rest.len() implies #[trigger] rest[i].data.id != id by {
        if holds_id(positions, id) {
            let at = place_of(positions, id);
            if i < at {
                assert(positions[i].data.id != positions[at].data.id);
            } else {
                assert(positions[at].data.id != positions[i + 1].data.id);
            }
        } else {
            assert(positions[i].data.id != id);
        }
    }
    assert forall|i: int, j: int| 0 <= i < j < out.len() implies precedes(
        #[trigger] out[i].data.id,
        #[trigger] out[j].data.id,
    ) by {
        if j < k {
            assert(precedes(rest[i].data.id, rest[j].data.id));
        } else if j == k {
            assert(precedes(rest[i].data.id, id));
        } else if i == k {
            assert(!precedes(rest[j - 1].data.id, id));
            assert(rest[j - 1].data.id != id);
            lemma_precedes_total(id, rest[j - 1].data.id);
        } else if i < k {
            assert(precedes(rest[i].data.id, rest[j - 1].data.id));
        } else {
            assert(precedes(rest[i - 1].data.id, rest[j - 1].data.id));
        }
    }
}

/// The six indices are numbered; this is the key of index `kind`.
spec fn key_of(kind: int, keys: IndexKeys) -> Option<Seq<char>> {
    if kind == 0 {
        keys.trader
    } else if kind == 1 {
        keys.account
    } else if kind == 2 {
        keys.instrument
    } else if kind == 3 {
        keys.base
    } else if kind == 4 {
        keys.quote
    } else {
        keys.collateral
    }
}

spec fn sets_of(kind: int, index: IndexView) -> IdSets {
    if kind == 0 {
        index.traders
    } else if kind == 1 {
        index.accounts
    } else if kind == 2 {
        index.instruments
    } else if kind == 3 {
        index.bases
    } else if kind == 4 {
        index.quotes
    } else {
        index.collaterals
    }
}

/// An id with the key it is filed under in one index.
type Entry = (Seq<char>, Option<Seq<char>>);

spec fn kind_entries(positions: Seq<PositionView>, kind: int) -> Seq<Entry> {
    positions.map_values(|p: PositionView| (p.data.id, key_of(kind, p.index_keys())))
}

/// An index holds an id under a key exactly if an entry says so.
spec fn entries_consistent(entries: Seq<Entry>, sets: IdSets) -> bool {
    forall|k: Seq<char>, id: Seq<char>| #[trigger]
        filed(sets, k, id) <==> entries.contains((id, Some(k)))
}

spec fn entry_ids_unique(entries: Seq<Entry>) -> bool {
    forall|i: int, j: int|
        0 <= i < entries.len() && 0 <= j < entries.len() && i != j ==> entries[i].0
            != entries[j].0
}

/// Every index holds exactly the ids of the stored positions, each under
/// the key of its position: no id is orphaned and none is missing.
spec fn consistent(positions: Seq<PositionView>, index: IndexView) -> bool {
    forall|kind: int|
        0 <= kind < 6 ==> entries_consistent(
            #[trigger] kind_entries(positions, kind),
            sets_of(kind, index),
        )
}

proof fn lemma_entries_insert(entries: Seq<Entry>, sets: IdSets, at: int, entry: Entry)
    requires
        entries_consistent(entries, sets),
        0 <= at <= entries.len(),
    ensures
        entries_consistent(entries.insert(at, entry), with_id(sets, entry.1, entry.0)),
{
    let entries2 = entries.insert(at, entry);
    let sets2 = with_id(sets, entry.1, entry.0);
    assert forall|k: Seq<char>, id: Seq<char>| #[trigger]
        filed(sets2, k, id) <==> entries2.contains((id, Some(k))) by {
        let e = (id, Some(k));
        assert(filed(sets, k, id) <==> entries.contains(e));
        if entries.contains(e) {
            let i = choose|i: int| 0 <= i < entries.len() && entries[i] == e;
            if i < at {
                assert(entries2[i] == e);
            } else {
                assert(entries2[i + 1] == e);
            }
        }
        if entries2.contains(e) {
            let i = choose|i: int| 0 <= i < entries2.len() && entries2[i] == e;
            if i < at {
                assert(entries[i] == e);
            } else if i > at {
                assert(entries[i - 1] == e);
            }
        }
        assert(entries2[at] == entry);
    }
}

proof fn lemma_entries_remove(entries: Seq<Entry>, sets: IdSets, at: int)
    requires
        entries_consistent(entries, sets),
        entry_ids_unique(entries),
        0 <= at < entries.len(),
    ensures
        entries_consistent(entries.remove(at), without_id(sets, entries[at].1, entries[at].0)),
{
    let entries2 = entries.remove(at);
    let gone = entries[at];
    let sets2 = without_id(sets, gone.1, gone.0);
    assert forall|k: Seq<char>, id: Seq<char>| #[trigger]
        filed(sets2, k, id) <==> entries2.contains((id, Some(k))) by {
        let e = (id, Some(k));
        assert(filed(sets, k, id) <==> entries.contains(e));
        if entries.contains(e) {
            let i = choose|i: int| 0 <= i < entries.len() && entries[i] == e;
            if i < at {
                assert(entries2[i] == e);
            } else if i > at {
                assert(entries2[i - 1] == e);
            }
        }
        if entries2.contains(e) {
            let i = choose|i: int| 0 <= i < entries2.len() && entries2[i] == e;
            if i < at {
                assert(entries[i] == e);
            } else {
                assert(entries[i + 1] == e);
            }
        }
        if gone.1 is Some && filed(sets, gone.1->0, gone.0) {
            assert(entries.contains((gone.0, gone.1)));
        }
    }
}

proof fn lemma_entries_match(entries: Seq<Entry>, sets: IdSets, at: int, key: Seq<char>)
    requires
        entries_consistent(entries, sets),
        entry_ids_unique(entries),
        0 <= at < entries.len(),
    ensures
        filed(sets, key, entries[at].0) <==> entries[at].1 == Some(key),
{
    let e = (entries[at].0, Some(key));
    assert(filed(sets, key, entries[at].0) <==> entries.contains(e));
    if entries.contains(e) {
        let i = choose|i: int| 0 <= i < entries.len() && entries[i] == e;
        assert(i == at);
    }
    if entries[at].1 == Some(key) {
        assert(entries[at] == e);
    }
}

proof fn lemma_entry_ids(positions: Seq<PositionView>, kind: int)
    requires
        ids_unique(positions),
    ensures
        entry_ids_unique(kind_entries(positions, kind)),
{
    let entries = kind_entries(positions, kind);
    assert forall|i: int, j: int|
        0 <= i < entries.len() && 0 <= j < entries.len() && i != j implies entries[i].0
        != entries[j].0 by {
        if i < j {
            assert(positions[i].data.id != positions[j].data.id);
        } else {
            assert(positions[j].data.id != positions[i].data.id);
        }
    }
}

proof fn lemma_consistent_insert(
    positions: Seq<PositionView>,
    index: IndexView,
    at: int,
    p: PositionView,
)
    requires
        consistent(positions, index),
        0 <= at <= positions.len(),
    ensures
        consistent(positions.insert(at, p), index.added(p.index_keys())),
{
    let index2 = index.added(p.index_keys());
    assert forall|kind: int| 0 <= kind < 6 implies entries_consistent(
        #[trigger] kind_entries(positions.insert(at, p), kind),
        sets_of(kind, index2),
    ) by {
        let entry = (p.data.id, key_of(kind, p.index_keys()));
        assert(entries_consistent(kind_entries(positions, kind), sets_of(kind, index)));
        lemma_entries_insert(kind_entries(positions, kind), sets_of(kind, index), at, entry);
        assert(kind_entries(positions.insert(at, p), kind) =~= kind_entries(
            positions,
            kind,
        ).insert(at, entry));
    }
}

proof fn lemma_consistent_remove(positions: Seq<PositionView>, index: IndexView, at: int)
    requires
        consistent(positions, index),
        ids_unique(positions),
        0 <= at < positions.len(),
    ensures
        consistent(positions.remove(at), index.removed(positions[at].index_keys())),
        ids_unique(positions.remove(at)),
        !holds_id(positions.remove(at), positions[at].data.id),
{
    let p = positions[at];
    let index2 = index.removed(p.index_keys());
    let rest = positions.remove(at);
    assert forall|kind: int| 0 <= kind < 6 implies entries_consistent(
        #[trigger] kind_entries(rest, kind),
        sets_of(kind, index2),
    ) by {
        assert(entries_consistent(kind_entries(positions, kind), sets_of(kind, index)));
        lemma_entry_ids(positions, kind);
        lemma_entries_remove(kind_entries(positions, kind), sets_of(kind, index), at);
        assert(kind_entries(rest, kind) =~= kind_entries(positions, kind).remove(at));
    }
    assert forall|i: int, j: int| 0 <= i < j < rest.len() implies #[trigger] rest[i].data.id
        != #[trigger] rest[j].data.id by {
        let i2 = if i < at {
            i
        } else {
            i + 1
        };
        let j2 = if j < at {
            j
        } else {
            j + 1
        };
        assert(positions[i2].data.id != positions[j2].data.id);
    }
    assert forall|i: int| 0 <= i < rest.len() implies #[trigger] rest[i].data.id != p.data.id by {
        let i2 = if i < at {
            i
        } else {
            i + 1
        };
        if i2 < at {
            assert(positions[i2].data.id != positions[at].data.id);
        } else {
            assert(positions[at].data.id != positions[i2].data.id);
        }
    }
}

/// Where ids are unique, the place of an id is the one place that has it.
pub proof fn lemma_place_of(positions: Seq<PositionView>, at: int)
    requires
        ids_unique(positions),
        0 <= at < positions.len(),
    ensures
        holds_id(positions, positions[at].data.id),
        place_of(positions, positions[at].data.id) == at,
{
    let id = positions[at].data.id;
    let i = place_of(positions, id);
    assert(positions[at].data.id == id);
    if i < at {
        assert(positions[i].data.id != positions[at].data.id);
    } else if at < i {
        assert(positions[at].data.id != positions[i].data.id);
    }
}

proof fn lemma_consistent_update(
    positions: Seq<PositionView>,
    index: IndexView,
    at: int,
    p: PositionView,
)
    requires
        consistent(positions, index),
        ids_unique(positions),
        0 <= at < positions.len(),
        p.index_keys() == positions[at].index_keys(),
    ensures
        consistent(positions.update(at, p), index),
        ids_unique(positions.update(at, p)),
{
    let positions2 = positions.update(at, p);
    assert forall|kind: int| 0 <= kind < 6 implies entries_consistent(
        #[trigger] kind_entries(positions2, kind),
        sets_of(kind, index),
    ) by {
        assert(entries_consistent(kind_entries(positions, kind), sets_of(kind, index)));
        assert(kind_entries(positions2, kind) =~= kind_entries(positions, kind));
    }
    assert forall|i: int, j: int| 0 <= i < j < positions2.len() implies #[trigger] positions2[i].data.id
        != #[trigger] positions2[j].data.id by {
        assert(positions[i].data.id != positions[j].data.id);
    }
}

proof fn lemma_consistent_update_if(
    positions: Seq<PositionView>,
    index: IndexView,
    at: int,
    p: PositionView,
)
    requires
        consistent(positions, index),
        ids_unique(positions),
        sorted(positions),
        0 <= at < positions.len(),
    ensures
        p.index_keys() == positions[at].index_keys() ==> consistent(
            positions.update(at, p),
            index,
        ) && ids_unique(positions.update(at, p)) && sorted(positions.update(at, p)),
{
    if p.index_keys() == positions[at].index_keys() {
        lemma_consistent_update(positions, index, at, p);
        lemma_sorted_update(positions, at, p);
    }
}

proof fn lemma_filed_matches(
    positions: Seq<PositionView>,
    index: IndexView,
    at: int,
    query: QueryView,
)
    requires
        consistent(positions, index),
        ids_unique(positions),
        0 <= at < positions.len(),
    ensures
        query.matches(positions[at].index_keys()) <==> (filed_if_set(
            index.traders,
            query.trader,
            positions[at].data.id,
        ) && filed_if_set(index.accounts, query.account, positions[at].data.id) && filed_if_set(
            index.instruments,
            query.instrument,
            positions[at].data.id,
        ) && filed_if_set(index.bases, query.base, positions[at].data.id) && filed_if_set(
            index.quotes,
            query.quote,
            positions[at].data.id,
        ) && filed_if_set(index.collaterals, query.collateral, positions[at].data.id)),
{
    let keys = positions[at].index_keys();
    let constraint = |kind: int|
        if kind == 0 {
            query.trader
        } else if kind == 1 {
            query.account
        } else if kind == 2 {
            query.instrument
        } else if kind == 3 {
            query.base
        } else if kind == 4 {
            query.quote
        } else {
            query.collateral
        };
    assert forall|kind: int| 0 <= kind < 6 implies (meets(constraint(kind), key_of(kind, keys))
        <==> filed_if_set(sets_of(kind, index), constraint(kind), keys.id)) by {
        assert(entries_consistent(kind_entries(positions, kind), sets_of(kind, index)));
        lemma_entry_ids(positions, kind);
        if constraint(kind) is Some {
            lemma_entries_match(
                kind_entries(positions, kind),
                sets_of(kind, index),
                at,
                constraint(kind)->0,
            );
        }
    }
    assert(meets(constraint(0), key_of(0, keys)) <==> filed_if_set(
        sets_of(0, index),
        constraint(0),
        keys.id,
    ));
    assert(meets(constraint(1), key_of(1, keys)) <==> filed_if_set(
        sets_of(1, index),
        constraint(1),
        keys.id,
    ));
    assert(meets(constraint(2), key_of(2, keys)) <==> filed_if_set(
        sets_of(2, index),
        constraint(2),
        keys.id,
    ));
    assert(meets(constraint(3), key_of(3, keys)) <==> filed_if_set(
        sets_of(3, index),
        constraint(3),
        keys.id,
    ));
    assert(meets(constraint(4), key_of(4, keys)) <==> filed_if_set(
        sets_of(4, index),
        constraint(4),
        keys.id,
    ));
    assert(meets(constraint(5), key_of(5, keys)) <==> filed_if_set(
        sets_of(5, index),
        constraint(5),
        keys.id,
    ));
}

/// The positions of one kind that the engine holds in memory, in the order
/// in which they came, with the six indices over them.
pub struct ActivePositionsStore {
    positions: Vec<EnginePosition>,
    index: PositionsStoreIndex,
}

impl View for ActivePositionsStore {
    type V = Seq<PositionView>;

    closed spec fn view(&self) -> Seq<PositionView> {
        views(self.positions@)
    }
}

impl ActivePositionsStore {
    /// The stored positions stand in the ascending order of their ids, so
    /// that no two have the same id, and the indices hold exactly the ids of
    /// the stored positions, each under the keys of its position.
    pub closed spec fn wf(&self) -> bool {
        &&& self.index.wf()
        &&& ids_unique(self@)
        &&& sorted(self@)
        &&& consistent(self@, self.index@)
    }

    /// What the six indices hold.
    pub closed spec fn index(&self) -> IndexView {
        self.index@
    }

    pub proof fn lemma_ids_unique(&self)
        requires
            self.wf(),
        ensures
            ids_unique(self@),
    {
    }

    /// The positions of a store stand in the ascending order of their ids.
    pub proof fn law_store_is_sorted(&self)
        requires
            self.wf(),
        ensures
            sorted(self@),
    {
    }

    /// An index holds an id under a key exactly if the position with that
    /// id is stored and has that key.
    pub proof fn law_index_exact(&self, key: Seq<char>, id: Seq<char>)
        requires
            self.wf(),
        ensures
            filed(self.index().traders, key, id) <==> exists|i: int|
                0 <= i < self@.len() && #[trigger] self@[i].index_keys().id == id
                    && self@[i].index_keys().trader == Some(key),
            filed(self.index().accounts, key, id) <==> exists|i: int|
                0 <= i < self@.len() && #[trigger] self@[i].index_keys().id == id
                    && self@[i].index_keys().account == Some(key),
            filed(self.index().instruments, key, id) <==> exists|i: int|
                0 <= i < self@.len() && #[trigger] self@[i].index_keys().id == id
                    && self@[i].index_keys().instrument == Some(key),
            filed(self.index().bases, key, id) <==> exists|i: int|
                0 <= i < self@.len() && #[trigger] self@[i].index_keys().id == id
                    && self@[i].index_keys().base == Some(key),
            filed(self.index().quotes, key, id) <==> exists|i: int|
                0 <= i < self@.len() && #[trigger] self@[i].index_keys().id == id
                    && self@[i].index_keys().quote == Some(key),
            filed(self.index().collaterals, key, id) <==> exists|i: int|
                0 <= i < self@.len() && #[trigger] self@[i].index_keys().id == id
                    && self@[i].index_keys().collateral == Some(key),
    {
        let positions = self@;
        let index = self.index@;
        assert forall|kind: int| 0 <= kind < 6 implies (filed(sets_of(kind, index), key, id)
            <==> exists|i: int|
            0 <= i < positions.len() && #[trigger] positions[i].index_keys().id == id && key_of(
                kind,
                positions[i].index_keys(),
            ) == Some(key)) by {
            let entries = kind_entries(positions, kind);
            assert(entries_consistent(entries, sets_of(kind, index)));
            let e = (id, Some(key));
            assert(filed(sets_of(kind, index), key, id) <==> entries.contains(e));
            if entries.contains(e) {
                let i = choose|i: int| 0 <= i < entries.len() && entries[i] == e;
                assert(positions[i].index_keys().id == id);
            }
            if exists|i: int|
                0 <= i < positions.len() && #[trigger] positions[i].index_keys().id == id && key_of(
                    kind,
                    positions[i].index_keys(),
                ) == Some(key) {
                let i = choose|i: int|
                    0 <= i < positions.len() && #[trigger] positions[i].index_keys().id == id
                        && key_of(kind, positions[i].index_keys()) == Some(key);
                assert(entries[i] == e);
            }
        }
        assert(sets_of(0, index) == index.traders);
        assert(sets_of(1, index) == index.accounts);
        assert(sets_of(2, index) == index.instruments);
        assert(sets_of(3, index) == index.bases);
        assert(sets_of(4, index) == index.quotes);
        assert(sets_of(5, index) == index.collaterals);
    }

    /// A store without positions, whose indices hold no key.
    pub fn new() -> (r: Self)
        ensures
            r.wf(),
            r@ == Seq::<PositionView>::empty(),
            r.index() == IndexView::empty(),
    {
        let r = Self { positions: Vec::new(), index: PositionsStoreIndex::new() };
        proof {
            assert(r@ =~= Seq::<PositionView>::empty());
            assert forall|kind: int| 0 <= kind < 6 implies entries_consistent(
                #[trigger] kind_entries(r@, kind),
                sets_of(kind, r.index@),
            ) by {
                assert(kind_entries(r@, kind) =~= Seq::<Entry>::empty());
            }
        }
        r
    }

    pub fn count_positions(&self) -> (r: usize)
        ensures
            r == self@.len(),
    {
        self.positions.len()
    }

    /// The first place of a position with the given id.
    pub fn find_position(&self, id: &str) -> (r: Option<usize>)
        ensures
            match r {
                Some(i) => i < self@.len() && self@[i as int].data.id == id@ && forall|j: int|
                    0 <= j < i ==> self@[j].data.id != id@,
                None => !holds_id(self@, id@),
            },
    {
        let mut i: usize = 0;
        while i < self.positions.len()
            invariant
                i <= self.positions@.len(),
                forall|j: int| 0 <= j < i ==> self@[j].data.id != id@,
            decreases self.positions@.len() - i,
        {
            if self.positions[i].data.id.as_str().eq(id) {
                return Some(i);
            }
            i = i + 1;
        }
        None
    }

    /// The position at a place.
    pub fn position_at(&self, i: usize) -> (r: &EnginePosition)
        requires
            i < self@.len(),
        ensures
            r@ == self@[i as int],
    {
        &self.positions[i]
    }

    /// The position with the given id.
    pub fn get_position(&self, id: &str) -> (r: Option<&EnginePosition>)
        requires
            self.wf(),
        ensures
            match r {
                Some(p) => holds_id(self@, id@) && p@ == self@[place_of(self@, id@)] && p@.data.id
                    == id@,
                None => !holds_id(self@, id@),
            },
    {
        match self.find_position(id) {
            Some(i) => {
                proof {
                    lemma_place_of(self@, i as int);
                }
                Some(&self.positions[i])
            },
            None => None,
        }
    }

    /// The position at a place, for changing in place. The store stays well
    /// formed where the change leaves the id and the index keys of the
    /// position as they were.
    pub fn position_at_mut(&mut self, i: usize) -> (r: &mut EnginePosition)
        requires
            old(self).wf(),
            i < old(self)@.len(),
        ensures
            r@ == old(self)@[i as int],
            final(self)@ == old(self)@.update(i as int, final(r)@),
            final(self).index() == old(self).index(),
            final(r)@.index_keys() == r@.index_keys() ==> final(self).wf(),
    {
        let ghost before = self@;
        let ghost index = self.index@;
        let p = &mut self.positions[i];
        proof {
            lemma_consistent_update_if(before, index, i as int, final(p)@);
        }
        p
    }

    /// The position with the given id, for changing in place. The store
    /// stays well formed where the change leaves the id and the index keys of
    /// the position as they were.
    pub fn get_position_mut(&mut self, id: &str) -> (r: Option<&mut EnginePosition>)
        requires
            old(self).wf(),
        ensures
            match r {
                Some(p) => holds_id(old(self)@, id@) && p@ == old(self)@[place_of(old(self)@, id@)]
                    && final(self)@ == old(self)@.update(place_of(old(self)@, id@), final(p)@)
                    && final(self).index() == old(self).index() && (final(p)@.index_keys()
                    == p@.index_keys() ==> final(self).wf()),
                None => !holds_id(old(self)@, id@) && final(self)@ == old(self)@ && final(self).wf(),
            },
    {
        match self.find_position(id) {
            Some(i) => {
                proof {
                    lemma_place_of(self@, i as int);
                }
                let ghost before = self@;
                let ghost index = self.index@;
                let p = &mut self.positions[i];
                proof {
                    lemma_consistent_update_if(before, index, i as int, final(p)@);
                }
                Some(p)
            },
            None => None,
        }
    }

    /// Takes out the position at a place, and with it its id from every
    /// index.
    pub fn remove_at(&mut self, i: usize) -> (r: EnginePosition)
        requires
            old(self).wf(),
            i < old(self)@.len(),
        ensures
            final(self).wf(),
            r@ == old(self)@[i as int],
            final(self)@ == old(self)@.remove(i as int),
            final(self).index() == old(self).index().removed(r@.index_keys()),
            !holds_id(final(self)@, r@.data.id),
    {
        proof {
            lemma_consistent_remove(self@, self.index@, i as int);
            lemma_sorted_remove(self@, i as int);
        }
        let position = self.positions.remove(i);
        self.index.remove(&position);
        proof {
            assert(self@ =~= old(self)@.remove(i as int));
            assert(old(self)@[i as int] == position@);
        }
        position
    }

    /// Takes out the position with the given id, and with it its id from
    /// every index.
    pub fn remove_position(&mut self, id: &str) -> (r: Option<EnginePosition>)
        requires
            old(self).wf(),
        ensures
            final(self).wf(),
            !holds_id(final(self)@, id@),
            final(self)@ == taken(old(self)@, id@),
            match r {
                Some(p) => holds_id(old(self)@, id@) && p@ == old(self)@[place_of(old(self)@, id@)]
                    && p@.data.id == id@ && final(self).index() == old(self).index().removed(
                    p@.index_keys(),
                ),
                None => !holds_id(old(self)@, id@) && final(self).index() == old(self).index(),
            },
    {
        match self.find_position(id) {
            Some(i) => {
                proof {
                    lemma_place_of(self@, i as int);
                }
                Some(self.remove_at(i))
            },
            None => None,
        }
    }

    /// Puts a position into the store and files it in every index. A
    /// stored position with the same id is taken out first; the new one
    /// takes the place that the order of ids gives it.
    pub fn add_position(&mut self, position: EnginePosition)
        requires
            old(self).wf(),
        ensures
            final(self).wf(),
            final(self)@ == put(old(self)@, position@),
            !holds_id(old(self)@, position@.data.id) ==> final(self).index()
                == old(self).index().added(position@.index_keys()),
    {
        let replaced = self.remove_position(position.data.id.as_str());
        let ghost rest = self@;
        let ghost id = position@.data.id;
        let mut i: usize = 0;
        let mut found = false;
        while i < self.positions.len() && !found
            invariant
                self@ == rest,
                id == position@.data.id,
                i <= rest.len(),
                forall|j: int| 0 <= j < i ==> precedes(#[trigger] rest[j].data.id, id),
                found ==> i < rest.len() && !precedes(rest[i as int].data.id, id),
            decreases rest.len() - i + (if found { 0int } else { 1int }),
        {
            if id_precedes(self.positions[i].data.id.as_str(), position.data.id.as_str()) {
                i = i + 1;
            } else {
                found = true;
            }
        }
        proof {
            lemma_rank_splits(rest, id);
            if i > 0 {
                assert(precedes(rest[i - 1].data.id, id));
            }
            assert(i == rank(rest, id));
            lemma_consistent_insert(rest, self.index@, i as int, position@);
            lemma_put_sorted(old(self)@, position@);
            lemma_sorted_unique(put(old(self)@, position@));
        }
        self.index.add(&position);
        self.positions.insert(i, position);
        proof {
            assert(self@ =~= rest.insert(i as int, position@));
        }
    }

    /// Puts `position` in the place of the stored position at `i`, which
    /// has the same id and the same index keys.
    pub fn replace_at(&mut self, i: usize, position: EnginePosition)
        requires
            old(self).wf(),
            i < old(self)@.len(),
            position@.index_keys() == old(self)@[i as int].index_keys(),
        ensures
            final(self).wf(),
            final(self)@ == old(self)@.update(i as int, position@),
            final(self).index() == old(self).index(),
    {
        proof {
            lemma_consistent_update(self@, self.index@, i as int, position@);
            lemma_sorted_update(self@, i as int, position@);
        }
        self.positions[i] = position;
        proof {
            assert(self@ =~= old(self)@.update(i as int, position@));
        }
    }

    /// Whether the position at `i` matches the query, decided by looking
    /// its id up in the index of every constraint that is set.
    pub fn matches_at(&self, i: usize, query: &EngineCacheQueryBuilder) -> (r: bool)
        requires
            self.wf(),
            i < self@.len(),
        ensures
            r == query@.matches(self@[i as int].index_keys()),
    {
        proof {
            lemma_filed_matches(self@, self.index@, i as int, query@);
        }
        self.index.files_under(
            self.positions[i].data.id.as_str(),
            &query.trader,
            &query.account,
            &query.instrument,
            &query.base,
            &query.quote,
            &query.collateral,
        )
    }

    /// Copies of the positions that match the query, in the order of the
    /// store, which is the ascending order of their ids.
    pub fn query_positions(&self, query: &EngineCacheQueryBuilder) -> (r: Vec<EnginePosition>)
        requires
            self.wf(),
        ensures
            views(r@) == selected(self@, query@),
            sorted(views(r@)),
    {
        let mut result: Vec<EnginePosition> = Vec::new();
        let ghost pred = |p: PositionView| query@.matches(p.index_keys());
        let mut i: usize = 0;
        proof {
            crate::laws::law_filter_sorted(self@, pred);
            assert(self@.take(0) =~= Seq::<PositionView>::empty());
            assert(views(result@) =~= self@.take(0).filter(pred));
        }
        while i < self.positions.len()
            invariant
                self.wf(),
                i <= self@.len(),
                self@.len() == self.positions@.len(),
                pred == |p: PositionView| query@.matches(p.index_keys()),
                views(result@) == self@.take(i as int).filter(pred),
            decreases self@.len() - i,
        {
            let ghost before = views(result@);
            if self.matches_at(i, query) {
                result.push(self.positions[i].clone());
                assert(views(result@) =~= before.push(self@[i as int]));
            }
            proof {
                assert(self@.take(i + 1) =~= self@.take(i as int).push(self@[i as int]));
                self@.take(i as int).lemma_filter_push(self@[i as int], pred);
            }
            i = i + 1;
        }
        proof {
            assert(self@.take(i as int) =~= self@);
        }
        result
    }
}

} // verus!
