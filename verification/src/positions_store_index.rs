use vstd::prelude::*;
use crate::string_map::{lemma_bindings_update, StringMap};

verus! {

/// For each key, the ids of the positions filed under it.
pub type IdSets = Map<Seq<char>, Set<Seq<char>>>;

/// The ids filed under `key`; none where the key was never used.
pub open spec fn ids_under(sets: IdSets, key: Seq<char>) -> Set<Seq<char>> {
    if sets.contains_key(key) {
        sets[key]
    } else {
        Set::empty()
    }
}

/// Whether `id` is filed under `key`.
pub open spec fn filed(sets: IdSets, key: Seq<char>, id: Seq<char>) -> bool {
    sets.contains_key(key) && sets[key].contains(id)
}

/// `sets` after `id` was filed under `key`; unchanged where there is no key.
pub open spec fn with_id(sets: IdSets, key: Option<Seq<char>>, id: Seq<char>) -> IdSets {
    match key {
        Some(k) => sets.insert(k, ids_under(sets, k).insert(id)),
        None => sets,
    }
}

/// `sets` after `id` was taken from under `key`. The key stays, with the
/// ids that are left.
pub open spec fn without_id(sets: IdSets, key: Option<Seq<char>>, id: Seq<char>) -> IdSets {
    match key {
        Some(k) => if sets.contains_key(k) {
            sets.insert(k, sets[k].remove(id))
        } else {
            sets
        },
        None => sets,
    }
}

/// The ids in a list, as character sequences.
pub open spec fn id_seq(ids: Seq<String>) -> Seq<Seq<char>> {
    ids.map_values(|s: String| s@)
}

/// The ids in a list, as a set.
pub open spec fn id_set(ids: Seq<String>) -> Set<Seq<char>> {
    id_seq(ids).to_set()
}

proof fn lemma_id_set_push(ids: Seq<String>, id: String)
    requires
        id_seq(ids).no_duplicates(),
        !id_set(ids).contains(id@),
    ensures
        id_set(ids.push(id)) == id_set(ids).insert(id@),
        id_seq(ids.push(id)).no_duplicates(),
{
    let a = id_seq(ids.push(id));
    let b = id_seq(ids);
    assert(a =~= b.push(id@));
    assert forall|x: Seq<char>| a.contains(x) <==> (b.contains(x) || x == id@) by {
        if a.contains(x) {
            let i = choose|i: int| 0 <= i < a.len() && a[i] == x;
            if i < b.len() {
                assert(b[i] == x);
            }
        }
        if b.contains(x) {
            let i = choose|i: int| 0 <= i < b.len() && b[i] == x;
            assert(a[i] == x);
        }
        if x == id@ {
            assert(a[b.len() as int] == x);
        }
    }
    assert(id_set(ids.push(id)) =~= id_set(ids).insert(id@));
    assert forall|i: int, j: int| 0 <= i < a.len() && 0 <= j < a.len() && i != j implies a[i]
        != a[j] by {
        if i < b.len() {
            assert(b[i] == a[i]);
            assert(b.contains(a[i]));
        }
        if j < b.len() {
            assert(b[j] == a[j]);
            assert(b.contains(a[j]));
        }
    }
}

proof fn lemma_id_set_remove(ids: Seq<String>, at: int)
    requires
        id_seq(ids).no_duplicates(),
        0 <= at < ids.len(),
    ensures
        id_set(ids.remove(at)) == id_set(ids).remove(ids[at]@),
        id_seq(ids.remove(at)).no_duplicates(),
{
    let a = id_seq(ids.remove(at));
    let b = id_seq(ids);
    assert(a =~= b.remove(at));
    assert(b[at] == ids[at]@);
    assert forall|x: Seq<char>| a.contains(x) <==> (b.contains(x) && x != ids[at]@) by {
        if a.contains(x) {
            let i = choose|i: int| 0 <= i < a.len() && a[i] == x;
            if i < at {
                assert(b[i] == x);
                assert(b[i] != b[at]);
            } else {
                assert(b[i + 1] == x);
                assert(b[i + 1] != b[at]);
            }
        }
        if b.contains(x) && x != ids[at]@ {
            let i = choose|i: int| 0 <= i < b.len() && b[i] == x;
            if i < at {
                assert(a[i] == x);
            } else {
                assert(a[i - 1] == x);
            }
        }
    }
    assert(id_set(ids.remove(at)) =~= id_set(ids).remove(ids[at]@));
}

/// The first place of `id` in a list of ids.
pub fn find_id(ids: &Vec<String>, id: &str) -> (r: Option<usize>)
    ensures
        match r {
            Some(i) => i < ids@.len() && ids@[i as int]@ == id@ && id_set(ids@).contains(id@)
                && forall|j: int| 0 <= j < i ==> ids@[j]@ != id@,
            None => !id_set(ids@).contains(id@),
        },
{
    let mut i: usize = 0;
    while i < ids.len()
        invariant
            i <= ids@.len(),
            forall|j: int| 0 <= j < i ==> ids@[j]@ != id@,
        decreases ids@.len() - i,
    {
        if ids[i].as_str().eq(id) {
            assert(id_seq(ids@)[i as int] == id@);
            return Some(i);
        }
        i = i + 1;
    }
    assert forall|j: int| 0 <= j < id_seq(ids@).len() implies id_seq(ids@)[j] != id@ by {
        assert(id_seq(ids@)[j] == ids@[j]@);
    }
    None
}

/// One index: for each key, the ids filed under it.
pub struct KeyIndex {
    entries: StringMap<Vec<String>>,
}

impl KeyIndex {
    /// What the index holds.
    pub closed spec fn view(&self) -> IdSets {
        self.entries@.map_values(|ids: Vec<String>| id_set(ids@))
    }

    /// No id is filed twice under one key.
    pub closed spec fn wf(&self) -> bool {
        &&& self.entries.wf()
        &&& forall|k: Seq<char>| #[trigger]
            self.entries@.contains_key(k) ==> id_seq(self.entries@[k]@).no_duplicates()
    }

    pub fn new() -> (r: Self)
        ensures
            r.wf(),
            r@ == Map::<Seq<char>, Set<Seq<char>>>::empty(),
    {
        let r = KeyIndex { entries: StringMap::new() };
        assert(r@ =~= Map::<Seq<char>, Set<Seq<char>>>::empty());
        r
    }

    /// Files `id` under `key`.
    pub fn add(&mut self, key: &str, id: &str)
        requires
            old(self).wf(),
        ensures
            final(self).wf(),
            final(self)@ == with_id(old(self)@, Some(key@), id@),
    {
        match self.entries.position(key) {
            Some(i) => {
                proof {
                    self.entries.lemma_keys_values();
                }
                let ghost keys = self.entries.keys();
                let ghost values = self.entries.values();
                let ids = self.entries.value_at_mut(i);
                if find_id(ids, id).is_none() {
                    let owned = id.to_owned();
                    proof {
                        lemma_id_set_push(ids@, owned);
                    }
                    ids.push(owned);
                }
                proof {
                    let old_ids = values[i as int];
                    let new_ids = self.entries.values()[i as int];
                    lemma_bindings_update(keys, values, i as int, new_ids);
                    assert(self.entries@ == old(self).entries@.insert(key@, new_ids));
                    assert(old(self).entries@[key@] == old_ids);
                    assert(id_set(new_ids@) =~= id_set(old_ids@).insert(id@));
                    assert(id_seq(new_ids@).no_duplicates());
                    assert(self@ =~= with_id(old(self)@, Some(key@), id@));
                }
            },
            None => {
                let mut ids: Vec<String> = Vec::new();
                let owned = id.to_owned();
                proof {
                    assert(id_seq(ids@) =~= Seq::<Seq<char>>::empty());
                    lemma_id_set_push(ids@, owned);
                    assert(id_set(ids@) =~= Set::<Seq<char>>::empty());
                }
                ids.push(owned);
                self.entries.insert(key.to_owned(), ids);
                proof {
                    assert(self@ =~= with_id(old(self)@, Some(key@), id@));
                }
            },
        }
    }

    /// Takes `id` from under `key`.
    pub fn remove(&mut self, key: &str, id: &str)
        requires
            old(self).wf(),
        ensures
            final(self).wf(),
            final(self)@ == without_id(old(self)@, Some(key@), id@),
    {
        match self.entries.position(key) {
            Some(i) => {
                proof {
                    self.entries.lemma_keys_values();
                }
                let ghost keys = self.entries.keys();
                let ghost values = self.entries.values();
                let ids = self.entries.value_at_mut(i);
                match find_id(ids, id) {
                    Some(at) => {
                        proof {
                            lemma_id_set_remove(ids@, at as int);
                        }
                        ids.remove(at);
                    },
                    None => {},
                }
                proof {
                    let old_ids = values[i as int];
                    let new_ids = self.entries.values()[i as int];
                    lemma_bindings_update(keys, values, i as int, new_ids);
                    assert(self.entries@ == old(self).entries@.insert(key@, new_ids));
                    assert(old(self).entries@[key@] == old_ids);
                    assert(id_set(new_ids@) =~= id_set(old_ids@).remove(id@));
                    assert(id_seq(new_ids@).no_duplicates());
                    assert(self@ =~= without_id(old(self)@, Some(key@), id@));
                }
            },
            None => {
                proof {
                    assert(self@ =~= without_id(old(self)@, Some(key@), id@));
                }
            },
        }
    }

    /// The ids filed under `key`, if the key was ever used.
    pub fn get(&self, key: &str) -> (r: Option<&Vec<String>>)
        requires
            self.wf(),
        ensures
            match r {
                Some(ids) => self@.contains_key(key@) && id_set(ids@) == self@[key@] && id_seq(
                    ids@,
                ).no_duplicates(),
                None => !self@.contains_key(key@),
            },
    {
        self.entries.get(key)
    }

    /// Whether `id` is filed under `key`.
    pub fn contains(&self, key: &str, id: &str) -> (r: bool)
        requires
            self.wf(),
        ensures
            r == filed(self@, key@, id@),
    {
        match self.entries.get(key) {
            Some(ids) => find_id(ids, id).is_some(),
            None => false,
        }
    }
}

/// The keys under which one position is filed. A key that is `None` files
/// the position nowhere in that index.
pub struct IndexKeys {
    pub id: Seq<char>,
    pub trader: Option<Seq<char>>,
    pub account: Option<Seq<char>>,
    pub instrument: Option<Seq<char>>,
    pub base: Option<Seq<char>>,
    pub quote: Option<Seq<char>>,
    pub collateral: Option<Seq<char>>,
}

/// The value of an optional string.
pub open spec fn view_key(key: Option<String>) -> Option<Seq<char>> {
    match key {
        Some(k) => Some(k@),
        None => None,
    }
}

/// What a store needs to know of an item to index it.
pub trait PositionsStoreIndexAccessor {
    /// The id of the item and the keys it is filed under.
    spec fn index_keys(&self) -> IndexKeys;

    fn get_id(&self) -> (r: &str)
        ensures
            r@ == self.index_keys().id,
    ;

    fn get_trader_index(&self) -> (r: Option<String>)
        ensures
            view_key(r) == self.index_keys().trader,
    ;

    fn get_account_index(&self) -> (r: Option<String>)
        ensures
            view_key(r) == self.index_keys().account,
    ;

    fn get_instrument_index(&self) -> (r: Option<String>)
        ensures
            view_key(r) == self.index_keys().instrument,
    ;

    fn get_base_coll_index(&self) -> (r: Option<String>)
        ensures
            view_key(r) == self.index_keys().base,
    ;

    fn get_quote_coll_index(&self) -> (r: Option<String>)
        ensures
            view_key(r) == self.index_keys().quote,
    ;

    fn get_collateral_index(&self) -> (r: Option<String>)
        ensures
            view_key(r) == self.index_keys().collateral,
    ;
}

/// The six indices of a position store: by trader, by account, by
/// instrument, and by base, quote and collateral currency.
pub struct PositionsStoreIndex {
    traders_index: KeyIndex,
    accounts_index: KeyIndex,
    instruments_index: KeyIndex,
    base_coll_index: KeyIndex,
    quote_coll_index: KeyIndex,
    collaterals_index: KeyIndex,
}

/// What the six indices hold.
pub struct IndexView {
    pub traders: IdSets,
    pub accounts: IdSets,
    pub instruments: IdSets,
    pub bases: IdSets,
    pub quotes: IdSets,
    pub collaterals: IdSets,
}

impl IndexView {
    /// Six indices that hold nothing: no key was ever used.
    pub open spec fn empty() -> IndexView {
        IndexView {
            traders: Map::empty(),
            accounts: Map::empty(),
            instruments: Map::empty(),
            bases: Map::empty(),
            quotes: Map::empty(),
            collaterals: Map::empty(),
        }
    }

    /// The indices after an item with the given keys was added.
    pub open spec fn added(self, keys: IndexKeys) -> IndexView {
        IndexView {
            traders: with_id(self.traders, keys.trader, keys.id),
            accounts: with_id(self.accounts, keys.account, keys.id),
            instruments: with_id(self.instruments, keys.instrument, keys.id),
            bases: with_id(self.bases, keys.base, keys.id),
            quotes: with_id(self.quotes, keys.quote, keys.id),
            collaterals: with_id(self.collaterals, keys.collateral, keys.id),
        }
    }

    /// The indices after an item with the given keys was removed.
    pub open spec fn removed(self, keys: IndexKeys) -> IndexView {
        IndexView {
            traders: without_id(self.traders, keys.trader, keys.id),
            accounts: without_id(self.accounts, keys.account, keys.id),
            instruments: without_id(self.instruments, keys.instrument, keys.id),
            bases: without_id(self.bases, keys.base, keys.id),
            quotes: without_id(self.quotes, keys.quote, keys.id),
            collaterals: without_id(self.collaterals, keys.collateral, keys.id),
        }
    }
}

impl View for PositionsStoreIndex {
    type V = IndexView;

    closed spec fn view(&self) -> IndexView {
        IndexView {
            traders: self.traders_index@,
            accounts: self.accounts_index@,
            instruments: self.instruments_index@,
            bases: self.base_coll_index@,
            quotes: self.quote_coll_index@,
            collaterals: self.collaterals_index@,
        }
    }
}

fn add_under(index: &mut KeyIndex, key: &Option<String>, id: &str)
    requires
        old(index).wf(),
    ensures
        final(index).wf(),
        final(index)@ == with_id(old(index)@, view_key(*key), id@),
{
    match key {
        Some(k) => index.add(k.as_str(), id),
        None => {},
    }
}

fn remove_under(index: &mut KeyIndex, key: &Option<String>, id: &str)
    requires
        old(index).wf(),
    ensures
        final(index).wf(),
        final(index)@ == without_id(old(index)@, view_key(*key), id@),
{
    match key {
        Some(k) => index.remove(k.as_str(), id),
        None => {},
    }
}

impl PositionsStoreIndex {
    pub closed spec fn wf(&self) -> bool {
        &&& self.traders_index.wf()
        &&& self.accounts_index.wf()
        &&& self.instruments_index.wf()
        &&& self.base_coll_index.wf()
        &&& self.quote_coll_index.wf()
        &&& self.collaterals_index.wf()
    }

    pub fn new() -> (r: Self)
        ensures
            r.wf(),
            r@.traders == Map::<Seq<char>, Set<Seq<char>>>::empty(),
            r@.accounts == Map::<Seq<char>, Set<Seq<char>>>::empty(),
            r@.instruments == Map::<Seq<char>, Set<Seq<char>>>::empty(),
            r@.bases == Map::<Seq<char>, Set<Seq<char>>>::empty(),
            r@.quotes == Map::<Seq<char>, Set<Seq<char>>>::empty(),
            r@.collaterals == Map::<Seq<char>, Set<Seq<char>>>::empty(),
    {
        Self {
            traders_index: KeyIndex::new(),
            accounts_index: KeyIndex::new(),
            instruments_index: KeyIndex::new(),
            base_coll_index: KeyIndex::new(),
            quote_coll_index: KeyIndex::new(),
            collaterals_index: KeyIndex::new(),
        }
    }

    /// Files an item under each of its keys.
    pub fn add<T: PositionsStoreIndexAccessor>(&mut self, item: &T)
        requires
            old(self).wf(),
        ensures
            final(self).wf(),
            final(self)@ == old(self)@.added(item.index_keys()),
    {
        let id = item.get_id();
        add_under(&mut self.traders_index, &item.get_trader_index(), id);
        add_under(&mut self.accounts_index, &item.get_account_index(), id);
        add_under(&mut self.instruments_index, &item.get_instrument_index(), id);
        add_under(&mut self.base_coll_index, &item.get_base_coll_index(), id);
        add_under(&mut self.quote_coll_index, &item.get_quote_coll_index(), id);
        add_under(&mut self.collaterals_index, &item.get_collateral_index(), id);
    }

    /// Takes an item from under each of its keys.
    pub fn remove<T: PositionsStoreIndexAccessor>(&mut self, item: &T)
        requires
            old(self).wf(),
        ensures
            final(self).wf(),
            final(self)@ == old(self)@.removed(item.index_keys()),
    {
        let id = item.get_id();
        remove_under(&mut self.traders_index, &item.get_trader_index(), id);
        remove_under(&mut self.accounts_index, &item.get_account_index(), id);
        remove_under(&mut self.instruments_index, &item.get_instrument_index(), id);
        remove_under(&mut self.base_coll_index, &item.get_base_coll_index(), id);
        remove_under(&mut self.quote_coll_index, &item.get_quote_coll_index(), id);
        remove_under(&mut self.collaterals_index, &item.get_collateral_index(), id);
    }

    /// The ids of the positions of a trader.
    pub fn get_trader_positions(&self, trader_id: &str) -> (r: Option<&Vec<String>>)
        requires
            self.wf(),
        ensures
            match r {
                Some(ids) => self@.traders.contains_key(trader_id@) && id_set(ids@)
                    == self@.traders[trader_id@] && id_seq(ids@).no_duplicates(),
                None => !self@.traders.contains_key(trader_id@),
            },
    {
        self.traders_index.get(trader_id)
    }

    /// The ids of the positions of an account.
    pub fn get_account_positions(&self, account_id: &str) -> (r: Option<&Vec<String>>)
        requires
            self.wf(),
        ensures
            match r {
                Some(ids) => self@.accounts.contains_key(account_id@) && id_set(ids@)
                    == self@.accounts[account_id@] && id_seq(ids@).no_duplicates(),
                None => !self@.accounts.contains_key(account_id@),
            },
    {
        self.accounts_index.get(account_id)
    }

    /// The ids of the positions in an instrument.
    pub fn get_instrument_positions(&self, asset_pair: &str) -> (r: Option<&Vec<String>>)
        requires
            self.wf(),
        ensures
            match r {
                Some(ids) => self@.instruments.contains_key(asset_pair@) && id_set(ids@)
                    == self@.instruments[asset_pair@] && id_seq(ids@).no_duplicates(),
                None => !self@.instruments.contains_key(asset_pair@),
            },
    {
        self.instruments_index.get(asset_pair)
    }

    /// The ids of the positions filed under a base currency.
    pub fn get_base_coll_positions(&self, currency: &str) -> (r: Option<&Vec<String>>)
        requires
            self.wf(),
        ensures
            match r {
                Some(ids) => self@.bases.contains_key(currency@) && id_set(ids@)
                    == self@.bases[currency@] && id_seq(ids@).no_duplicates(),
                None => !self@.bases.contains_key(currency@),
            },
    {
        self.base_coll_index.get(currency)
    }

    /// The ids of the positions filed under a quote currency.
    pub fn get_quote_coll_positions(&self, currency: &str) -> (r: Option<&Vec<String>>)
        requires
            self.wf(),
        ensures
            match r {
                Some(ids) => self@.quotes.contains_key(currency@) && id_set(ids@)
                    == self@.quotes[currency@] && id_seq(ids@).no_duplicates(),
                None => !self@.quotes.contains_key(currency@),
            },
    {
        self.quote_coll_index.get(currency)
    }

    /// The ids of the positions filed under a collateral currency.
    pub fn get_collateral_positions(&self, currency: &str) -> (r: Option<&Vec<String>>)
        requires
            self.wf(),
        ensures
            match r {
                Some(ids) => self@.collaterals.contains_key(currency@) && id_set(ids@)
                    == self@.collaterals[currency@] && id_seq(ids@).no_duplicates(),
                None => !self@.collaterals.contains_key(currency@),
            },
    {
        self.collaterals_index.get(currency)
    }

    /// Whether `id` is filed under `key`, for each key of `keys` that is
    /// set.
    pub(crate) fn files_under(
        &self,
        id: &str,
        trader: &Option<String>,
        account: &Option<String>,
        instrument: &Option<String>,
        base: &Option<String>,
        quote: &Option<String>,
        collateral: &Option<String>,
    ) -> (r: bool)
        requires
            self.wf(),
        ensures
            r == (filed_if_set(self@.traders, view_key(*trader), id@) && filed_if_set(
                self@.accounts,
                view_key(*account),
                id@,
            ) && filed_if_set(self@.instruments, view_key(*instrument), id@) && filed_if_set(
                self@.bases,
                view_key(*base),
                id@,
            ) && filed_if_set(self@.quotes, view_key(*quote), id@) && filed_if_set(
                self@.collaterals,
                view_key(*collateral),
                id@,
            )),
    {
        filed_under(&self.traders_index, trader, id) && filed_under(
            &self.accounts_index,
            account,
            id,
        ) && filed_under(&self.instruments_index, instrument, id) && filed_under(
            &self.base_coll_index,
            base,
            id,
        ) && filed_under(&self.quote_coll_index, quote, id) && filed_under(
            &self.collaterals_index,
            collateral,
            id,
        )
    }
}

/// Whether `id` is filed under `key`, where a key is given.
pub open spec fn filed_if_set(sets: IdSets, key: Option<Seq<char>>, id: Seq<char>) -> bool {
    match key {
        Some(k) => filed(sets, k, id),
        None => true,
    }
}

fn filed_under(index: &KeyIndex, key: &Option<String>, id: &str) -> (r: bool)
    requires
        index.wf(),
    ensures
        r == filed_if_set(index@, view_key(*key), id@),
{
    match key {
        Some(k) => index.contains(k.as_str(), id),
        None => true,
    }
}

} // verus!
