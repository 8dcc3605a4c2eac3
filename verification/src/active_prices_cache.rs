use vstd::prelude::*;
use crate::bid_ask::{view_bid_ask_option, BidAskView, EngineBidAsk};
use crate::string_map::{lemma_bindings_update, StringMap};

verus! {

/// The latest quote of every asset pair, with an index from a base and a
/// quote currency to the asset pair that was last quoted for them.
pub struct ActivePricesCache {
    prices: StringMap<EngineBidAsk>,
    base_quote_index: StringMap<StringMap<String>>,
}

impl ActivePricesCache {
    /// The latest quote of each asset pair.
    pub closed spec fn prices(&self) -> Map<Seq<char>, BidAskView> {
        self.prices@.map_values(|b: EngineBidAsk| b@)
    }

    /// The asset pair last quoted for a base and a quote currency.
    pub closed spec fn directed(&self) -> Map<(Seq<char>, Seq<char>), Seq<char>> {
        Map::new(
            |k: (Seq<char>, Seq<char>)|
                self.base_quote_index@.contains_key(k.0) && self.base_quote_index@[k.0]@.contains_key(
                    k.1,
                ),
            |k: (Seq<char>, Seq<char>)| self.base_quote_index@[k.0]@[k.1]@,
        )
    }

    /// The latest quote of an asset pair.
    pub open spec fn by_pair(&self, asset_pair: Seq<char>) -> Option<BidAskView> {
        if self.prices().contains_key(asset_pair) {
            Some(self.prices()[asset_pair])
        } else {
            None
        }
    }

    /// The latest quote of the asset pair last quoted for `base` and
    /// `quote`.
    pub open spec fn by_base_quote(&self, base: Seq<char>, quote: Seq<char>) -> Option<BidAskView> {
        if self.directed().contains_key((base, quote)) {
            Some(self.prices()[self.directed()[(base, quote)]])
        } else {
            None
        }
    }

    /// The quote for the two currencies in the given order, or else in the
    /// other order.
    pub open spec fn by_currencies(&self, a: Seq<char>, b: Seq<char>) -> Option<BidAskView> {
        match self.by_base_quote(a, b) {
            Some(bid_ask) => Some(bid_ask),
            None => self.by_base_quote(b, a),
        }
    }

    /// The asset pairs in the order in which they were first quoted.
    pub closed spec fn pairs(&self) -> Seq<Seq<char>> {
        self.prices.keys()
    }

    /// Every quote is stored under its own asset pair and is well formed,
    /// and every indexed asset pair has a quote.
    pub closed spec fn wf(&self) -> bool {
        &&& self.prices.wf()
        &&& self.base_quote_index.wf()
        &&& forall|k: Seq<char>| #[trigger]
            self.prices@.contains_key(k) ==> self.prices@[k]@.asset_pair == k && self.prices@[k].wf()
        &&& forall|b: Seq<char>| #[trigger]
            self.base_quote_index@.contains_key(b) ==> self.base_quote_index@[b].wf()
        &&& forall|b: Seq<char>, q: Seq<char>|
            self.base_quote_index@.contains_key(b) && #[trigger] self.base_quote_index@[b]@.contains_key(
                q,
            ) ==> self.prices@.contains_key(self.base_quote_index@[b]@[q]@)
    }

    /// Every quote is filed under its own asset pair and is well formed; the
    /// directed index names filed pairs only; and the pairs are the filed
    /// pairs, each once.
    pub proof fn law_cache_wf(&self)
        requires
            self.wf(),
        ensures
            forall|k: Seq<char>| #[trigger]
                self.prices().contains_key(k) ==> self.prices()[k].asset_pair == k
                    && self.prices()[k].wf(),
            forall|k: (Seq<char>, Seq<char>)| #[trigger]
                self.directed().contains_key(k) ==> self.prices().contains_key(self.directed()[k]),
            self.pairs().no_duplicates(),
            forall|k: Seq<char>| self.prices().contains_key(k) <==> self.pairs().contains(k),
    {
        self.prices.lemma_keys_values();
        assert forall|k: (Seq<char>, Seq<char>)| #[trigger]
            self.directed().contains_key(k) implies self.prices().contains_key(
            self.directed()[k],
        ) by {
            assert(self.base_quote_index@[k.0]@.contains_key(k.1));
        }
    }

    /// A cache without quotes.
    pub fn new() -> (r: Self)
        ensures
            r.wf(),
            r.prices() == Map::<Seq<char>, BidAskView>::empty(),
            r.directed() == Map::<(Seq<char>, Seq<char>), Seq<char>>::empty(),
            r.pairs() == Seq::<Seq<char>>::empty(),
    {
        let r = ActivePricesCache { prices: StringMap::new(), base_quote_index: StringMap::new() };
        assert(r.prices() =~= Map::<Seq<char>, BidAskView>::empty());
        assert(r.directed() =~= Map::<(Seq<char>, Seq<char>), Seq<char>>::empty());
        r
    }

    /// Stores a quote as the latest of its asset pair, and indexes the pair
    /// under the quote's base and quote currency.
    pub fn update(&mut self, price: EngineBidAsk)
        requires
            old(self).wf(),
            price.wf(),
        ensures
            final(self).wf(),
            final(self).prices() == old(self).prices().insert(price@.asset_pair, price@),
            final(self).directed() == old(self).directed().insert(
                (price@.base, price@.quote),
                price@.asset_pair,
            ),
    {
        let asset_pair = price.asset_pair.clone();
        let base = price.base.clone();
        let quote = price.quote.clone();
        let ghost price_view = price@;
        self.prices.insert(price.asset_pair.clone(), price);
        assert(self.prices() =~= old(self).prices().insert(price_view.asset_pair, price_view));
        match self.base_quote_index.position(base.as_str()) {
            Some(i) => {
                proof {
                    self.base_quote_index.lemma_keys_values();
                }
                let ghost keys = self.base_quote_index.keys();
                let ghost values = self.base_quote_index.values();
                let quote_index = self.base_quote_index.value_at_mut(i);
                quote_index.insert(quote, asset_pair);
                proof {
                    lemma_bindings_update(
                        keys,
                        values,
                        i as int,
                        self.base_quote_index.values()[i as int],
                    );
                    assert(self.base_quote_index@ == old(self).base_quote_index@.insert(
                        base@,
                        self.base_quote_index.values()[i as int],
                    ));
                }
            },
            None => {
                let mut quote_index: StringMap<String> = StringMap::new();
                quote_index.insert(quote, asset_pair);
                self.base_quote_index.insert(base, quote_index);
            },
        }
        proof {
            assert(self.directed() =~= old(self).directed().insert(
                (price_view.base, price_view.quote),
                price_view.asset_pair,
            ));
        }
    }

    /// The latest quote of an asset pair.
    pub fn get_by_id(&self, asset: &str) -> (r: Option<EngineBidAsk>)
        requires
            self.wf(),
        ensures
            view_bid_ask_option(r) == self.by_pair(asset@),
            r is Some ==> r->0.wf(),
    {
        match self.prices.get(asset) {
            Some(price) => Some(price.clone()),
            None => None,
        }
    }

    /// The latest quote of every asset pair, in the order in which the
    /// pairs were first quoted.
    pub fn get_all(&self) -> (r: Vec<EngineBidAsk>)
        requires
            self.wf(),
        ensures
            r@.len() == self.pairs().len(),
            forall|i: int|
                0 <= i < r@.len() ==> self.prices().contains_key(self.pairs()[i]) && (#[trigger] r@[i])@
                    == self.prices()[self.pairs()[i]],
    {
        proof {
            self.prices.lemma_keys_values();
        }
        let mut result: Vec<EngineBidAsk> = Vec::new();
        let mut i: usize = 0;
        while i < self.prices.len()
            invariant
                self.wf(),
                i <= self.prices.keys().len(),
                result@.len() == i,
                self.prices.keys().len() == self.prices.values().len(),
                forall|j: int|
                    0 <= j < self.prices.keys().len() ==> self.prices@.contains_key(
                        #[trigger] self.prices.keys()[j],
                    ) && self.prices@[self.prices.keys()[j]] == self.prices.values()[j],
                forall|j: int|
                    0 <= j < i ==> (#[trigger] result@[j])@ == self.prices()[self.pairs()[j]],
            decreases self.prices.keys().len() - i,
        {
            let price = self.prices.value_at(i).clone();
            result.push(price);
            i = i + 1;
        }
        result
    }

    /// The latest quote of the asset pair indexed under `base` and `quote`.
    pub fn get_by_base_quote(&self, base: &str, quote: &str) -> (r: Option<EngineBidAsk>)
        requires
            self.wf(),
        ensures
            view_bid_ask_option(r) == self.by_base_quote(base@, quote@),
            r is Some ==> r->0.wf(),
    {
        let quote_indexes = match self.base_quote_index.get(base) {
            Some(q) => q,
            None => {
                return None;
            },
        };
        let id = match quote_indexes.get(quote) {
            Some(id) => id,
            None => {
                return None;
            },
        };
        assert(self.base_quote_index@[base@]@.contains_key(quote@));
        match self.prices.get(id.as_str()) {
            Some(price) => Some(price.clone()),
            None => None,
        }
    }

    /// The latest quote of the asset pair indexed under `quote` as its base
    /// and `base` as its quote.
    pub fn get_by_quote_base(&self, base: &str, quote: &str) -> (r: Option<EngineBidAsk>)
        requires
            self.wf(),
        ensures
            view_bid_ask_option(r) == self.by_base_quote(quote@, base@),
            r is Some ==> r->0.wf(),
    {
        self.get_by_base_quote(quote, base)
    }

    /// The quote indexed for the two currencies in the given order, or
    /// else in the other order.
    pub fn get_by_currencies(&self, base: &str, quote: &str) -> (r: Option<EngineBidAsk>)
        requires
            self.wf(),
        ensures
            view_bid_ask_option(r) == self.by_currencies(base@, quote@),
            r is Some ==> r->0.wf(),
    {
        if let Some(price) = self.get_by_base_quote(base, quote) {
            return Some(price);
        }
        if let Some(price) = self.get_by_quote_base(base, quote) {
            return Some(price);
        }
        None
    }
}

} // verus!
