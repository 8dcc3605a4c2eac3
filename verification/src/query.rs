use vstd::prelude::*;
use crate::positions_store_index::{view_key, IndexKeys};

verus! {

/// A conjunction of optional constraints on the keys of a position. A
/// constraint that is not set holds of every position.
pub struct EngineCacheQueryBuilder {
    pub trader: Option<String>,
    pub account: Option<String>,
    pub instrument: Option<String>,
    pub base: Option<String>,
    pub quote: Option<String>,
    pub collateral: Option<String>,
}

/// The mathematical value of a query.
pub struct QueryView {
    pub trader: Option<Seq<char>>,
    pub account: Option<Seq<char>>,
    pub instrument: Option<Seq<char>>,
    pub base: Option<Seq<char>>,
    pub quote: Option<Seq<char>>,
    pub collateral: Option<Seq<char>>,
}

/// Whether a key meets a constraint.
pub open spec fn meets(constraint: Option<Seq<char>>, key: Option<Seq<char>>) -> bool {
    match constraint {
        Some(c) => key == Some(c),
        None => true,
    }
}

impl QueryView {
    /// The query without any constraint.
    pub open spec fn all() -> QueryView {
        QueryView {
            trader: None,
            account: None,
            instrument: None,
            base: None,
            quote: None,
            collateral: None,
        }
    }

    /// Whether an item with the given keys meets every constraint that is
    /// set.
    pub open spec fn matches(self, keys: IndexKeys) -> bool {
        &&& meets(self.trader, keys.trader)
        &&& meets(self.account, keys.account)
        &&& meets(self.instrument, keys.instrument)
        &&& meets(self.base, keys.base)
        &&& meets(self.quote, keys.quote)
        &&& meets(self.collateral, keys.collateral)
    }
}

impl View for EngineCacheQueryBuilder {
    type V = QueryView;

    open spec fn view(&self) -> QueryView {
        QueryView {
            trader: view_key(self.trader),
            account: view_key(self.account),
            instrument: view_key(self.instrument),
            base: view_key(self.base),
            quote: view_key(self.quote),
            collateral: view_key(self.collateral),
        }
    }
}

impl EngineCacheQueryBuilder {
    /// The query that every position matches.
    pub fn new() -> (r: Self)
        ensures
            r@ == QueryView::all(),
    {
        Self {
            trader: None,
            account: None,
            instrument: None,
            base: None,
            quote: None,
            collateral: None,
        }
    }

    pub fn with_trader(self, trader_id: &str) -> (r: Self)
        ensures
            r@ == (QueryView { trader: Some(trader_id@), ..self@ }),
    {
        let mut r = self;
        r.trader = Some(trader_id.to_owned());
        r
    }

    pub fn with_account(self, account_id: &str) -> (r: Self)
        ensures
            r@ == (QueryView { account: Some(account_id@), ..self@ }),
    {
        let mut r = self;
        r.account = Some(account_id.to_owned());
        r
    }

    pub fn with_instrument(self, asset_pair: &str) -> (r: Self)
        ensures
            r@ == (QueryView { instrument: Some(asset_pair@), ..self@ }),
    {
        let mut r = self;
        r.instrument = Some(asset_pair.to_owned());
        r
    }

    pub fn with_base(self, base: &str) -> (r: Self)
        ensures
            r@ == (QueryView { base: Some(base@), ..self@ }),
    {
        let mut r = self;
        r.base = Some(base.to_owned());
        r
    }

    pub fn with_quote(self, quote: &str) -> (r: Self)
        ensures
            r@ == (QueryView { quote: Some(quote@), ..self@ }),
    {
        let mut r = self;
        r.quote = Some(quote.to_owned());
        r
    }

    pub fn with_collateral(self, collateral: &str) -> (r: Self)
        ensures
            r@ == (QueryView { collateral: Some(collateral@), ..self@ }),
    {
        let mut r = self;
        r.collateral = Some(collateral.to_owned());
        r
    }
}

} // verus!
