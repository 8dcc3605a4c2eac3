use vstd::prelude::*;
use crate::amounts::MAX_PRICE;
use crate::dto::PositionSide;

verus! {

/// A quote of one asset pair.
#[derive(Debug)]
pub struct EngineBidAsk {
    pub asset_pair: String,
    pub bid: u64,
    pub ask: u64,
    /// Microseconds since the Unix epoch.
    pub datetime: i64,
    pub base: String,
    pub quote: String,
}

/// The mathematical value of an [`EngineBidAsk`].
pub struct BidAskView {
    pub asset_pair: Seq<char>,
    pub bid: u64,
    pub ask: u64,
    pub datetime: i64,
    pub base: Seq<char>,
    pub quote: Seq<char>,
}

impl View for EngineBidAsk {
    type V = BidAskView;

    open spec fn view(&self) -> BidAskView {
        BidAskView {
            asset_pair: self.asset_pair@,
            bid: self.bid,
            ask: self.ask,
            datetime: self.datetime,
            base: self.base@,
            quote: self.quote@,
        }
    }
}

impl BidAskView {
    /// Both prices are within the price limit. A bid above the ask is
    /// accepted.
    pub open spec fn wf(self) -> bool {
        self.bid <= MAX_PRICE && self.ask <= MAX_PRICE
    }

    /// The price at which a position of the given side is closed: the bid
    /// for a long position, the ask for a short one.
    pub open spec fn close_price(self, side: PositionSide) -> u64 {
        match side {
            PositionSide::Buy => self.bid,
            PositionSide::Sell => self.ask,
        }
    }

    /// The price at which a position of the given side is opened: the ask
    /// for a long position, the bid for a short one.
    pub open spec fn open_price(self, side: PositionSide) -> u64 {
        match side {
            PositionSide::Buy => self.ask,
            PositionSide::Sell => self.bid,
        }
    }
}

impl Clone for EngineBidAsk {
    fn clone(&self) -> (r: Self)
        ensures
            r@ == self@,
    {
        EngineBidAsk {
            asset_pair: self.asset_pair.clone(),
            bid: self.bid,
            ask: self.ask,
            datetime: self.datetime,
            base: self.base.clone(),
            quote: self.quote.clone(),
        }
    }
}

impl EngineBidAsk {
    pub open spec fn wf(&self) -> bool {
        self@.wf()
    }

    /// Decides `wf`.
    pub fn is_valid(&self) -> (r: bool)
        ensures
            r == self.wf(),
    {
        self.bid <= MAX_PRICE && self.ask <= MAX_PRICE
    }

    pub fn get_asset_pair(&self) -> (r: &str)
        ensures
            r@ == self@.asset_pair,
    {
        self.asset_pair.as_str()
    }

    pub fn get_bid(&self) -> (r: u64)
        ensures
            r == self@.bid,
    {
        self.bid
    }

    pub fn get_ask(&self) -> (r: u64)
        ensures
            r == self@.ask,
    {
        self.ask
    }

    pub fn get_date(&self) -> (r: i64)
        ensures
            r == self@.datetime,
    {
        self.datetime
    }

    pub fn get_base(&self) -> (r: &str)
        ensures
            r@ == self@.base,
    {
        self.base.as_str()
    }

    pub fn get_quote(&self) -> (r: &str)
        ensures
            r@ == self@.quote,
    {
        self.quote.as_str()
    }
}

/// The price at which a position of the given side is opened.
pub fn get_open_price(bid_ask: &EngineBidAsk, side: &PositionSide) -> (r: u64)
    ensures
        r == bid_ask@.open_price(*side),
{
    match side {
        PositionSide::Buy => bid_ask.ask,
        PositionSide::Sell => bid_ask.bid,
    }
}

/// The price at which a position of the given side is closed.
pub fn get_close_price(bid_ask: &EngineBidAsk, side: &PositionSide) -> (r: u64)
    ensures
        r == bid_ask@.close_price(*side),
{
    match side {
        PositionSide::Buy => bid_ask.bid,
        PositionSide::Sell => bid_ask.ask,
    }
}

/// A copy of an optional quote.
pub fn clone_bid_ask_option(bid_ask: &Option<EngineBidAsk>) -> (r: Option<EngineBidAsk>)
    ensures
        view_bid_ask_option(r) == view_bid_ask_option(*bid_ask),
{
    match bid_ask {
        Some(b) => Some(b.clone()),
        None => None,
    }
}

/// The mathematical value of an optional quote.
pub open spec fn view_bid_ask_option(bid_ask: Option<EngineBidAsk>) -> Option<BidAskView> {
    match bid_ask {
        Some(b) => Some(b@),
        None => None,
    }
}

} // verus!
