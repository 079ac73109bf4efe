//! The live price cache, and how it follows the price feed.

use dashmap::DashMap;
use vstd::prelude::*;

use crate::decimal::{Decimal, DecimalView};

verus! {

/// `dashmap::DashMap`, a concurrent hash map.
#[verifier::external_type_specification]
#[verifier::external_body]
#[verifier::reject_recursive_types(K)]
#[verifier::reject_recursive_types(V)]
#[verifier::reject_recursive_types(S)]
pub struct ExDashMap<K, V, S>(DashMap<K, V, S>);

/// A price as the feed gave it.
#[derive(Debug)]
pub struct Quote {
    /// The number as it is written.
    pub raw: String,
    /// The number as a decimal, where it is one.
    pub price: Option<Decimal>,
}

#[verifier::ext_equal]
pub struct QuoteView {
    pub raw: Seq<char>,
    pub price: Option<DecimalView>,
}

impl View for Quote {
    type V = QuoteView;

    open spec fn view(&self) -> QuoteView {
        QuoteView { raw: self.raw@, price: self.price.deep_view() }
    }
}

impl DeepView for Quote {
    type V = QuoteView;

    open spec fn deep_view(&self) -> QuoteView {
        self@
    }
}

impl Clone for Quote {
    fn clone(&self) -> (r: Self)
        ensures
            r@ == self@,
    {
        Quote { raw: self.raw.clone(), price: self.price }
    }
}

/// The latest quote of each symbol.
pub type PriceCache = DashMap<String, Quote>;

/// The quotes that a price cache holds.
pub uninterp spec fn quotes_in(prices: PriceCache) -> Map<Seq<char>, QuoteView>;

/// A map that holds nothing.
pub open spec fn no_entries<V>() -> Map<Seq<char>, V> {
    Map::empty()
}

/// The value under a key, where there is one.
pub open spec fn lookup<V>(map: Map<Seq<char>, V>, key: Seq<char>) -> Option<V> {
    if map.dom().contains(key) {
        Some(map[key])
    } else {
        None
    }
}

/// `dashmap::DashMap::new` makes a map that holds nothing.
#[verifier::external_body]
pub fn new_price_cache() -> (r: PriceCache)
    ensures
        quotes_in(r) == no_entries::<QuoteView>(),
{
    DashMap::new()
}

/// `dashmap::DashMap::get` finds the value that the map holds under the key.
#[verifier::external_body]
pub(crate) fn quote_of(prices: &PriceCache, symbol: &str) -> (r: Option<Quote>)
    ensures
        r.deep_view() == lookup(quotes_in(*prices), symbol@),
{
    prices.get(symbol).map(|entry| entry.value().clone())
}

/// Whether a list holds every live price once, and nothing else.
pub open spec fn is_snapshot(
    quotes: Map<Seq<char>, QuoteView>,
    listed: Seq<(Seq<char>, QuoteView)>,
) -> bool {
    &&& forall|i: int|
        0 <= i < listed.len() ==> lookup(quotes, (#[trigger] listed[i]).0) == Some(listed[i].1)
    &&& forall|i: int, j: int|
        0 <= i < j < listed.len() ==> (#[trigger] listed[i]).0 != (#[trigger] listed[j]).0
    &&& forall|symbol: Seq<char>| #[trigger]
        quotes.dom().contains(symbol) ==> exists|i: int|
            0 <= i < listed.len() && (#[trigger] listed[i]).0 == symbol
}

/// `dashmap::DashMap::len` returns the number of entries.
#[verifier::external_body]
pub(crate) fn quote_count(prices: &PriceCache) -> (r: usize)
    ensures
        r == quotes_in(*prices).dom().len(),
{
    prices.len()
}

/// `dashmap::DashMap::iter` hands out every entry once, in no order that is promised.
#[verifier::external_body]
pub(crate) fn all_quotes(prices: &PriceCache) -> (r: Vec<(String, Quote)>)
    ensures
        is_snapshot(quotes_in(*prices), r.deep_view()),
{
    prices.iter().map(|entry| (entry.key().clone(), entry.value().clone())).collect()
}

/// `dashmap::DashMap::insert` puts the value under the key, in place of what was there, and
/// leaves everything else as it is. The wrapper drops the value that was there.
#[verifier::external_body]
pub(crate) fn put_quote(prices: &mut PriceCache, symbol: String, quote: Quote)
    ensures
        quotes_in(*final(prices)) == quotes_in(*old(prices)).insert(symbol@, quote@),
{
    prices.insert(symbol, quote);
}

/// A message of the feed.
#[derive(Debug)]
pub struct MarketDataMessage {
    pub price: Quote,
    pub symbol: String,
}

/// What happens on the connection to the feed.
#[derive(Debug)]
pub enum FeedEvent {
    ConnectFailed,
    Connected,
    /// A text frame that holds a price.
    Message(MarketDataMessage),
    /// A text frame that holds none, or a frame of another kind.
    Ignored,
    Closed,
    Broken,
    /// The time to wait is over.
    Waited,
    /// The service is shutting down.
    Cancelled,
}

/// What the feed's client does next.
#[derive(Debug, Clone, Copy, PartialEq, Eq, Structural)]
pub enum FeedAction {
    Connect,
    /// Wait for the next frame.
    Read,
    /// Wait for some seconds.
    Wait(u64),
    Stop,
}

pub open spec fn feed_action(event: FeedEvent) -> FeedAction {
    match event {
        FeedEvent::ConnectFailed => FeedAction::Wait(3),
        FeedEvent::Connected | FeedEvent::Message(_) | FeedEvent::Ignored => FeedAction::Read,
        FeedEvent::Closed | FeedEvent::Broken => FeedAction::Wait(1),
        FeedEvent::Waited => FeedAction::Connect,
        FeedEvent::Cancelled => FeedAction::Stop,
    }
}

/// The cache after an event: a message sets the quote of its symbol, and nothing else changes
/// anything.
pub open spec fn quotes_after(
    quotes: Map<Seq<char>, QuoteView>,
    event: FeedEvent,
) -> Map<Seq<char>, QuoteView> {
    match event {
        FeedEvent::Message(message) => quotes.insert(message.symbol@, message.price@),
        _ => quotes,
    }
}

/// Takes in one event of the feed and says what to do next.
pub fn feed_step(event: FeedEvent, prices: &mut PriceCache) -> (r: FeedAction)
    ensures
        r == feed_action(event),
        quotes_in(*final(prices)) == quotes_after(quotes_in(*old(prices)), event),
{
    match event {
        FeedEvent::ConnectFailed => FeedAction::Wait(3),
        FeedEvent::Connected => FeedAction::Read,
        FeedEvent::Message(message) => {
            put_quote(prices, message.symbol, message.price);
            FeedAction::Read
        },
        FeedEvent::Ignored => FeedAction::Read,
        FeedEvent::Closed => FeedAction::Wait(1),
        FeedEvent::Broken => FeedAction::Wait(1),
        FeedEvent::Waited => FeedAction::Connect,
        FeedEvent::Cancelled => FeedAction::Stop,
    }
}

/// A price that came in is the one that is found, and the prices of other symbols stay.
pub proof fn law_latest_quote_counts(
    quotes: Map<Seq<char>, QuoteView>,
    message: MarketDataMessage,
    other: Seq<char>,
)
    requires
        other != message.symbol@,
    ensures
        lookup(quotes_after(quotes, FeedEvent::Message(message)), message.symbol@) == Some(
            message.price@,
        ),
        lookup(quotes_after(quotes, FeedEvent::Message(message)), other) == lookup(quotes, other),
{
}

} // verus!
