//! What anyone may ask: whether the exchange is up, its symbols, and the live prices.

use vstd::prelude::*;

use crate::text::clone_texts;
use crate::ws_client::{all_quotes, is_snapshot, quote_count, quotes_in, PriceCache, Quote};

verus! {

#[derive(Debug)]
pub struct Health {
    pub status: String,
    pub service: String,
    /// How many symbols have a live price.
    pub live_symbols: u64,
}

#[verifier::ext_equal]
pub struct HealthView {
    pub status: Seq<char>,
    pub service: Seq<char>,
    pub live_symbols: u64,
}

impl View for Health {
    type V = HealthView;

    open spec fn view(&self) -> HealthView {
        HealthView {
            status: self.status@,
            service: self.service@,
            live_symbols: self.live_symbols,
        }
    }
}

impl DeepView for Health {
    type V = HealthView;

    open spec fn deep_view(&self) -> HealthView {
        self@
    }
}

/// Reports that the exchange is up, and how many symbols have a live price.
pub fn health(prices: &PriceCache) -> (r: Health)
    ensures
        r@ == (HealthView {
            status: "ok"@,
            service: "exchange-sim"@,
            live_symbols: quotes_in(*prices).dom().len() as u64,
        }),
{
    Health {
        status: "ok".to_owned(),
        service: "exchange-sim".to_owned(),
        live_symbols: quote_count(prices) as u64,
    }
}

/// Lists the supported trading pairs.
pub fn symbols(supported: &Vec<String>) -> (r: Vec<String>)
    ensures
        r.deep_view() == supported.deep_view(),
{
    clone_texts(supported)
}

/// Lists the live prices of all symbols, in no particular order.
pub fn get_prices(prices: &PriceCache) -> (r: Vec<(String, Quote)>)
    ensures
        is_snapshot(quotes_in(*prices), r.deep_view()),
{
    all_quotes(prices)
}

} // verus!
