use exchange_sim::api::market::{get_prices, health, symbols};
use exchange_sim::decimal::Decimal;
use exchange_sim::ws_client::{
    feed_step, new_price_cache, FeedAction, FeedEvent, MarketDataMessage, PriceCache, Quote,
};

fn tick(prices: &mut PriceCache, symbol: &str, raw: &str, price: Option<Decimal>) -> FeedAction {
    let message = MarketDataMessage {
        price: Quote { raw: raw.to_string(), price },
        symbol: symbol.to_string(),
    };
    feed_step(FeedEvent::Message(message), prices)
}

#[test]
fn the_feed_reconnects_after_a_wait() {
    let mut prices = new_price_cache();
    assert_eq!(feed_step(FeedEvent::ConnectFailed, &mut prices), FeedAction::Wait(3));
    assert_eq!(feed_step(FeedEvent::Waited, &mut prices), FeedAction::Connect);
    assert_eq!(feed_step(FeedEvent::Connected, &mut prices), FeedAction::Read);
    assert_eq!(feed_step(FeedEvent::Ignored, &mut prices), FeedAction::Read);
    assert_eq!(feed_step(FeedEvent::Closed, &mut prices), FeedAction::Wait(1));
    assert_eq!(feed_step(FeedEvent::Broken, &mut prices), FeedAction::Wait(1));
    assert_eq!(feed_step(FeedEvent::Cancelled, &mut prices), FeedAction::Stop);
    assert_eq!(health(&prices).live_symbols, 0);
}

#[test]
fn the_latest_price_counts() {
    let mut prices = new_price_cache();
    assert_eq!(tick(&mut prices, "A", "1", Decimal::new(1, 0)), FeedAction::Read);
    assert_eq!(tick(&mut prices, "B", "2", Decimal::new(2, 0)), FeedAction::Read);
    assert_eq!(tick(&mut prices, "A", "3.5", Decimal::new(35, 1)), FeedAction::Read);
    assert_eq!(tick(&mut prices, "C", "NaN", None), FeedAction::Read);
    let mut listed: Vec<(String, String)> =
        get_prices(&prices).into_iter().map(|(symbol, quote)| (symbol, quote.raw)).collect();
    listed.sort();
    let expected = [("A", "3.5"), ("B", "2"), ("C", "NaN")];
    assert_eq!(listed.len(), 3);
    for (got, (symbol, raw)) in listed.iter().zip(expected) {
        assert_eq!(got.0, symbol);
        assert_eq!(got.1, raw);
    }
}

#[test]
fn health_counts_the_live_symbols() {
    let mut prices = new_price_cache();
    tick(&mut prices, "A", "1", None);
    tick(&mut prices, "B", "1", None);
    tick(&mut prices, "A", "1", None);
    let report = health(&prices);
    assert_eq!(report.status, "ok");
    assert_eq!(report.service, "exchange-sim");
    assert_eq!(report.live_symbols, 2);
}

#[test]
fn symbols_are_listed_as_configured() {
    let configured = vec!["B".to_string(), "A".to_string()];
    assert_eq!(symbols(&configured), configured);
}
