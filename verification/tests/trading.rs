use exchange_sim::api::orders::{
    cancel_order, list_orders, place_order, placed_status, Canceling, LimitQuery, Submitting,
};
use exchange_sim::auth::Claims;
use exchange_sim::decimal::Decimal;
use exchange_sim::engine::{update_position_buy, Engine, Placed, Placing};
use exchange_sim::error::AppError;
use exchange_sim::models::{
    Order, OrderStatus, OrderType, PlaceOrderRequest, Position, Side, User, UserRole,
};
use exchange_sim::order_book::{
    fill_order, fill_order_at, new_pending, Filling, OrderBook, PendingLimitOrder,
};
use exchange_sim::store::{Progress, StoreReply, StoreRequest};
use exchange_sim::timestamp::Timestamp;
use exchange_sim::ws_client::{
    feed_step, new_price_cache, FeedAction, FeedEvent, MarketDataMessage, PriceCache, Quote,
};

const SOL: &str = "SOL/USDC";

fn dec(mantissa: i128, scale: u32) -> Decimal {
    Decimal::new(mantissa, scale).unwrap()
}

fn parts(d: &Decimal) -> (i128, u32) {
    (d.mantissa(), d.scale())
}

fn at(secs: i64) -> Timestamp {
    Timestamp::new(secs, 0).unwrap()
}

fn user(balance: Decimal) -> User {
    User {
        id: "u1".to_string(),
        username: "ann".to_string(),
        password_hash: "h".to_string(),
        role: UserRole::Trader,
        balance_usdc: balance,
        created_at: at(0),
        is_active: true,
    }
}

fn position(quantity: Decimal, avg_buy_price: Decimal) -> Position {
    Position {
        user_id: "u1".to_string(),
        symbol: SOL.to_string(),
        quantity,
        avg_buy_price,
        updated_at: at(0),
    }
}

fn claims(sub: &str) -> Result<Claims, AppError> {
    Ok(Claims {
        sub: sub.to_string(),
        role: "trader".to_string(),
        exp: 0,
        jti: "t".to_string(),
    })
}

fn version(time: &Timestamp) -> (i64, u32) {
    (time.secs(), time.nanos())
}

/// A store in memory, which keeps the later version of a record; it fails the question whose
/// number is `fail_at`.
struct Store {
    users: Vec<User>,
    orders: Vec<Order>,
    positions: Vec<Position>,
    asked: Vec<String>,
    fail_at: usize,
}

impl Store {
    fn new(users: Vec<User>, positions: Vec<Position>) -> Store {
        Store { users, orders: Vec::new(), positions, asked: Vec::new(), fail_at: usize::MAX }
    }

    fn answer(&mut self, request: &StoreRequest) -> StoreReply {
        let name = format!("{:?}", request);
        let name = name.split(|c: char| !c.is_alphanumeric()).next().unwrap().to_string();
        self.asked.push(name);
        if self.asked.len() - 1 == self.fail_at {
            return StoreReply::Failed("down".to_string());
        }
        match request {
            StoreRequest::GetUserByUsername(name) => {
                StoreReply::User(self.users.iter().find(|u| &u.username == name).cloned())
            }
            StoreRequest::GetUserById(id) => {
                StoreReply::User(self.users.iter().find(|u| &u.id == id).cloned())
            }
            StoreRequest::ListUsers => StoreReply::Users(self.users.clone()),
            StoreRequest::InsertUser(user) => {
                let new = version(&user.created_at);
                let kept = |u: &User| u.id == user.id && version(&u.created_at) > new;
                if !self.users.iter().any(kept) {
                    self.users.retain(|u| u.id != user.id);
                    self.users.push(user.clone());
                }
                StoreReply::Inserted
            }
            StoreRequest::GetOrderById(id) => {
                StoreReply::Order(self.orders.iter().find(|o| &o.id == id).cloned())
            }
            StoreRequest::InsertOrder(order) => {
                let new = version(&order.updated_at);
                let kept = |o: &Order| o.id == order.id && version(&o.updated_at) > new;
                if !self.orders.iter().any(kept) {
                    self.orders.retain(|o| o.id != order.id);
                    self.orders.push(order.clone());
                }
                StoreReply::Inserted
            }
            StoreRequest::ListOrdersForUser(id, limit) => StoreReply::Orders(
                self.orders.iter().filter(|o| &o.user_id == id).take(*limit as usize).cloned().collect(),
            ),
            StoreRequest::ListAllOrders(limit) => {
                StoreReply::Orders(self.orders.iter().take(*limit as usize).cloned().collect())
            }
            StoreRequest::UpsertPosition(position) => {
                let same =
                    |p: &Position| p.user_id == position.user_id && p.symbol == position.symbol;
                let new = version(&position.updated_at);
                let kept = |p: &Position| same(p) && version(&p.updated_at) > new;
                if !self.positions.iter().any(kept) {
                    self.positions.retain(|p| !same(p));
                    self.positions.push(position.clone());
                }
                StoreReply::Inserted
            }
            StoreRequest::GetPositionsForUser(id) => StoreReply::Positions(
                self.positions
                    .iter()
                    .filter(|p| &p.user_id == id && p.quantity.is_positive())
                    .cloned()
                    .collect(),
            ),
        }
    }

    fn balance(&self) -> (i128, u32) {
        parts(&self.users.iter().find(|u| u.id == "u1").unwrap().balance_usdc)
    }

    fn quantity(&self) -> (i128, u32) {
        parts(&self.positions.iter().find(|p| p.symbol == SOL).unwrap().quantity)
    }

    fn average(&self) -> (i128, u32) {
        parts(&self.positions.iter().find(|p| p.symbol == SOL).unwrap().avg_buy_price)
    }
}

fn prices_of(quotes: &[(&str, Option<Decimal>)]) -> PriceCache {
    let mut prices = new_price_cache();
    for (symbol, price) in quotes {
        let message = MarketDataMessage {
            price: Quote { raw: "raw".to_string(), price: *price },
            symbol: symbol.to_string(),
        };
        assert_eq!(feed_step(FeedEvent::Message(message), &mut prices), FeedAction::Read);
    }
    prices
}

fn symbols() -> Vec<String> {
    vec![SOL.to_string(), "BTC/USDC".to_string()]
}

fn run_placing(
    mut progress: Progress<Placing, Placed>,
    store: &mut Store,
) -> Result<Placed, AppError> {
    loop {
        match progress {
            Progress::Finished(result) => return result,
            Progress::Ask(request, state) => {
                let reply = store.answer(&request);
                assert!(request.accepts(&reply));
                progress = state.resume(reply);
            }
        }
    }
}

fn run_filling(mut progress: Progress<Filling, ()>, store: &mut Store) -> Result<(), AppError> {
    loop {
        match progress {
            Progress::Finished(result) => return result,
            Progress::Ask(request, state) => {
                let reply = store.answer(&request);
                assert!(request.accepts(&reply));
                progress = state.resume(reply);
            }
        }
    }
}

fn run_canceling(
    mut progress: Progress<Canceling, String>,
    store: &mut Store,
) -> Result<String, AppError> {
    loop {
        match progress {
            Progress::Finished(result) => return result,
            Progress::Ask(request, state) => {
                let reply = store.answer(&request);
                assert!(request.accepts(&reply));
                progress = state.resume(reply);
            }
        }
    }
}

fn place(
    store: &mut Store,
    prices: &PriceCache,
    side: Side,
    amount: Decimal,
    order_type: OrderType,
    limit_price: Option<Decimal>,
) -> Result<Placed, AppError> {
    let supported = symbols();
    let engine = Engine::new(prices, &supported);
    let who = store.users[0].clone();
    let progress = engine.place_order(who, "sol-usdc", side, amount, order_type, limit_price);
    run_placing(progress, store)
}

#[test]
fn symbols_are_known_by_slash_and_dash_in_any_case() {
    let prices = new_price_cache();
    let supported = symbols();
    let engine = Engine::new(&prices, &supported);
    for raw in ["SOL/USDC", "SOL-USDC", "sol-usdc", "sOl/uSdC"] {
        assert_eq!(engine.normalize_symbol(raw), Some(SOL.to_string()));
    }
    for raw in ["ETH/USDC", "SOLUSDC", "", " SOL/USDC"] {
        assert_eq!(engine.normalize_symbol(raw), None);
    }
    let german = vec!["STRASSE/X".to_string()];
    let engine = Engine::new(&prices, &german);
    assert_eq!(engine.normalize_symbol("straße-x"), Some("STRASSE/X".to_string()));
}

#[test]
fn a_market_buy_pays_and_opens_a_position() {
    let mut store = Store::new(vec![user(dec(100, 0))], vec![]);
    let prices = prices_of(&[(SOL, Some(dec(25, 1)))]);
    let (order, pending) =
        place(&mut store, &prices, Side::Buy, dec(3, 0), OrderType::Market, None).unwrap();
    assert!(pending.is_none());
    assert_eq!(order.status, OrderStatus::Filled);
    assert_eq!(order.order_type, OrderType::Market);
    assert_eq!(order.symbol, SOL);
    assert_eq!(order.user_id, "u1");
    assert_eq!(parts(&order.price), (25, 1));
    assert_eq!(parts(&order.amount), (3, 0));
    assert_eq!(parts(&order.total_usdc), (75, 1));
    assert!(order.limit_price.is_none());
    assert!(order.reject_reason.is_none());
    assert_eq!(order.id.len(), 36);
    assert_eq!(store.balance(), (925, 1));
    assert_eq!(store.quantity(), (3, 0));
    assert_eq!(store.average(), (25, 1));
    assert_eq!(
        store.asked,
        ["GetPositionsForUser", "UpsertPosition", "InsertOrder", "InsertUser"]
    );
}

#[test]
fn sums_and_differences_keep_the_longer_scale() {
    // 0.50 less 0.5, and then 0.500 more.
    let mut store = Store::new(vec![user(dec(50, 2))], vec![]);
    let prices = prices_of(&[(SOL, Some(dec(5, 1)))]);
    place(&mut store, &prices, Side::Buy, dec(1, 0), OrderType::Market, None).unwrap();
    assert_eq!(store.balance(), (0, 2));
    let prices = prices_of(&[(SOL, Some(dec(500, 3)))]);
    place(&mut store, &prices, Side::Sell, dec(1, 0), OrderType::Market, None).unwrap();
    assert_eq!(store.balance(), (500, 3));
    assert_eq!(store.quantity(), (0, 0));
}

#[test]
fn a_second_buy_averages_the_price() {
    let mut store = Store::new(vec![user(dec(100, 0))], vec![position(dec(1, 0), dec(10, 0))]);
    let prices = prices_of(&[(SOL, Some(dec(20, 0)))]);
    place(&mut store, &prices, Side::Buy, dec(2, 0), OrderType::Market, None).unwrap();
    assert_eq!(store.quantity(), (3, 0));
    // (1 × 10 + 2 × 20) / 3, to eight places.
    assert_eq!(store.average(), (1_666_666_667, 8));
    assert_eq!(store.balance(), (60, 0));
}

#[test]
fn an_average_that_comes_out_even_is_exact() {
    let average = |held: Position, price: Decimal, amount: Decimal| {
        let after = update_position_buy(Some(&held), "u1", SOL, price, amount, at(1)).unwrap();
        parts(&after.avg_buy_price)
    };
    // 2 at 1.50 and 1 at 4.50 are 3 for 7.50.
    assert_eq!(average(position(dec(2, 0), dec(150, 2)), dec(450, 2), dec(1, 0)), (250, 2));
    for half in [5_000_000_000, 50_000_000_000_000_000_000] {
        let held = position(dec(half, 0), dec(3, 0));
        assert_eq!(average(held, dec(5, 0), dec(half, 0)), (4, 0));
    }
}

#[test]
fn the_live_price_is_rounded_before_it_is_used() {
    let mut store = Store::new(vec![user(dec(100, 0))], vec![]);
    let prices = prices_of(&[(SOL, Some(dec(1_000_000_005, 9)))]);
    let (order, _) =
        place(&mut store, &prices, Side::Buy, dec(1, 0), OrderType::Market, None).unwrap();
    assert_eq!(parts(&order.price), (100_000_000, 8));
}

#[test]
fn a_market_buy_without_funds_is_rejected() {
    let mut store = Store::new(vec![user(dec(749, 2))], vec![]);
    let prices = prices_of(&[(SOL, Some(dec(25, 1)))]);
    let (order, pending) =
        place(&mut store, &prices, Side::Buy, dec(3, 0), OrderType::Market, None).unwrap();
    assert!(pending.is_none());
    assert_eq!(order.status, OrderStatus::Rejected);
    assert_eq!(
        order.reject_reason,
        Some("Insufficient balance: need 7.5 USDC, have 7.49".to_string())
    );
    assert_eq!(store.balance(), (749, 2));
    assert!(store.positions.is_empty());
    assert_eq!(store.orders.len(), 1);
    assert_eq!(store.asked, ["InsertOrder", "InsertUser"]);
}

#[test]
fn a_balance_that_just_suffices_is_enough() {
    let mut store = Store::new(vec![user(dec(750, 2))], vec![]);
    let prices = prices_of(&[(SOL, Some(dec(25, 1)))]);
    let (order, _) =
        place(&mut store, &prices, Side::Buy, dec(3, 0), OrderType::Market, None).unwrap();
    assert_eq!(order.status, OrderStatus::Filled);
    assert_eq!(store.balance(), (0, 2));
}

#[test]
fn a_market_sell_takes_from_the_position() {
    let mut store = Store::new(vec![user(dec(1, 0))], vec![position(dec(50, 1), dec(9, 0))]);
    let prices = prices_of(&[(SOL, Some(dec(20, 0)))]);
    let (order, _) =
        place(&mut store, &prices, Side::Sell, dec(2, 0), OrderType::Market, None).unwrap();
    assert_eq!(order.status, OrderStatus::Filled);
    assert_eq!(store.balance(), (41, 0));
    assert_eq!(store.quantity(), (30, 1));
    assert_eq!(store.average(), (9, 0));
    place(&mut store, &prices, Side::Sell, dec(3, 0), OrderType::Market, None).unwrap();
    assert_eq!(store.quantity(), (0, 1));
    assert_eq!(store.average(), (0, 0));
}

#[test]
fn a_market_sell_without_the_asset_is_rejected() {
    let mut store = Store::new(vec![user(dec(1, 0))], vec![position(dec(15, 1), dec(9, 0))]);
    let prices = prices_of(&[(SOL, Some(dec(20, 0)))]);
    let (order, _) =
        place(&mut store, &prices, Side::Sell, dec(2, 0), OrderType::Market, None).unwrap();
    assert_eq!(order.status, OrderStatus::Rejected);
    assert_eq!(
        order.reject_reason,
        Some("Insufficient position: need 2, have 1.5 SOL/USDC".to_string())
    );
    assert_eq!(store.balance(), (1, 0));
    assert_eq!(store.quantity(), (15, 1));
    let mut empty = Store::new(vec![user(dec(1, 0))], vec![]);
    let (order, _) =
        place(&mut empty, &prices, Side::Sell, dec(2, 0), OrderType::Market, None).unwrap();
    assert_eq!(
        order.reject_reason,
        Some("Insufficient position: need 2, have 0 SOL/USDC".to_string())
    );
}

#[test]
fn orders_that_make_no_sense_are_refused() {
    let prices = prices_of(&[(SOL, Some(dec(20, 0)))]);
    let supported = symbols();
    let engine = Engine::new(&prices, &supported);
    let attempt = |symbol: &str, amount: Decimal, order_type: OrderType, limit: Option<Decimal>| {
        match engine.place_order(user(dec(9, 0)), symbol, Side::Buy, amount, order_type, limit) {
            Progress::Finished(Err(e)) => e.message(),
            _ => "accepted".to_string(),
        }
    };
    let one = dec(1, 0);
    assert_eq!(attempt("ETH/USDC", one, OrderType::Market, None), "Unknown symbol: ETH/USDC");
    assert_eq!(attempt(SOL, dec(0, 2), OrderType::Market, None), "Bad request: amount must be > 0");
    assert_eq!(attempt(SOL, dec(-1, 0), OrderType::Limit, None), "Bad request: amount must be > 0");
    assert_eq!(
        attempt(SOL, one, OrderType::Limit, None),
        "Bad request: limit_price is required for limit orders"
    );
    assert_eq!(
        attempt(SOL, one, OrderType::Limit, Some(dec(0, 0))),
        "Bad request: limit_price must be > 0"
    );
    assert_eq!(
        attempt(SOL, one, OrderType::StopLimit, Some(one)),
        "Bad request: stop_limit orders are not yet supported"
    );
    assert_eq!(
        attempt("btc/usdc", one, OrderType::Market, None),
        "Internal error: No live price for BTC/USDC"
    );
    let odd = prices_of(&[(SOL, None)]);
    let engine = Engine::new(&odd, &supported);
    match engine.place_order(user(one), SOL, Side::Buy, one, OrderType::Market, None) {
        Progress::Finished(Err(e)) => {
            assert_eq!(e.message(), "Internal error: Invalid price value: raw");
        }
        _ => panic!("accepted"),
    }
}

#[test]
fn numbers_out_of_range_stop_the_order() {
    let largest = dec(79_228_162_514_264_337_593_543_950_335, 0);
    let prices = prices_of(&[(SOL, Some(dec(10, 0)))]);
    let mut store = Store::new(vec![user(dec(9, 0))], vec![]);
    let result = place(&mut store, &prices, Side::Buy, largest, OrderType::Market, None);
    assert!(matches!(result, Err(AppError::Overflow)));
    assert!(store.asked.is_empty());
}

#[test]
fn a_limit_buy_locks_its_cost() {
    let mut store = Store::new(vec![user(dec(100, 0))], vec![]);
    let prices = new_price_cache();
    let limit = Some(dec(125, 1));
    let (order, pending) =
        place(&mut store, &prices, Side::Buy, dec(2, 0), OrderType::Limit, limit).unwrap();
    assert_eq!(order.status, OrderStatus::Pending);
    assert_eq!(parts(&order.price), (0, 0));
    assert_eq!(parts(&order.total_usdc), (0, 0));
    assert_eq!(parts(&order.limit_price.unwrap()), (125, 1));
    let pending = pending.unwrap();
    assert_eq!(pending.order_id, order.id);
    assert_eq!(pending.user_id, "u1");
    assert_eq!(pending.side, Side::Buy);
    assert_eq!(pending.symbol, SOL);
    assert_eq!(parts(&pending.amount), (2, 0));
    assert_eq!(parts(&pending.limit_price), (125, 1));
    assert_eq!(parts(&pending.locked_usdc), (250, 1));
    assert_eq!(parts(&pending.locked_qty), (0, 0));
    assert_eq!(store.balance(), (750, 1));
    assert_eq!(store.asked, ["InsertOrder", "InsertUser"]);
}

#[test]
fn a_limit_sell_locks_its_amount() {
    let mut store = Store::new(vec![user(dec(1, 0))], vec![position(dec(5, 0), dec(9, 0))]);
    let prices = new_price_cache();
    let limit = Some(dec(20, 0));
    let (order, pending) =
        place(&mut store, &prices, Side::Sell, dec(2, 0), OrderType::Limit, limit).unwrap();
    assert_eq!(order.status, OrderStatus::Pending);
    let pending = pending.unwrap();
    assert_eq!(parts(&pending.locked_usdc), (0, 0));
    assert_eq!(parts(&pending.locked_qty), (2, 0));
    assert_eq!(store.quantity(), (3, 0));
    assert_eq!(store.balance(), (1, 0));
    assert_eq!(
        store.asked,
        ["GetPositionsForUser", "UpsertPosition", "InsertOrder", "InsertUser"]
    );
}

#[test]
fn limit_orders_without_cover_are_rejected() {
    let mut store = Store::new(vec![user(dec(1, 0))], vec![position(dec(1, 0), dec(9, 0))]);
    let prices = new_price_cache();
    let limit = Some(dec(20, 0));
    let (buy, pending) =
        place(&mut store, &prices, Side::Buy, dec(2, 0), OrderType::Limit, limit).unwrap();
    assert!(pending.is_none());
    assert_eq!(buy.status, OrderStatus::Rejected);
    assert_eq!(
        buy.reject_reason,
        Some("Insufficient balance: need 40 USDC, have 1".to_string())
    );
    let (sell, pending) =
        place(&mut store, &prices, Side::Sell, dec(2, 0), OrderType::Limit, limit).unwrap();
    assert!(pending.is_none());
    assert_eq!(sell.status, OrderStatus::Rejected);
    assert_eq!(
        sell.reject_reason,
        Some("Insufficient position: need 2, have 1 SOL/USDC".to_string())
    );
    assert_eq!(store.balance(), (1, 0));
    assert_eq!(store.quantity(), (1, 0));
    assert_eq!(store.asked, ["InsertOrder", "GetPositionsForUser", "InsertOrder"]);
}

#[test]
fn a_store_that_fails_ends_the_order() {
    for fail_at in 0..4 {
        let mut store = Store::new(vec![user(dec(100, 0))], vec![]);
        store.fail_at = fail_at;
        let prices = prices_of(&[(SOL, Some(dec(25, 1)))]);
        match place(&mut store, &prices, Side::Buy, dec(3, 0), OrderType::Market, None) {
            Err(e) => assert_eq!(e.message(), "ClickHouse error: down"),
            Ok(_) => panic!("placed"),
        }
        assert_eq!(store.asked.len(), fail_at + 1);
    }
}

fn pending(id: &str, side: Side, limit_price: Decimal) -> PendingLimitOrder {
    PendingLimitOrder {
        order_id: id.to_string(),
        user_id: "u1".to_string(),
        side,
        symbol: SOL.to_string(),
        amount: dec(2, 0),
        limit_price,
        created_at: at(1),
        locked_usdc: dec(40, 0),
        locked_qty: dec(2, 0),
    }
}

#[test]
fn the_book_gives_back_what_was_added() {
    let mut book = OrderBook::new();
    assert_eq!(book.len(), 0);
    assert!(book.remove("a").is_none());
    book.add(pending("a", Side::Buy, dec(1, 0)));
    book.add(pending("b", Side::Sell, dec(2, 0)));
    book.add(pending("c", Side::Buy, dec(3, 0)));
    assert_eq!(book.len(), 3);
    let b = book.remove("b").unwrap();
    assert_eq!(b.order_id, "b");
    assert_eq!(b.side, Side::Sell);
    assert_eq!(book.len(), 2);
    assert!(book.remove("b").is_none());
    assert!(book.remove("a").is_some());
    assert!(book.remove("c").is_some());
    assert_eq!(book.len(), 0);
}

#[test]
fn draining_takes_what_can_be_filled() {
    let mut book = OrderBook::new();
    book.add(pending("low buy", Side::Buy, dec(19, 0)));
    book.add(pending("even buy", Side::Buy, dec(200, 1)));
    book.add(pending("high buy", Side::Buy, dec(21, 0)));
    book.add(pending("low sell", Side::Sell, dec(19, 0)));
    book.add(pending("even sell", Side::Sell, dec(20, 0)));
    book.add(pending("high sell", Side::Sell, dec(21, 0)));
    book.add(PendingLimitOrder {
        symbol: "BTC/USDC".to_string(),
        ..pending("no price", Side::Buy, dec(21, 0))
    });
    book.add(PendingLimitOrder {
        symbol: "ODD/USDC".to_string(),
        ..pending("odd price", Side::Buy, dec(21, 0))
    });
    let prices = prices_of(&[(SOL, Some(dec(20, 0))), ("ODD/USDC", None)]);
    let drained = book.drain_fillable(&prices);
    let ids: Vec<&str> = drained.iter().map(|(o, _)| o.order_id.as_str()).collect();
    assert_eq!(ids, ["even buy", "high buy", "low sell", "even sell"]);
    assert!(drained.iter().all(|(_, price)| parts(price) == (20, 0)));
    assert_eq!(book.len(), 4);
    assert!(book.drain_fillable(&prices).is_empty());
    for id in ["low buy", "high sell", "no price", "odd price"] {
        assert!(book.remove(id).is_some());
    }
}

#[test]
fn a_fill_that_failed_goes_back_into_the_book() {
    let mut book = OrderBook::new();
    book.settle(pending("a", Side::Buy, dec(1, 0)), &Ok(()));
    assert_eq!(book.len(), 0);
    book.settle(pending("a", Side::Buy, dec(1, 0)), &Err(AppError::Clickhouse("down".to_string())));
    assert_eq!(book.remove("a").unwrap().order_id, "a");
}

#[test]
fn a_filled_buy_is_refunded_the_excess() {
    let mut store = Store::new(vec![user(dec(60, 0))], vec![position(dec(1, 0), dec(10, 0))]);
    let order = pending("o", Side::Buy, dec(20, 0));
    let result = run_filling(fill_order_at(order, dec(15, 0), at(9)), &mut store);
    assert!(result.is_ok());
    // Forty were locked, thirty are spent.
    assert_eq!(store.balance(), (70, 0));
    assert_eq!(store.quantity(), (3, 0));
    // (1 × 10 + 2 × 15) / 3, to eight places.
    assert_eq!(store.average(), (1_333_333_333, 8));
    let order = &store.orders[0];
    assert_eq!(order.id, "o");
    assert_eq!(order.status, OrderStatus::Filled);
    assert_eq!(order.order_type, OrderType::Limit);
    assert_eq!(parts(&order.price), (15, 0));
    assert_eq!(parts(&order.total_usdc), (30, 0));
    assert_eq!(parts(&order.limit_price.unwrap()), (20, 0));
    assert_eq!(order.created_at.secs(), 1);
    assert_eq!(order.updated_at.secs(), 9);
    assert_eq!(
        store.asked,
        ["InsertOrder", "GetPositionsForUser", "UpsertPosition", "GetUserById", "InsertUser"]
    );
}

#[test]
fn a_buy_filled_at_its_limit_is_refunded_nothing() {
    let mut store = Store::new(vec![user(dec(60, 0))], vec![]);
    let order = pending("o", Side::Buy, dec(20, 0));
    run_filling(fill_order_at(order, dec(20, 0), at(9)), &mut store).unwrap();
    assert_eq!(store.balance(), (60, 0));
    assert_eq!(store.quantity(), (2, 0));
    assert_eq!(store.average(), (20, 0));
    assert_eq!(store.asked, ["InsertOrder", "GetPositionsForUser", "UpsertPosition"]);
}

#[test]
fn a_filled_sell_is_paid() {
    let mut store = Store::new(vec![user(dec(60, 0))], vec![position(dec(3, 0), dec(10, 0))]);
    let order = pending("o", Side::Sell, dec(20, 0));
    run_filling(fill_order(order, dec(25, 0)), &mut store).unwrap();
    assert_eq!(store.balance(), (110, 0));
    assert_eq!(store.quantity(), (3, 0));
    assert_eq!(store.asked, ["InsertOrder", "GetUserById", "InsertUser"]);
}

#[test]
fn a_fill_for_a_user_who_is_gone_fails() {
    let mut store = Store::new(vec![], vec![]);
    let sell = run_filling(fill_order(pending("o", Side::Sell, dec(1, 0)), dec(2, 0)), &mut store);
    assert_eq!(sell.unwrap_err().message(), "Not found: User not found during fill");
    let buy = run_filling(fill_order(pending("o", Side::Buy, dec(20, 0)), dec(1, 0)), &mut store);
    assert_eq!(buy.unwrap_err().message(), "Not found: User not found during fill refund");
}

#[test]
fn a_fill_out_of_range_stops() {
    let largest = dec(79_228_162_514_264_337_593_543_950_335, 0);
    let mut store = Store::new(vec![user(largest)], vec![]);
    let sell = run_filling(fill_order(pending("o", Side::Sell, dec(1, 0)), dec(2, 0)), &mut store);
    assert!(matches!(sell, Err(AppError::Overflow)));
    let huge = run_filling(fill_order(pending("o", Side::Sell, dec(1, 0)), largest), &mut store);
    assert!(matches!(huge, Err(AppError::Overflow)));
}

#[test]
fn a_placed_and_canceled_buy_restores_the_balance() {
    let mut store = Store::new(vec![user(dec(100, 0))], vec![]);
    let prices = new_price_cache();
    let limit = Some(dec(125, 1));
    let (order, entry) =
        place(&mut store, &prices, Side::Buy, dec(2, 0), OrderType::Limit, limit).unwrap();
    assert_eq!(store.balance(), (750, 1));
    let mut book = OrderBook::new();
    book.add(entry.unwrap());
    store.asked.clear();
    let progress = cancel_order(claims("u1"), order.id.clone(), &mut book);
    assert_eq!(run_canceling(progress, &mut store).unwrap(), order.id);
    assert_eq!(book.len(), 0);
    assert_eq!(store.balance(), (1000, 1));
    assert_eq!(store.orders[0].status, OrderStatus::Canceled);
    assert_eq!(store.asked, ["GetOrderById", "GetUserById", "InsertUser", "InsertOrder"]);
}

#[test]
fn a_placed_and_canceled_sell_restores_the_position() {
    let mut store = Store::new(vec![user(dec(1, 0))], vec![position(dec(5, 0), dec(9, 0))]);
    let prices = new_price_cache();
    let limit = Some(dec(20, 0));
    let (order, entry) =
        place(&mut store, &prices, Side::Sell, dec(2, 0), OrderType::Limit, limit).unwrap();
    let mut book = OrderBook::new();
    book.add(entry.unwrap());
    store.asked.clear();
    let progress = cancel_order(claims("u1"), order.id.clone(), &mut book);
    run_canceling(progress, &mut store).unwrap();
    assert_eq!(store.quantity(), (5, 0));
    assert_eq!(store.average(), (9, 0));
    assert_eq!(
        store.asked,
        ["GetOrderById", "GetUserById", "GetPositionsForUser", "UpsertPosition", "InsertOrder"]
    );
}

#[test]
fn a_placed_and_filled_buy_costs_what_it_was_filled_at() {
    let mut store = Store::new(vec![user(dec(100, 0))], vec![]);
    let limit = Some(dec(125, 1));
    let (order, entry) =
        place(&mut store, &new_price_cache(), Side::Buy, dec(2, 0), OrderType::Limit, limit)
            .unwrap();
    assert_eq!(store.balance(), (750, 1));
    let mut book = OrderBook::new();
    book.add(entry.unwrap());
    let prices = prices_of(&[(SOL, Some(dec(12345, 3)))]);
    let (entry, price) = book.drain_fillable(&prices).remove(0);
    run_filling(fill_order(entry, price), &mut store).unwrap();
    // Twice 12.345, of the 25 that were locked.
    assert_eq!(store.balance(), (75_310, 3));
    assert_eq!(store.quantity(), (2, 0));
    assert_eq!(store.orders[0].id, order.id);
    assert_eq!(store.orders[0].status, OrderStatus::Filled);
    assert_eq!(parts(&store.orders[0].total_usdc), (24_690, 3));
}

#[test]
fn an_amount_bought_and_sold_again_restores_balance_and_quantity() {
    let mut store = Store::new(vec![user(dec(1005, 1))], vec![position(dec(25, 1), dec(9, 0))]);
    let prices = prices_of(&[(SOL, Some(dec(1075, 2)))]);
    let amount = dec(125, 2);
    let (bought, _) =
        place(&mut store, &prices, Side::Buy, amount, OrderType::Market, None).unwrap();
    assert_eq!(bought.status, OrderStatus::Filled);
    assert_eq!(store.balance(), (870_625, 4));
    assert_eq!(store.quantity(), (375, 2));
    let (sold, _) =
        place(&mut store, &prices, Side::Sell, amount, OrderType::Market, None).unwrap();
    assert_eq!(sold.status, OrderStatus::Filled);
    assert_eq!(store.balance(), (1_005_000, 4));
    assert_eq!(store.quantity(), (250, 2));
}

#[test]
fn every_order_writes_a_later_version_of_the_user() {
    let limit = Some(dec(1, 0));
    for (side, kind) in [
        (Side::Buy, OrderType::Market),
        (Side::Sell, OrderType::Market),
        (Side::Buy, OrderType::Limit),
        (Side::Sell, OrderType::Limit),
    ] {
        let mut store = Store::new(vec![user(dec(100, 0))], vec![position(dec(5, 0), dec(9, 0))]);
        let prices = prices_of(&[(SOL, Some(dec(2, 0)))]);
        let (order, _) = place(&mut store, &prices, side, dec(1, 0), kind, limit).unwrap();
        assert!(matches!(order.status, OrderStatus::Filled | OrderStatus::Pending));
        let written = &store.users[0];
        assert_eq!(version(&written.created_at), version(&order.created_at));
        assert!(version(&written.created_at) > version(&at(0)));
    }
}

#[test]
fn an_order_is_canceled_only_once() {
    let mut store = Store::new(vec![user(dec(100, 0))], vec![]);
    let limit = Some(dec(125, 1));
    let (order, entry) =
        place(&mut store, &new_price_cache(), Side::Buy, dec(2, 0), OrderType::Limit, limit)
            .unwrap();
    let mut book = OrderBook::new();
    book.add(entry.unwrap());
    run_canceling(cancel_order(claims("u1"), order.id.clone(), &mut book), &mut store).unwrap();
    assert_eq!(store.balance(), (1000, 1));
    store.asked.clear();
    let again = run_canceling(cancel_order(claims("u1"), order.id, &mut book), &mut store);
    assert_eq!(
        again.unwrap_err().message(),
        "Bad request: Order cannot be canceled: status is canceled"
    );
    assert_eq!(store.balance(), (1000, 1));
    assert_eq!(store.asked, ["GetOrderById"]);
}

#[test]
fn orders_leave_nothing_negative() {
    let mut store = Store::new(vec![user(dec(100, 0))], vec![position(dec(3, 0), dec(10, 0))]);
    let mut book = OrderBook::new();
    for round in 1..40i128 {
        let prices = prices_of(&[(SOL, Some(dec(7 + round % 5, 0)))]);
        let side = if round % 3 == 0 { Side::Sell } else { Side::Buy };
        let kind = if round % 2 == 0 { OrderType::Limit } else { OrderType::Market };
        let limit = Some(dec(70 + round, 1));
        let (_, entry) = place(&mut store, &prices, side, dec(round, 0), kind, limit).unwrap();
        if let Some(entry) = entry {
            book.add(entry);
        }
        for (entry, price) in book.drain_fillable(&prices) {
            run_filling(fill_order(entry, price), &mut store).unwrap();
        }
        assert!(store.balance().0 >= 0);
        assert!(store.positions.iter().all(|p| !p.quantity.is_negative()));
    }
    assert!(store.orders.iter().any(|o| o.status == OrderStatus::Rejected));
    assert!(store.orders.iter().any(|o| o.status == OrderStatus::Filled));
}

#[test]
fn canceling_a_sell_of_everything_loses_the_average_price() {
    let mut store = Store::new(vec![user(dec(1, 0))], vec![position(dec(2, 0), dec(9, 0))]);
    let prices = new_price_cache();
    let limit = Some(dec(20, 0));
    let (order, entry) =
        place(&mut store, &prices, Side::Sell, dec(2, 0), OrderType::Limit, limit).unwrap();
    let mut book = OrderBook::new();
    book.add(entry.unwrap());
    run_canceling(cancel_order(claims("u1"), order.id, &mut book), &mut store).unwrap();
    assert_eq!(store.quantity(), (2, 0));
    assert_eq!(store.average(), (0, 0));
}

#[test]
fn an_order_of_someone_else_is_not_canceled() {
    let mut store = Store::new(vec![user(dec(1, 0))], vec![]);
    let mut book = OrderBook::new();
    book.add(pending("a", Side::Buy, dec(1, 0)));
    book.add(pending("b", Side::Buy, dec(1, 0)));
    let result = run_canceling(cancel_order(claims("u2"), "a".to_string(), &mut book), &mut store);
    assert_eq!(result.unwrap_err().message(), "Forbidden: Order does not belong to you");
    assert_eq!(book.len(), 2);
    assert!(store.asked.is_empty());
    // The order went to the end of the book.
    let drained = book.drain_fillable(&prices_of(&[(SOL, Some(dec(1, 0)))]));
    let ids: Vec<&str> = drained.iter().map(|(o, _)| o.order_id.as_str()).collect();
    assert_eq!(ids, ["b", "a"]);
}

#[test]
fn an_order_that_is_not_in_the_book_is_explained() {
    let mut store = Store::new(vec![user(dec(1, 0))], vec![]);
    let mut book = OrderBook::new();
    let mut cancel = |who: &str, store: &mut Store| {
        run_canceling(cancel_order(claims(who), "o".to_string(), &mut book), store)
            .unwrap_err()
            .message()
    };
    assert_eq!(cancel("u1", &mut store), "Not found: Order o not found");
    let mut record = exchange_sim::db::insert_order(&sample_order()).into_model();
    record.status = OrderStatus::Pending;
    store.orders.push(record);
    assert_eq!(
        cancel("u1", &mut store),
        "Bad request: Order cannot be canceled: status is pending"
    );
    assert_eq!(cancel("u2", &mut store), "Forbidden: Order does not belong to you");
}

fn sample_order() -> Order {
    Order {
        id: "o".to_string(),
        user_id: "u1".to_string(),
        symbol: SOL.to_string(),
        side: Side::Buy,
        order_type: OrderType::Limit,
        limit_price: Some(dec(1, 0)),
        price: dec(0, 0),
        amount: dec(2, 0),
        total_usdc: dec(0, 0),
        status: OrderStatus::Pending,
        reject_reason: None,
        created_at: at(0),
        updated_at: at(0),
    }
}

#[test]
fn a_cancellation_needs_the_record_and_the_user() {
    let mut store = Store::new(vec![], vec![]);
    let mut book = OrderBook::new();
    book.add(pending("o", Side::Buy, dec(1, 0)));
    let progress = cancel_order(claims("u1"), "o".to_string(), &mut book);
    assert_eq!(
        run_canceling(progress, &mut store).unwrap_err().message(),
        "Not found: Order o not found in DB"
    );
    book.add(pending("o", Side::Buy, dec(1, 0)));
    store.orders.push(sample_order());
    let progress = cancel_order(claims("u1"), "o".to_string(), &mut book);
    assert_eq!(
        run_canceling(progress, &mut store).unwrap_err().message(),
        "Not found: User not found"
    );
}

#[test]
fn a_new_entry_takes_over_the_order() {
    let order = sample_order();
    let entry = new_pending(&order, dec(4, 0), dec(5, 0));
    assert_eq!(entry.order_id, "o");
    assert_eq!(parts(&entry.limit_price), (1, 0));
    assert_eq!(parts(&entry.locked_usdc), (4, 0));
    assert_eq!(parts(&entry.locked_qty), (5, 0));
    let market = Order { limit_price: None, ..order };
    assert_eq!(parts(&new_pending(&market, dec(0, 0), dec(0, 0)).limit_price), (0, 0));
}

fn submit(
    store: &mut Store,
    book: &mut OrderBook,
    session: Result<Claims, AppError>,
    body: PlaceOrderRequest,
) -> Result<Order, AppError> {
    let prices = prices_of(&[(SOL, Some(dec(10, 0)))]);
    let supported = symbols();
    let engine = Engine::new(&prices, &supported);
    let mut progress: Progress<Submitting, Order> = place_order(session, body);
    loop {
        match progress {
            Progress::Finished(result) => return result,
            Progress::Ask(request, state) => {
                let reply = store.answer(&request);
                assert!(request.accepts(&reply));
                progress = state.resume(reply, &engine, book);
            }
        }
    }
}

fn body(order_type: OrderType) -> PlaceOrderRequest {
    PlaceOrderRequest {
        symbol: "SOL-USDC".to_string(),
        side: Side::Buy,
        amount: dec(2, 0),
        order_type,
        limit_price: Some(dec(5, 0)),
    }
}

#[test]
fn a_request_for_an_order_places_it() {
    let mut store = Store::new(vec![user(dec(100, 0))], vec![]);
    let mut book = OrderBook::new();
    let filled = submit(&mut store, &mut book, claims("u1"), body(OrderType::Market)).unwrap();
    assert_eq!(placed_status(&filled), 201);
    assert_eq!(book.len(), 0);
    let pending = submit(&mut store, &mut book, claims("u1"), body(OrderType::Limit)).unwrap();
    assert_eq!(placed_status(&pending), 200);
    assert_eq!(book.len(), 1);
    assert_eq!(parts(&book.remove(&pending.id).unwrap().locked_usdc), (10, 0));
    assert_eq!(store.balance(), (70, 0));
}

#[test]
fn a_request_for_an_order_needs_a_session_and_a_user() {
    let mut store = Store::new(vec![], vec![]);
    let mut book = OrderBook::new();
    let refused = Err(AppError::Unauthorized("no".to_string()));
    let result = submit(&mut store, &mut book, refused, body(OrderType::Market));
    assert_eq!(result.unwrap_err().message(), "Unauthorized: no");
    assert!(store.asked.is_empty());
    let result = submit(&mut store, &mut book, claims("u1"), body(OrderType::Market));
    assert_eq!(result.unwrap_err().message(), "Not found: User not found");
    let refused = Err(AppError::Unauthorized("no".to_string()));
    assert!(run_canceling(cancel_order(refused, "o".to_string(), &mut book), &mut store).is_err());
}

#[test]
fn lists_of_orders_are_limited() {
    let asked = |limit: Option<u32>| match list_orders(claims("u1"), LimitQuery { limit }) {
        Progress::Ask(StoreRequest::ListOrdersForUser(id, n), state) => {
            let replied = state.resume(StoreReply::Orders(vec![sample_order()]));
            match replied {
                Progress::Finished(Ok(orders)) => assert_eq!(orders.len(), 1),
                _ => panic!("no list"),
            }
            (id, n)
        }
        _ => panic!("not asked"),
    };
    assert_eq!(asked(None), ("u1".to_string(), 50));
    assert_eq!(asked(Some(7)), ("u1".to_string(), 7));
    assert_eq!(asked(Some(500)), ("u1".to_string(), 500));
    assert_eq!(asked(Some(501)), ("u1".to_string(), 500));
    let refused = Err(AppError::Unauthorized("no".to_string()));
    assert!(matches!(
        list_orders(refused, LimitQuery { limit: None }),
        Progress::Finished(Err(AppError::Unauthorized(_)))
    ));
}

#[test]
fn a_store_that_fails_ends_a_fill_and_a_cancellation() {
    for fail_at in 0..5 {
        let mut store = Store::new(vec![user(dec(60, 0))], vec![]);
        store.fail_at = fail_at;
        let begun = fill_order(pending("o", Side::Buy, dec(20, 0)), dec(15, 0));
        let failure = run_filling(begun, &mut store).unwrap_err();
        assert_eq!(failure.message(), "ClickHouse error: down");
        assert_eq!(failure.error_response().0, 500);
    }
    for fail_at in 0..4 {
        let mut store = Store::new(vec![user(dec(60, 0))], vec![]);
        store.orders.push(sample_order());
        store.fail_at = fail_at;
        let mut book = OrderBook::new();
        book.add(pending("o", Side::Buy, dec(20, 0)));
        let begun = cancel_order(claims("u1"), "o".to_string(), &mut book);
        let failure = run_canceling(begun, &mut store).unwrap_err();
        assert_eq!(failure.message(), "ClickHouse error: down");
        assert_eq!(book.len(), 0);
    }
}

#[test]
fn a_reply_has_to_fit_the_request() {
    let ask = StoreRequest::GetUserById("u".to_string());
    assert!(ask.accepts(&StoreReply::User(None)));
    assert!(ask.accepts(&StoreReply::Failed("x".to_string())));
    assert!(!ask.accepts(&StoreReply::Inserted));
    assert!(!ask.accepts(&StoreReply::Order(None)));
    assert!(StoreRequest::ListUsers.accepts(&StoreReply::Users(Vec::new())));
    assert!(!StoreRequest::ListUsers.accepts(&StoreReply::User(None)));
}
