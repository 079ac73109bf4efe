use exchange_sim::api::account::{get_account, get_pnl};
use exchange_sim::auth::Claims;
use exchange_sim::decimal::Decimal;
use exchange_sim::error::AppError;
use exchange_sim::models::{Order, OrderStatus, OrderType, Position, Side, User, UserRole};
use exchange_sim::pnl::pnl_stats;
use exchange_sim::store::{Progress, StoreReply, StoreRequest};
use exchange_sim::timestamp::Timestamp;
use exchange_sim::ws_client::{
    feed_step, new_price_cache, FeedEvent, MarketDataMessage, PriceCache, Quote,
};

fn dec(mantissa: i128, scale: u32) -> Decimal {
    Decimal::new(mantissa, scale).unwrap()
}

fn parts(d: &Decimal) -> (i128, u32) {
    (d.mantissa(), d.scale())
}

fn at(secs: i64) -> Timestamp {
    Timestamp::new(secs, 0).unwrap()
}

fn order(symbol: &str, side: Side, order_type: OrderType, price: Decimal, amount: Decimal) -> Order {
    Order {
        id: "o".to_string(),
        user_id: "u1".to_string(),
        symbol: symbol.to_string(),
        side,
        order_type,
        limit_price: None,
        price,
        amount,
        total_usdc: dec(0, 0),
        status: OrderStatus::Filled,
        reject_reason: None,
        created_at: at(0),
        updated_at: at(0),
    }
}

fn position(symbol: &str, quantity: Decimal, avg_buy_price: Decimal) -> Position {
    Position {
        user_id: "u1".to_string(),
        symbol: symbol.to_string(),
        quantity,
        avg_buy_price,
        updated_at: at(0),
    }
}

fn prices_of(quotes: &[(&str, Option<Decimal>)]) -> PriceCache {
    let mut prices = new_price_cache();
    for (symbol, price) in quotes {
        let message = MarketDataMessage {
            price: Quote { raw: "raw".to_string(), price: *price },
            symbol: symbol.to_string(),
        };
        feed_step(FeedEvent::Message(message), &mut prices);
    }
    prices
}

fn session() -> Result<Claims, AppError> {
    Ok(Claims {
        sub: "u1".to_string(),
        role: "trader".to_string(),
        exp: 0,
        jti: "t".to_string(),
    })
}

#[test]
fn nothing_traded_is_nothing_earned() {
    let stats = pnl_stats(&Vec::new(), &Vec::new(), &new_price_cache()).unwrap();
    assert_eq!(parts(&stats.realized_total), (0, 0));
    assert_eq!(parts(&stats.unrealized_total), (0, 0));
    assert!(stats.realized_by_symbol.is_empty());
    assert!(stats.realized_details.is_empty());
    assert!(stats.unrealized_by_symbol.is_empty());
    assert_eq!(parts(&stats.realized_by_order_type.market), (0, 0));
}

#[test]
fn sales_earn_against_the_average_price() {
    // SOL: bought 1 at 10 and 3 at 20, so the average is 17.50.
    let orders = vec![
        order("SOL", Side::Sell, OrderType::Market, dec(20, 0), dec(1, 0)),
        order("SOL", Side::Buy, OrderType::Market, dec(10, 0), dec(1, 0)),
        order("SOL", Side::Sell, OrderType::Limit, dec(15, 0), dec(2, 0)),
        order("SOL", Side::Buy, OrderType::Limit, dec(20, 0), dec(3, 0)),
        order("BTC", Side::Sell, OrderType::Market, dec(100, 0), dec(1, 0)),
        order("SOL", Side::Sell, OrderType::Market, dec(18, 0), dec(1, 0)),
    ];
    let stats = pnl_stats(&orders, &Vec::new(), &new_price_cache()).unwrap();
    let details: Vec<(String, &str, (i128, u32))> = stats
        .realized_details
        .iter()
        .map(|d| (d.symbol.clone(), d.order_type.as_str(), parts(&d.pnl)))
        .collect();
    assert_eq!(
        details,
        vec![
            ("BTC".to_string(), "market", (100, 0)),
            ("SOL".to_string(), "limit", (-500, 2)),
            ("SOL".to_string(), "market", (300, 2)),
        ]
    );
    let by_symbol: Vec<(String, (i128, u32))> =
        stats.realized_by_symbol.iter().map(|(s, d)| (s.clone(), parts(d))).collect();
    assert_eq!(by_symbol, vec![("BTC".to_string(), (100, 0)), ("SOL".to_string(), (-200, 2))]);
    assert_eq!(parts(&stats.realized_by_order_type.market), (10300, 2));
    assert_eq!(parts(&stats.realized_by_order_type.limit), (-500, 2));
    assert_eq!(parts(&stats.realized_by_order_type.stop_limit), (0, 0));
    assert_eq!(parts(&stats.realized_total), (9800, 2));
}

#[test]
fn the_average_price_has_eight_places() {
    let orders = vec![
        order("SOL", Side::Buy, OrderType::Market, dec(1, 0), dec(1, 0)),
        order("SOL", Side::Buy, OrderType::Market, dec(2, 0), dec(2, 0)),
        order("SOL", Side::Sell, OrderType::StopLimit, dec(2, 0), dec(3, 0)),
    ];
    let stats = pnl_stats(&orders, &Vec::new(), &new_price_cache()).unwrap();
    // The average is 5 / 3, rounded to 1.66666667.
    assert_eq!(parts(&stats.realized_total), (99_999_999, 8));
    assert_eq!(parts(&stats.realized_by_order_type.stop_limit), (99_999_999, 8));
}

#[test]
fn only_filled_orders_count() {
    let mut orders = vec![
        order("SOL", Side::Buy, OrderType::Market, dec(1, 0), dec(1, 0)),
        order("SOL", Side::Sell, OrderType::Market, dec(5, 0), dec(1, 0)),
        order("SOL", Side::Sell, OrderType::Market, dec(9, 0), dec(1, 0)),
        order("SOL", Side::Buy, OrderType::Market, dec(9, 0), dec(1, 0)),
    ];
    orders[2].status = OrderStatus::Rejected;
    orders[3].status = OrderStatus::Canceled;
    let stats = pnl_stats(&orders, &Vec::new(), &new_price_cache()).unwrap();
    assert_eq!(parts(&stats.realized_total), (4, 0));
}

#[test]
fn open_positions_are_valued_at_the_live_price() {
    let positions = vec![
        position("SOL", dec(2, 0), dec(10, 0)),
        position("BTC", dec(1, 0), dec(100, 0)),
        position("ETH", dec(0, 2), dec(7, 0)),
        position("ODD", dec(1, 0), dec(3, 0)),
    ];
    let prices = prices_of(&[("SOL", Some(dec(1_250_000_000_4, 9))), ("ODD", None)]);
    let stats = pnl_stats(&Vec::new(), &positions, &prices).unwrap();
    let found: Vec<(String, (i128, u32), (i128, u32))> = stats
        .unrealized_by_symbol
        .iter()
        .map(|(s, p)| (s.clone(), parts(&p.current_price), parts(&p.pnl)))
        .collect();
    assert_eq!(
        found,
        vec![
            ("SOL".to_string(), (1_250_000_000, 8), (500_000_000, 8)),
            ("BTC".to_string(), (0, 0), (-100, 0)),
            ("ODD".to_string(), (0, 0), (-3, 0)),
        ]
    );
    assert_eq!(parts(&stats.unrealized_by_symbol[0].1.quantity), (2, 0));
    assert_eq!(parts(&stats.unrealized_by_symbol[0].1.avg_buy_price), (10, 0));
    assert_eq!(parts(&stats.unrealized_total), (-9_800_000_000, 8));
}

#[test]
fn a_symbol_that_is_listed_twice_counts_twice_and_is_shown_once() {
    let positions =
        vec![position("SOL", dec(1, 0), dec(1, 0)), position("SOL", dec(2, 0), dec(1, 0))];
    let prices = prices_of(&[("SOL", Some(dec(2, 0)))]);
    let stats = pnl_stats(&Vec::new(), &positions, &prices).unwrap();
    assert_eq!(parts(&stats.unrealized_total), (3, 0));
    assert_eq!(stats.unrealized_by_symbol.len(), 1);
    assert_eq!(parts(&stats.unrealized_by_symbol[0].1.pnl), (2, 0));
}

#[test]
fn numbers_out_of_range_give_no_result() {
    let largest = dec(79_228_162_514_264_337_593_543_950_335, 0);
    let bought = vec![order("SOL", Side::Buy, OrderType::Market, largest, dec(2, 0))];
    assert!(pnl_stats(&bought, &Vec::new(), &new_price_cache()).is_none());
    let sold = vec![
        order("SOL", Side::Sell, OrderType::Market, largest, dec(1, 0)),
        order("SOL", Side::Sell, OrderType::Market, largest, dec(1, 0)),
    ];
    assert!(pnl_stats(&sold, &Vec::new(), &new_price_cache()).is_none());
    let open = vec![position("SOL", dec(2, 0), largest)];
    assert!(pnl_stats(&Vec::new(), &open, &new_price_cache()).is_none());
}

#[test]
fn the_request_reads_orders_and_positions() {
    let prices = prices_of(&[("SOL", Some(dec(2, 0)))]);
    let state = match get_pnl(session()) {
        Progress::Ask(StoreRequest::ListOrdersForUser(id, limit), state) => {
            assert_eq!((id.as_str(), limit), ("u1", u32::MAX));
            state
        }
        _ => panic!("not asked"),
    };
    let state = match state.resume(StoreReply::Orders(Vec::new()), &prices) {
        Progress::Ask(StoreRequest::GetPositionsForUser(id), state) => {
            assert_eq!(id, "u1");
            state
        }
        _ => panic!("not asked"),
    };
    let positions = vec![position("SOL", dec(1, 0), dec(1, 0))];
    match state.resume(StoreReply::Positions(positions), &prices) {
        Progress::Finished(Ok(stats)) => assert_eq!(parts(&stats.unrealized_total), (1, 0)),
        _ => panic!("no result"),
    }
}

#[test]
fn a_long_history_counts_from_its_first_order() {
    // The newest order first: a sell, then many that came to nothing, then the first buy.
    let mut history = vec![order("SOL", Side::Sell, OrderType::Market, dec(150, 0), dec(1, 0))];
    for _ in 0..9_999 {
        let mut rejected = order("SOL", Side::Buy, OrderType::Market, dec(1, 0), dec(1, 0));
        rejected.status = OrderStatus::Rejected;
        history.push(rejected);
    }
    history.push(order("SOL", Side::Buy, OrderType::Market, dec(100, 0), dec(1, 0)));
    assert_eq!(history.len(), 10_001);
    let prices = new_price_cache();
    let (limit, state) = match get_pnl(session()) {
        Progress::Ask(StoreRequest::ListOrdersForUser(_, limit), state) => (limit, state),
        _ => panic!("not asked"),
    };
    let listed: Vec<Order> = history.into_iter().take(limit as usize).collect();
    let state = match state.resume(StoreReply::Orders(listed), &prices) {
        Progress::Ask(_, state) => state,
        _ => panic!("not asked"),
    };
    match state.resume(StoreReply::Positions(Vec::new()), &prices) {
        Progress::Finished(Ok(stats)) => assert_eq!(parts(&stats.realized_total), (50, 0)),
        _ => panic!("no result"),
    }
}

#[test]
fn the_order_of_the_orders_does_not_matter() {
    let mut orders = vec![
        order("SOL", Side::Buy, OrderType::Market, dec(10, 0), dec(15, 1)),
        order("SOL", Side::Sell, OrderType::Market, dec(2025, 2), dec(1, 0)),
        order("BTC", Side::Sell, OrderType::StopLimit, dec(7, 0), dec(1, 0)),
        order("SOL", Side::Buy, OrderType::Limit, dec(205, 1), dec(3, 0)),
        order("SOL", Side::Sell, OrderType::Limit, dec(15, 0), dec(25, 1)),
        order("BTC", Side::Buy, OrderType::Market, dec(8, 0), dec(4, 0)),
    ];
    let number = |d: &Decimal| d.mantissa() * 10i128.pow(12 - d.scale());
    let numbers = |orders: &Vec<Order>| {
        let stats = pnl_stats(orders, &Vec::new(), &new_price_cache()).unwrap();
        let mut all = vec![number(&stats.realized_total)];
        all.extend(stats.realized_by_symbol.iter().map(|(_, d)| number(d)));
        all.extend(stats.realized_details.iter().map(|d| number(&d.pnl)));
        let types = &stats.realized_by_order_type;
        all.extend([&types.market, &types.limit, &types.stop_limit].map(number));
        all
    };
    let first = numbers(&orders);
    assert_eq!(first[0], -2_750_000_000_000);
    for turn in 0..orders.len() {
        orders.rotate_left(1);
        if turn % 2 == 0 {
            orders.swap(0, 3);
        }
        assert_eq!(numbers(&orders), first);
    }
    let mut rejected = order("SOL", Side::Buy, OrderType::Market, dec(1, 0), dec(1, 0));
    rejected.status = OrderStatus::Rejected;
    orders.insert(2, rejected);
    assert_eq!(numbers(&orders), first);
}

#[test]
fn the_totals_agree_and_name_each_symbol_once() {
    let orders = vec![
        order("SOL", Side::Buy, OrderType::Market, dec(10, 0), dec(1, 0)),
        order("SOL", Side::Sell, OrderType::Market, dec(125, 1), dec(1, 0)),
        order("SOL", Side::Sell, OrderType::Limit, dec(9, 0), dec(2, 0)),
        order("BTC", Side::Sell, OrderType::StopLimit, dec(333, 2), dec(1, 0)),
        order("BTC", Side::Sell, OrderType::Market, dec(1, 0), dec(1, 0)),
    ];
    let open = vec![
        position("SOL", dec(1, 0), dec(1, 0)),
        position("SOL", dec(2, 0), dec(1, 0)),
        position("BTC", dec(1, 0), dec(1, 0)),
    ];
    let stats = pnl_stats(&orders, &open, &new_price_cache()).unwrap();
    // 2.5 - 2 for SOL, 3.33 + 1 for BTC.
    let hundredths = |d: &Decimal| d.mantissa() * 10i128.pow(2 - d.scale());
    let total = hundredths(&stats.realized_total);
    assert_eq!(total, 483);
    let details: i128 = stats.realized_details.iter().map(|d| hundredths(&d.pnl)).sum();
    let symbols: i128 = stats.realized_by_symbol.iter().map(|(_, d)| hundredths(d)).sum();
    let types = &stats.realized_by_order_type;
    let kinds = hundredths(&types.market) + hundredths(&types.limit) + hundredths(&types.stop_limit);
    assert_eq!((details, symbols, kinds), (total, total, total));
    let realized: Vec<&str> = stats.realized_by_symbol.iter().map(|(s, _)| s.as_str()).collect();
    assert_eq!(realized, ["BTC", "SOL"]);
    let unrealized: Vec<&str> = stats.unrealized_by_symbol.iter().map(|(s, _)| s.as_str()).collect();
    assert_eq!(unrealized, ["SOL", "BTC"]);
}

#[test]
fn the_request_gives_up_where_numbers_leave_their_range() {
    let largest = dec(79_228_162_514_264_337_593_543_950_335, 0);
    let prices = new_price_cache();
    let state = match get_pnl(session()) {
        Progress::Ask(_, state) => state,
        _ => panic!("not asked"),
    };
    let orders = vec![order("SOL", Side::Buy, OrderType::Market, largest, dec(2, 0))];
    let state = match state.resume(StoreReply::Orders(orders), &prices) {
        Progress::Ask(_, state) => state,
        _ => panic!("not asked"),
    };
    assert!(matches!(
        state.resume(StoreReply::Positions(Vec::new()), &prices),
        Progress::Finished(Err(AppError::Overflow))
    ));
    assert!(matches!(
        get_pnl(Err(AppError::Unauthorized("no".to_string()))),
        Progress::Finished(Err(AppError::Unauthorized(_)))
    ));
}

#[test]
fn an_account_shows_balance_and_positions() {
    let user = User {
        id: "u1".to_string(),
        username: "ann".to_string(),
        password_hash: "h".to_string(),
        role: UserRole::Trader,
        balance_usdc: dec(5, 0),
        created_at: at(0),
        is_active: true,
    };
    let begin = || match get_account(session()) {
        Progress::Ask(StoreRequest::GetUserById(id), state) => {
            assert_eq!(id, "u1");
            state
        }
        _ => panic!("not asked"),
    };
    let state = match begin().resume(StoreReply::User(Some(user))) {
        Progress::Ask(StoreRequest::GetPositionsForUser(id), state) => {
            assert_eq!(id, "u1");
            state
        }
        _ => panic!("not asked"),
    };
    match state.resume(StoreReply::Positions(vec![position("SOL", dec(1, 0), dec(1, 0))])) {
        Progress::Finished(Ok(account)) => {
            assert_eq!(account.user_id, "u1");
            assert_eq!(account.username, "ann");
            assert_eq!(account.role, UserRole::Trader);
            assert_eq!(parts(&account.balance_usdc), (5, 0));
            assert_eq!(account.positions.len(), 1);
        }
        _ => panic!("no account"),
    }
    match begin().resume(StoreReply::User(None)) {
        Progress::Finished(Err(e)) => assert_eq!(e.message(), "Not found: User not found"),
        _ => panic!("found"),
    }
    assert!(matches!(
        get_account(Err(AppError::Unauthorized("no".to_string()))),
        Progress::Finished(Err(AppError::Unauthorized(_)))
    ));
}
