use exchange_sim::db::{
    all_orders, all_positions, all_users, first_order, first_user, insert_order, insert_user,
    update_order_fill, update_order_status, upsert_position, OrderRow, PositionRow, UserRow,
};
use exchange_sim::decimal::Decimal;
use exchange_sim::error::AppError;
use exchange_sim::models::{
    new_id, Order, OrderStatus, OrderType, Position, Side, User, UserRole,
};
use exchange_sim::timestamp::Timestamp;

fn dec(mantissa: i128, scale: u32) -> Decimal {
    Decimal::new(mantissa, scale).unwrap()
}

fn parts(d: &Decimal) -> (i128, u32) {
    (d.mantissa(), d.scale())
}

fn at(secs: i64) -> Timestamp {
    Timestamp::new(secs, 0).unwrap()
}

fn user() -> User {
    User {
        id: "u1".to_string(),
        username: "ann".to_string(),
        password_hash: "h".to_string(),
        role: UserRole::Admin,
        balance_usdc: dec(-1_000_050, 4),
        created_at: Timestamp::new(1_704_164_645, 678_901_234).unwrap(),
        is_active: true,
    }
}

fn order() -> Order {
    Order {
        id: "o1".to_string(),
        user_id: "u1".to_string(),
        symbol: "SOL/USDC".to_string(),
        side: Side::Sell,
        order_type: OrderType::StopLimit,
        limit_price: Some(dec(5, 1)),
        price: dec(0, 0),
        amount: dec(1, 28),
        total_usdc: dec(79_228_162_514_264_337_593_543_950_335, 0),
        status: OrderStatus::Pending,
        reject_reason: Some("no".to_string()),
        created_at: at(0),
        updated_at: at(-1),
    }
}

#[test]
fn names_read_back() {
    for role in [UserRole::Admin, UserRole::Trader] {
        assert_eq!(UserRole::from_str(role.as_str()), Some(role));
    }
    for order_type in [OrderType::Market, OrderType::Limit, OrderType::StopLimit] {
        assert_eq!(OrderType::from_str(order_type.as_str()), Some(order_type));
    }
    for side in [Side::Buy, Side::Sell] {
        assert_eq!(Side::from_str(side.as_str()), Some(side));
    }
    let all = [
        OrderStatus::Filled,
        OrderStatus::Rejected,
        OrderStatus::Pending,
        OrderStatus::Canceled,
    ];
    for status in all {
        assert_eq!(OrderStatus::from_str(status.as_str()), Some(status));
    }
}

#[test]
fn names_are_the_expected_ones() {
    assert_eq!(UserRole::Admin.as_str(), "admin");
    assert_eq!(UserRole::Trader.as_str(), "trader");
    assert_eq!(OrderType::Market.as_str(), "market");
    assert_eq!(OrderType::Limit.as_str(), "limit");
    assert_eq!(OrderType::StopLimit.as_str(), "stop_limit");
    assert_eq!(Side::Buy.as_str(), "buy");
    assert_eq!(Side::Sell.as_str(), "sell");
    assert_eq!(OrderStatus::Filled.as_str(), "filled");
    assert_eq!(OrderStatus::Rejected.as_str(), "rejected");
    assert_eq!(OrderStatus::Pending.as_str(), "pending");
    assert_eq!(OrderStatus::Canceled.as_str(), "canceled");
    assert_eq!(UserRole::from_str("Admin"), None);
    assert_eq!(OrderType::from_str(""), None);
    assert_eq!(Side::from_str("hold"), None);
    assert_eq!(OrderStatus::from_str("cancelled"), None);
}

#[test]
fn ids_are_random_uuids() {
    let a = new_id();
    let b = new_id();
    assert_ne!(a, b);
    assert_eq!(a.len(), 36);
    assert_eq!(a.as_bytes()[14], b'4');
    for (i, c) in a.chars().enumerate() {
        if i == 8 || i == 13 || i == 18 || i == 23 {
            assert_eq!(c, '-');
        } else {
            assert!(c.is_ascii_digit() || ('a'..='f').contains(&c));
        }
    }
}

#[test]
fn a_user_is_written_as_a_row() {
    let row = insert_user(&user());
    assert_eq!(row.id, "u1");
    assert_eq!(row.username, "ann");
    assert_eq!(row.password_hash, "h");
    assert_eq!(row.role, "admin");
    assert_eq!(row.balance_usdc, "-100.0050");
    assert_eq!(row.created_at, "2024-01-02 03:04:05.678901");
    assert_eq!(row.is_active, 1);
    let inactive = insert_user(&User { is_active: false, ..user() });
    assert_eq!(inactive.is_active, 0);
}

#[test]
fn a_user_reads_back_from_its_row() {
    let read = insert_user(&user()).into_model_at(at(77));
    assert_eq!(read.id, "u1");
    assert_eq!(read.username, "ann");
    assert_eq!(read.password_hash, "h");
    assert_eq!(read.role, UserRole::Admin);
    assert_eq!(parts(&read.balance_usdc), (-1_000_050, 4));
    assert!(read.is_active);
    // The written time has no offset, so it is not read as a time.
    assert_eq!(read.created_at.secs(), 77);
}

#[test]
fn every_number_reads_back_from_its_text() {
    let largest = 79_228_162_514_264_337_593_543_950_335i128;
    let cases = [
        (0, 0, "0"),
        (0, 5, "0.00000"),
        (1, 0, "1"),
        (10, 1, "1.0"),
        (-5, 3, "-0.005"),
        (100, 0, "100"),
        (largest, 0, "79228162514264337593543950335"),
        (-largest, 14, "-792281625142643.37593543950335"),
        (largest, 28, "7.9228162514264337593543950335"),
        (7, 28, "0.0000000000000000000000000007"),
    ];
    for (mantissa, scale, text) in cases {
        let row = insert_user(&User { balance_usdc: dec(mantissa, scale), ..user() });
        assert_eq!(row.balance_usdc, text);
        assert_eq!(parts(&row.into_model_at(at(0)).balance_usdc), (mantissa, scale));
    }
}

#[test]
fn a_bad_user_row_falls_back() {
    let row = UserRow {
        id: "u2".to_string(),
        username: "bob".to_string(),
        password_hash: "".to_string(),
        role: "boss".to_string(),
        balance_usdc: "many".to_string(),
        created_at: "2024-01-02T03:04:05.5Z".to_string(),
        is_active: 2,
    };
    let read = row.into_model_at(at(77));
    assert_eq!(read.role, UserRole::Trader);
    assert_eq!(parts(&read.balance_usdc), (0, 0));
    assert_eq!(read.created_at.secs(), 1_704_164_645);
    assert_eq!(read.created_at.nanos(), 500_000_000);
    assert!(read.is_active);
}

#[test]
fn an_order_is_written_as_a_row() {
    let row = insert_order(&order());
    assert_eq!(row.side, "sell");
    assert_eq!(row.order_type, "stop_limit");
    assert_eq!(row.limit_price, "0.5");
    assert_eq!(row.price, "0");
    assert_eq!(row.amount, "0.0000000000000000000000000001");
    assert_eq!(row.total_usdc, "79228162514264337593543950335");
    assert_eq!(row.status, "pending");
    assert_eq!(row.reject_reason, "no");
    assert_eq!(row.realized_pnl, "");
    assert_eq!(row.created_at, "1970-01-01 00:00:00.000000");
    assert_eq!(row.updated_at, "1969-12-31 23:59:59.000000");
    let plain = insert_order(&Order { limit_price: None, reject_reason: None, ..order() });
    assert_eq!(plain.limit_price, "");
    assert_eq!(plain.reject_reason, "");
}

#[test]
fn an_order_reads_back_from_its_row() {
    let read = insert_order(&order()).into_model_at(at(77));
    assert_eq!(read.id, "o1");
    assert_eq!(read.user_id, "u1");
    assert_eq!(read.symbol, "SOL/USDC");
    assert_eq!(read.side, Side::Sell);
    assert_eq!(read.order_type, OrderType::StopLimit);
    assert_eq!(parts(&read.limit_price.unwrap()), (5, 1));
    assert_eq!(parts(&read.price), (0, 0));
    assert_eq!(parts(&read.amount), (1, 28));
    assert_eq!(parts(&read.total_usdc), (79_228_162_514_264_337_593_543_950_335, 0));
    assert_eq!(read.status, OrderStatus::Pending);
    assert_eq!(read.reject_reason, Some("no".to_string()));
    let plain = insert_order(&Order { limit_price: None, reject_reason: None, ..order() })
        .into_model_at(at(77));
    assert!(plain.limit_price.is_none());
    assert!(plain.reject_reason.is_none());
}

#[test]
fn a_bad_order_row_falls_back() {
    let row = OrderRow {
        id: "o".to_string(),
        user_id: "u".to_string(),
        symbol: "s".to_string(),
        side: "hold".to_string(),
        order_type: "iceberg".to_string(),
        price: "x".to_string(),
        amount: "".to_string(),
        total_usdc: "1.2.3".to_string(),
        limit_price: "cheap".to_string(),
        status: "open".to_string(),
        reject_reason: "".to_string(),
        realized_pnl: "".to_string(),
        created_at: "".to_string(),
        updated_at: "2024-01-02T03:04:05+01:00".to_string(),
    };
    let read = row.into_model_at(at(77));
    assert_eq!(read.side, Side::Buy);
    assert_eq!(read.order_type, OrderType::Market);
    assert_eq!(parts(&read.price), (0, 0));
    assert_eq!(parts(&read.amount), (0, 0));
    assert_eq!(parts(&read.total_usdc), (0, 0));
    assert!(read.limit_price.is_none());
    assert_eq!(read.status, OrderStatus::Rejected);
    assert_eq!(read.created_at.secs(), 77);
    assert_eq!(read.updated_at.secs(), 1_704_164_645 - 3600);
}

#[test]
fn a_position_is_written_and_reads_back() {
    let position = Position {
        user_id: "u1".to_string(),
        symbol: "BTC/USDC".to_string(),
        quantity: dec(150, 2),
        avg_buy_price: dec(65_000, 0),
        updated_at: at(60),
    };
    let row = upsert_position(&position);
    assert_eq!(row.quantity, "1.50");
    assert_eq!(row.avg_buy_price, "65000");
    assert_eq!(row.updated_at, "1970-01-01 00:01:00.000000");
    let read = row.into_model_at(at(77));
    assert_eq!(read.user_id, "u1");
    assert_eq!(read.symbol, "BTC/USDC");
    assert_eq!(parts(&read.quantity), (150, 2));
    assert_eq!(parts(&read.avg_buy_price), (65_000, 0));
    let bad = PositionRow {
        user_id: "u1".to_string(),
        symbol: "s".to_string(),
        quantity: "?".to_string(),
        avg_buy_price: "?".to_string(),
        updated_at: "1970-01-01T00:00:09Z".to_string(),
    };
    let read = bad.into_model_at(at(77));
    assert_eq!(parts(&read.quantity), (0, 0));
    assert_eq!(parts(&read.avg_buy_price), (0, 0));
    assert_eq!(read.updated_at.secs(), 9);
}

#[test]
fn an_unreadable_time_is_now() {
    let read = insert_user(&user()).into_model();
    assert!(read.created_at.secs() > 1_704_164_645);
    assert!(read.created_at.nanos() < 1_000_000_000);
}

#[test]
fn queries_give_the_first_row_or_all() {
    assert!(first_user(Vec::new()).is_none());
    assert!(first_order(Vec::new()).is_none());
    let second = User { id: "u2".to_string(), ..user() };
    let rows = vec![insert_user(&user()), insert_user(&second)];
    assert_eq!(first_user(rows).unwrap().id, "u1");
    let rows = vec![insert_user(&user()), insert_user(&second)];
    let ids: Vec<String> = all_users(rows).into_iter().map(|u| u.id).collect();
    assert_eq!(ids, vec!["u1".to_string(), "u2".to_string()]);
    assert_eq!(first_order(vec![insert_order(&order())]).unwrap().id, "o1");
    assert_eq!(all_orders(vec![insert_order(&order())]).len(), 1);
    assert_eq!(all_positions(Vec::new()).len(), 0);
}

#[test]
fn an_order_is_written_again_with_a_new_status() {
    let canceled = update_order_status(order(), OrderStatus::Canceled, at(5));
    assert_eq!(canceled.status, OrderStatus::Canceled);
    assert_eq!(canceled.updated_at.secs(), 5);
    assert_eq!(canceled.created_at.secs(), 0);
    assert_eq!(parts(&canceled.price), (0, 0));
    let filled = update_order_fill(order(), dec(2, 0), dec(6, 0), at(6));
    assert_eq!(filled.status, OrderStatus::Filled);
    assert_eq!(parts(&filled.price), (2, 0));
    assert_eq!(parts(&filled.total_usdc), (6, 0));
    assert_eq!(filled.updated_at.secs(), 6);
}

#[test]
fn errors_have_their_status_and_text() {
    let text = || "x".to_string();
    let cases: Vec<(AppError, u16, &str)> = vec![
        (AppError::Clickhouse(text()), 500, "ClickHouse error: x"),
        (AppError::NotFound(text()), 404, "Not found: x"),
        (AppError::Unauthorized(text()), 401, "Unauthorized: x"),
        (AppError::Forbidden(text()), 403, "Forbidden: x"),
        (AppError::BadRequest(text()), 400, "Bad request: x"),
        (AppError::UnknownSymbol(text()), 400, "Unknown symbol: x"),
        (AppError::Conflict(text()), 409, "Conflict: x"),
        (AppError::Internal(text()), 500, "Internal error: x"),
        (AppError::Overflow, 500, "Internal error: arithmetic overflow"),
    ];
    for (error, status, message) in cases {
        assert_eq!(error.error_response(), (status, message.to_string()));
    }
}

#[test]
fn decimals_and_times_have_their_range() {
    let largest = 79_228_162_514_264_337_593_543_950_335i128;
    assert!(Decimal::new(largest, 28).is_some());
    assert!(Decimal::new(-largest, 0).is_some());
    assert!(Decimal::new(largest + 1, 0).is_none());
    assert!(Decimal::new(0, 29).is_none());
    assert!(Timestamp::new(-8_334_601_228_800, 0).is_some());
    assert!(Timestamp::new(-8_334_601_228_801, 0).is_none());
    assert!(Timestamp::new(8_210_266_876_799, 0).is_some());
    assert!(Timestamp::new(8_210_266_876_800, 0).is_none());
    assert!(Timestamp::new(59, 1_500_000_000).is_some());
    assert!(Timestamp::new(60, 1_500_000_000).is_none());
    assert!(Timestamp::new(0, 2_000_000_000).is_none());
}

#[test]
fn rounding_goes_half_to_even() {
    assert_eq!(parts(&dec(125, 9).rounded()), (12, 8));
    assert_eq!(parts(&dec(135, 9).rounded()), (14, 8));
    assert_eq!(parts(&dec(-125, 9).rounded()), (-12, 8));
    assert_eq!(parts(&dec(126, 9).rounded()), (13, 8));
    assert_eq!(parts(&dec(5, 9).rounded()), (0, 8));
    assert_eq!(parts(&dec(5, 3).rounded()), (5, 3));
    assert_eq!(parts(&dec(0, 9).rounded()), (0, 8));
    assert_eq!(parts(&dec(-1, 9).rounded()), (0, 8));
    let largest = 79_228_162_514_264_337_593_543_950_335i128;
    assert_eq!(parts(&dec(largest, 28).rounded()), (792_281_625, 8));
    assert_eq!(parts(&dec(largest, 9).rounded()), (largest / 10 + 1, 8));
    assert_eq!(parts(&dec(150, 2).max(dec(15, 1))), (150, 2));
    assert_eq!(parts(&dec(1, 0).max(dec(11, 1))), (11, 1));
    assert_eq!(parts(&Decimal::whole(7)), (7, 0));
}
