//! What the exchange does around its orders: how it is configured, how it starts, how it keeps
//! to the feed, what it answers to an error, and what it writes in the rows of its store.

use vstd::prelude::*;

use crate::config::{trading_pairs, ConfigView, EnvironmentView};
use crate::db::{with_fill, with_status, OrderRowView, PositionRowView, UserRowView};
use crate::decimal::{decimal_parsed, decimal_text, decimal_zero, DecimalView};
use crate::error::AppErrorView;
use crate::models::{
    law_order_status_names, law_order_type_names, law_role_names, law_side_names, OrderStatus,
    OrderType, OrderView, PositionView, Side, UserRole, UserView,
};
use crate::startup::{pow2, step_after, StartupStep};
use crate::text::{parsed_unsigned, split_on};
use crate::timestamp::{timestamp_parsed, timestamp_text, TimestampView};
use crate::ws_client::{feed_action, lookup, quotes_after, FeedAction, FeedEvent, QuoteView};

verus! {

/// Whether a setting is the variable as it is set, or the default where it is not set.
pub open spec fn is_set(
    variable: Option<Seq<char>>,
    setting: Seq<char>,
    default: Seq<char>,
) -> bool {
    &&& variable matches Some(text) ==> setting == text
    &&& variable is None ==> setting == default
}

/// Whether a setting is the number that the variable writes, or the default where it writes none
/// that is in range.
pub open spec fn is_number_set(
    variable: Option<Seq<char>>,
    setting: int,
    max: nat,
    default: int,
) -> bool {
    &&& variable is None ==> setting == default
    &&& variable matches Some(text) ==> {
        &&& parsed_unsigned(text, max) matches Some(n) ==> setting == n
        &&& parsed_unsigned(text, max) is None ==> setting == default
    }
}

/// Every setting comes from the variable of its own, and from no other.
pub proof fn law_settings(env: EnvironmentView)
    ensures
        is_set(env.host, ConfigView::of(env).host, "0.0.0.0"@),
        is_number_set(env.port, ConfigView::of(env).port as int, 65535, 8081),
        is_set(env.clickhouse_url, ConfigView::of(env).clickhouse_url, "http://localhost:8123"@),
        is_set(env.clickhouse_user, ConfigView::of(env).clickhouse_user, "exchange_user"@),
        is_set(env.clickhouse_password, ConfigView::of(env).clickhouse_password, "exchange_pass"@),
        is_set(env.clickhouse_db, ConfigView::of(env).clickhouse_db, "exchange"@),
        is_set(env.hft_ws_url, ConfigView::of(env).hft_ws_url, "ws://localhost:8080/v1/feed"@),
        is_set(
            env.jwt_secret,
            ConfigView::of(env).jwt_secret,
            "change-me-in-production-secret-key"@,
        ),
        is_number_set(
            env.jwt_expiry_hours,
            ConfigView::of(env).jwt_expiry_hours as int,
            0xffff_ffff_ffff_ffff,
            24,
        ),
        env.symbols matches Some(list) ==> ConfigView::of(env).symbols == trading_pairs(
            split_on(list, ','),
        ),
        env.symbols is None ==> ConfigView::of(env).symbols == trading_pairs(
            split_on("SOL/USDC,BTC/USDC"@, ','),
        ),
{
}

/// A store that is ready is used at once. Else the exchange waits: two seconds after the first
/// failure, twice as long after each further one, but no longer than sixteen seconds; at the
/// tenth failure it gives up.
pub proof fn law_startup(failed: nat)
    ensures
        step_after(failed, true) == StartupStep::Go,
        failed >= 9 ==> step_after(failed, false) == StartupStep::GiveUp,
        failed < 9 ==> step_after(failed, false) is Retry,
        failed == 0 ==> step_after(failed, false) == (StartupStep::Retry { delay_secs: 2 }),
        failed < 8 ==> step_after(failed + 1, false)->delay_secs == if 2 * step_after(
            failed,
            false,
        )->delay_secs <= 16 {
            2 * step_after(failed, false)->delay_secs
        } else {
            16
        },
{
    reveal_with_fuel(pow2, 6);
}

/// The client of the feed stops when it is told to, and only then. It connects again after every
/// wait: three seconds where there was no connection, one second where it was lost. While it is
/// connected it reads.
pub proof fn law_feed(event: FeedEvent)
    ensures
        feed_action(event) is Stop <==> event is Cancelled,
        feed_action(event) is Connect <==> event is Waited,
        feed_action(event) == FeedAction::Wait(3) <==> event is ConnectFailed,
        feed_action(event) == FeedAction::Wait(1) <==> event is Closed || event is Broken,
        feed_action(event) is Read <==> event is Connected || event is Message
            || event is Ignored,
{
}

/// A live price changes by a message on its symbol, and by nothing else that happens on the feed.
pub proof fn law_prices_are_of_the_feed(
    quotes: Map<Seq<char>, QuoteView>,
    event: FeedEvent,
    symbol: Seq<char>,
)
    ensures
        match event {
            FeedEvent::Message(message) if message.symbol@ == symbol => lookup(
                quotes_after(quotes, event),
                symbol,
            ) == Some(message.price@),
            _ => lookup(quotes_after(quotes, event), symbol) == lookup(quotes, symbol),
        },
{
}

/// An error is answered with the status of its kind, and with a text that starts with the name
/// of its kind and ends with what it says. What the client did wrong has a status of the four
/// hundreds, and what the exchange could not do the status 500.
pub proof fn law_error_answers(text: Seq<char>, error: AppErrorView)
    ensures
        AppErrorView::NotFound(text).status() == 404,
        AppErrorView::NotFound(text).message() == "Not found: "@ + text,
        AppErrorView::Unauthorized(text).status() == 401,
        AppErrorView::Unauthorized(text).message() == "Unauthorized: "@ + text,
        AppErrorView::Forbidden(text).status() == 403,
        AppErrorView::Forbidden(text).message() == "Forbidden: "@ + text,
        AppErrorView::Conflict(text).status() == 409,
        AppErrorView::Conflict(text).message() == "Conflict: "@ + text,
        AppErrorView::BadRequest(text).status() == 400,
        AppErrorView::BadRequest(text).message() == "Bad request: "@ + text,
        AppErrorView::UnknownSymbol(text).status() == 400,
        AppErrorView::UnknownSymbol(text).message() == "Unknown symbol: "@ + text,
        AppErrorView::Clickhouse(text).message() == "ClickHouse error: "@ + text,
        AppErrorView::Internal(text).message() == "Internal error: "@ + text,
        AppErrorView::Overflow.message() == "Internal error: arithmetic overflow"@,
        error.status() == 500 <==> error is Clickhouse || error is Internal || error is Overflow,
{
}

/// Whether a column is read as a number: the one that it writes, or zero where it writes none.
pub open spec fn number_in(column: Seq<char>, number: DecimalView) -> bool {
    &&& decimal_parsed(column) matches Some(d) ==> number == d
    &&& decimal_parsed(column) is None ==> number == decimal_zero()
}

/// Whether a column is read as a time: the one that it writes, or the time of the reading.
pub open spec fn time_in(column: Seq<char>, time: TimestampView, now: TimestampView) -> bool {
    &&& timestamp_parsed(column) matches Some(t) ==> time == t
    &&& timestamp_parsed(column) is None ==> time == now
}

/// The row of a user has each thing in the column of its own.
pub proof fn law_user_row(user: UserView)
    ensures
        UserRowView::of(user).id == user.id,
        UserRowView::of(user).username == user.username,
        UserRowView::of(user).password_hash == user.password_hash,
        UserRowView::of(user).role == match user.role {
            UserRole::Admin => "admin"@,
            UserRole::Trader => "trader"@,
        },
        UserRowView::of(user).balance_usdc == decimal_text(user.balance_usdc),
        UserRowView::of(user).created_at == timestamp_text(user.created_at),
        UserRowView::of(user).is_active != 0 <==> user.is_active,
        UserRowView::of(user).is_active <= 1,
{
}

/// A row is read as the user with what its columns hold. Only the name of the role makes an
/// administrator.
pub proof fn law_user_read(row: UserRowView, now: TimestampView)
    ensures
        row.model(now).id == row.id,
        row.model(now).username == row.username,
        row.model(now).password_hash == row.password_hash,
        row.model(now).role is Admin <==> row.role == "admin"@,
        number_in(row.balance_usdc, row.model(now).balance_usdc),
        time_in(row.created_at, row.model(now).created_at, now),
        row.model(now).is_active <==> row.is_active != 0,
{
    law_role_names(UserRole::Admin, row.role);
    law_role_names(UserRole::Trader, row.role);
}

/// The row of an order has each thing in the column of its own; the column of the limit price is
/// empty where there is none, and so is that of the reason.
pub proof fn law_order_row(order: OrderView)
    ensures
        OrderRowView::of(order).id == order.id,
        OrderRowView::of(order).user_id == order.user_id,
        OrderRowView::of(order).symbol == order.symbol,
        OrderRowView::of(order).side == match order.side {
            Side::Buy => "buy"@,
            Side::Sell => "sell"@,
        },
        OrderRowView::of(order).order_type == match order.order_type {
            OrderType::Market => "market"@,
            OrderType::Limit => "limit"@,
            OrderType::StopLimit => "stop_limit"@,
        },
        OrderRowView::of(order).price == decimal_text(order.price),
        OrderRowView::of(order).amount == decimal_text(order.amount),
        OrderRowView::of(order).total_usdc == decimal_text(order.total_usdc),
        order.limit_price matches Some(limit) ==> OrderRowView::of(order).limit_price
            == decimal_text(limit),
        order.limit_price is None ==> OrderRowView::of(order).limit_price.len() == 0,
        OrderRowView::of(order).status == match order.status {
            OrderStatus::Pending => "pending"@,
            OrderStatus::Filled => "filled"@,
            OrderStatus::Rejected => "rejected"@,
            OrderStatus::Canceled => "canceled"@,
        },
        order.reject_reason matches Some(reason) ==> OrderRowView::of(order).reject_reason
            == reason,
        order.reject_reason is None ==> OrderRowView::of(order).reject_reason.len() == 0,
        OrderRowView::of(order).realized_pnl.len() == 0,
        OrderRowView::of(order).created_at == timestamp_text(order.created_at),
        OrderRowView::of(order).updated_at == timestamp_text(order.updated_at),
{
    reveal_strlit("");
}

/// A row is read as the order with what its columns hold. A row is a sale, a limit order, filled,
/// canceled or pending only where it says so by name.
pub proof fn law_order_read(row: OrderRowView, now: TimestampView)
    ensures
        row.model(now).id == row.id,
        row.model(now).user_id == row.user_id,
        row.model(now).symbol == row.symbol,
        row.model(now).side is Sell <==> row.side == "sell"@,
        row.model(now).order_type is Limit <==> row.order_type == "limit"@,
        row.model(now).order_type is StopLimit <==> row.order_type == "stop_limit"@,
        number_in(row.price, row.model(now).price),
        number_in(row.amount, row.model(now).amount),
        number_in(row.total_usdc, row.model(now).total_usdc),
        row.limit_price.len() == 0 ==> row.model(now).limit_price is None,
        row.limit_price.len() > 0 ==> row.model(now).limit_price == decimal_parsed(
            row.limit_price,
        ),
        row.model(now).status is Filled <==> row.status == "filled"@,
        row.model(now).status is Pending <==> row.status == "pending"@,
        row.model(now).status is Canceled <==> row.status == "canceled"@,
        row.model(now).reject_reason is None <==> row.reject_reason.len() == 0,
        row.model(now).reject_reason matches Some(reason) ==> reason == row.reject_reason,
        time_in(row.created_at, row.model(now).created_at, now),
        time_in(row.updated_at, row.model(now).updated_at, now),
{
    law_side_names(Side::Buy, row.side);
    law_side_names(Side::Sell, row.side);
    law_order_type_names(OrderType::Market, row.order_type);
    law_order_type_names(OrderType::Limit, row.order_type);
    law_order_type_names(OrderType::StopLimit, row.order_type);
    law_order_status_names(OrderStatus::Pending, row.status);
    law_order_status_names(OrderStatus::Filled, row.status);
    law_order_status_names(OrderStatus::Canceled, row.status);
    law_order_status_names(OrderStatus::Rejected, row.status);
}

/// The row of a position has each thing in the column of its own, and is read as what its columns
/// hold.
pub proof fn law_position_row(position: PositionView, row: PositionRowView, now: TimestampView)
    ensures
        PositionRowView::of(position).user_id == position.user_id,
        PositionRowView::of(position).symbol == position.symbol,
        PositionRowView::of(position).quantity == decimal_text(position.quantity),
        PositionRowView::of(position).avg_buy_price == decimal_text(position.avg_buy_price),
        PositionRowView::of(position).updated_at == timestamp_text(position.updated_at),
        row.model(now).user_id == row.user_id,
        row.model(now).symbol == row.symbol,
        number_in(row.quantity, row.model(now).quantity),
        number_in(row.avg_buy_price, row.model(now).avg_buy_price),
        time_in(row.updated_at, row.model(now).updated_at, now),
{
}

/// Whether two orders are the same in what was asked for and when.
pub open spec fn same_order(a: OrderView, b: OrderView) -> bool {
    &&& a.id == b.id && a.user_id == b.user_id && a.symbol == b.symbol
    &&& a.side == b.side && a.order_type == b.order_type && a.limit_price == b.limit_price
    &&& a.amount == b.amount && a.created_at == b.created_at
    &&& a.reject_reason == b.reject_reason
}

/// A new status changes the status of an order and when it was changed, and nothing else. A fill
/// makes it filled, at a price and for a total, and changes nothing of what was asked for.
pub proof fn law_order_changes(
    order: OrderView,
    status: OrderStatus,
    price: DecimalView,
    total_usdc: DecimalView,
    now: TimestampView,
)
    ensures
        same_order(with_status(order, status, now), order),
        with_status(order, status, now).status == status,
        with_status(order, status, now).price == order.price,
        with_status(order, status, now).total_usdc == order.total_usdc,
        with_status(order, status, now).updated_at == now,
        same_order(with_fill(order, price, total_usdc, now), order),
        with_fill(order, price, total_usdc, now).status is Filled,
        with_fill(order, price, total_usdc, now).price == price,
        with_fill(order, price, total_usdc, now).total_usdc == total_usdc,
        with_fill(order, price, total_usdc, now).updated_at == now,
{
}

} // verus!
