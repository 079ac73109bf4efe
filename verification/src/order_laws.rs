//! What orders come to: what is recorded of them, what they move, and at which prices.
//!
//! Each law speaks of a whole request, from what was asked for to what the ledger holds then.

use vstd::prelude::*;

use crate::api::admin::{all_order_listing, LimitQueryView as AllLimitQueryView};
use crate::api::orders::{
    book_after_cancel, booked, cancellation, order_listing, orders_listed, submission, submitted,
    LimitQueryView, ListingOrders, SubmittingView,
};
use crate::auth::ClaimsView;
use crate::decimal::{
    adds_exactly, decimal_difference, decimal_product, decimal_quotient, decimal_sum, decimal_text,
    decimal_zero, is_quotient, lemma_difference_not_negative, lemma_quotient_found,
    lemma_quotient_numbers, lemma_rounded_near, lemma_rounded_ordered, lemma_rounded_same,
    lemma_units_difference, lemma_units_product, lemma_units_sign, lemma_units_sum,
    lemma_zero_less, multiplies_exactly, pow10, rounded, subtracts_exactly, units, DecimalView,
    MAX_SCALE,
};
use crate::engine::{
    limit, market, normalized_symbol, placement, position_after_buy, PlacedView, PlacingView,
    TicketView,
};
use crate::error::AppErrorView;
use crate::ledger::{
    canceled, filled, law_cancel_buy, law_cancel_sell, law_limit_buy, law_limit_sell,
    law_market_buy, law_market_sell, law_writes_win, lemma_listed, outcome, placed, LedgerView,
};
use crate::models::{
    OrderStatus, OrderType, OrderView, PlaceOrderRequestView, PositionView, Side, UserView,
};
use crate::order_book::{
    fill_price, fillable_orders, kept_orders, lemma_place, place_in_book, without_prices,
    PendingLimitOrderView,
};
use crate::store::{ProgressView, StoreReplyView, StoreRequestView};
use crate::text::{ascii_upper, replaced, uppercased};
use crate::timestamp::{not_after, TimestampView};
use crate::ws_client::{lookup, QuoteView};

verus! {

/// Whether an order is the one that was asked for: its user, symbol, side and amount, under its id
/// and of its time.
pub open spec fn as_asked(order: OrderView, ticket: TicketView, side: Side) -> bool {
    &&& order.id == ticket.id
    &&& order.user_id == ticket.user.id
    &&& order.symbol == ticket.symbol
    &&& order.side == side
    &&& order.amount == ticket.amount
    &&& order.created_at == ticket.now
    &&& order.updated_at == ticket.now
}

/// Whether two versions of a user differ in nothing but the balance and the version, which is of
/// the given time.
pub open spec fn same_person(before: UserView, after: UserView, now: TimestampView) -> bool {
    &&& after.id == before.id
    &&& after.username == before.username
    &&& after.password_hash == before.password_hash
    &&& after.role == before.role
    &&& after.is_active == before.is_active
    &&& after.created_at == now
}

/// Whether of all users only one was written, and holds so much now.
pub open spec fn only_user_changed(
    before: LedgerView,
    after: LedgerView,
    user: UserView,
    balance: Option<DecimalView>,
    now: TimestampView,
) -> bool {
    &&& after.users.dom().contains(user.id)
    &&& after.users == before.users.insert(user.id, after.users[user.id])
    &&& same_person(user, after.users[user.id], now)
    &&& balance == Some(after.users[user.id].balance_usdc)
}

/// Whether of all positions only one was written, and is of that user and symbol.
pub open spec fn only_position_changed(
    before: LedgerView,
    after: LedgerView,
    user_id: Seq<char>,
    symbol: Seq<char>,
    now: TimestampView,
) -> bool {
    let key = (user_id, symbol);
    &&& after.positions.dom().contains(key)
    &&& after.positions == before.positions.insert(key, after.positions[key])
    &&& after.positions[key].user_id == user_id
    &&& after.positions[key].symbol == symbol
    &&& after.positions[key].updated_at == now
}

/// Whether of all orders only this one was written.
pub open spec fn only_order_written(
    before: LedgerView,
    after: LedgerView,
    order: OrderView,
) -> bool {
    after.orders == before.orders.insert(order.id, order)
}

/// The quantity of a position; nothing where there is none.
pub open spec fn quantity_of(position: Option<PositionView>) -> DecimalView {
    match position {
        Some(p) => p.quantity,
        None => decimal_zero(),
    }
}

/// Whether a position is what an earlier one has become by buying at a price: the quantity has
/// grown by the amount, and the average is all that was paid over all that is held.
pub open spec fn grown(
    before: Option<PositionView>,
    after: PositionView,
    price: DecimalView,
    amount: DecimalView,
) -> bool {
    match before {
        None => after.quantity == amount && after.avg_buy_price == price,
        Some(p) => {
            &&& decimal_sum(p.quantity, amount) == Some(after.quantity)
            &&& decimal_product(p.avg_buy_price, p.quantity) matches Some(paid) && (decimal_product(
                price,
                amount,
            ) matches Some(cost) && (decimal_sum(paid, cost) matches Some(total) && (
            decimal_quotient(total, after.quantity) matches Some(average) && after.avg_buy_price
                == rounded(average))))
        },
    }
}

/// Whether a position is what an earlier one has become by selling: the quantity has shrunk by the
/// amount, and the average has stayed as long as anything is left.
pub open spec fn shrunk(before: PositionView, after: PositionView, amount: DecimalView) -> bool {
    &&& decimal_difference(before.quantity, amount) == Some(after.quantity)
    &&& after.quantity.mantissa > 0 ==> after.avg_buy_price == before.avg_buy_price
    &&& after.quantity.mantissa == 0 ==> after.avg_buy_price == decimal_zero()
}

/// A market order is recorded as it was asked for, on either side, at the live price and for that
/// price times the amount. It is filled where the user has what it takes, and rejected otherwise,
/// with the reason. A rejected order moves nothing. A filled buy takes its total from the balance
/// and puts the amount into the position; a filled sell takes the amount from the position and
/// puts its total into the balance. Nothing else of anyone changes.
pub proof fn law_market_order(
    ledger: LedgerView,
    listed: Seq<PositionView>,
    quotes: Map<Seq<char>, QuoteView>,
    ticket: TicketView,
    side: Side,
    quote: QuoteView,
    quoted: DecimalView,
)
    requires
        ledger.until(ticket.now),
        lookup(ledger.users, ticket.user.id) == Some(ticket.user),
        ledger.lists(ticket.user.id, listed),
        ticket.amount.mantissa > 0,
        lookup(quotes, ticket.symbol) == Some(quote),
        quote.price == Some(quoted),
    ensures
        ({
            let user = ticket.user;
            let held = ledger.held(user.id, ticket.symbol);
            let (r, after) = placed(market(quotes, ticket, side), ledger, listed);
            let key = (user.id, ticket.symbol);
            match r {
                Ok((order, pending)) => {
                    let covered = match side {
                        Side::Buy => !user.balance_usdc.less(order.total_usdc),
                        Side::Sell => !quantity_of(held).less(ticket.amount),
                    };
                    &&& pending is None
                    &&& as_asked(order, ticket, side)
                    &&& order.order_type == OrderType::Market
                    &&& order.limit_price is None
                    &&& order.price == rounded(quoted)
                    &&& decimal_product(order.price, order.amount) matches Some(product)
                        && order.total_usdc == rounded(product)
                    &&& only_order_written(ledger, after, order)
                    &&& order.status == (if covered {
                        OrderStatus::Filled
                    } else {
                        OrderStatus::Rejected
                    })
                    &&& !covered ==> {
                        &&& after.users == ledger.users
                        &&& after.positions == ledger.positions
                        &&& order.reject_reason == Some(
                            match side {
                                Side::Buy => "Insufficient balance: need "@ + decimal_text(
                                    order.total_usdc,
                                ) + " USDC, have "@ + decimal_text(user.balance_usdc),
                                Side::Sell => "Insufficient position: need "@ + decimal_text(
                                    ticket.amount,
                                ) + ", have "@ + decimal_text(quantity_of(held)) + " "@
                                    + ticket.symbol,
                            },
                        )
                    }
                    &&& covered ==> {
                        &&& order.reject_reason is None
                        &&& only_position_changed(
                            ledger,
                            after,
                            user.id,
                            ticket.symbol,
                            ticket.now,
                        )
                        &&& match side {
                            Side::Buy => {
                                &&& only_user_changed(
                                    ledger,
                                    after,
                                    user,
                                    decimal_difference(user.balance_usdc, order.total_usdc),
                                    ticket.now,
                                )
                                &&& grown(held, after.positions[key], order.price, ticket.amount)
                            },
                            Side::Sell => {
                                &&& only_user_changed(
                                    ledger,
                                    after,
                                    user,
                                    decimal_sum(user.balance_usdc, order.total_usdc),
                                    ticket.now,
                                )
                                &&& held is Some
                                &&& shrunk(held->0, after.positions[key], ticket.amount)
                            },
                        }
                    }
                },
                Err(e) => {
                    &&& e == AppErrorView::Overflow
                    &&& after == ledger
                    &&& decimal_product(rounded(quoted), ticket.amount) matches Some(product)
                        ==> match side {
                        Side::Buy => {
                            &&& !user.balance_usdc.less(rounded(product))
                            &&& decimal_difference(user.balance_usdc, rounded(product)) is None
                                || forall|p: PositionView| !#[trigger]
                                grown(held, p, rounded(quoted), ticket.amount)
                        },
                        Side::Sell => {
                            &&& !quantity_of(held).less(ticket.amount)
                            &&& decimal_sum(user.balance_usdc, rounded(product)) is None
                                || decimal_difference(quantity_of(held), ticket.amount) is None
                        },
                    }
                },
            }
        }),
{
    reveal_with_fuel(outcome, 6);
    match decimal_product(rounded(quoted), ticket.amount) {
        None => {},
        Some(product) => {
            let price = rounded(quoted);
            let total = rounded(product);
            let held = ledger.held(ticket.user.id, ticket.symbol);
            match side {
                Side::Buy => {
                    law_market_buy(ledger, listed, quotes, ticket, price, total);
                },
                Side::Sell => {
                    law_market_sell(ledger, listed, quotes, ticket, price, total);
                    lemma_zero_less(ticket.amount);
                    lemma_held_is_theirs(ledger, listed, ticket.user.id, ticket.symbol);
                    if !quantity_of(held).less(ticket.amount) {
                        lemma_difference_not_negative(held->0.quantity, ticket.amount);
                        lemma_not_below_zero(held->0.quantity, ticket.amount);
                    }
                },
            }
        },
    }
}

proof fn lemma_held_is_theirs(
    ledger: LedgerView,
    listed: Seq<PositionView>,
    user_id: Seq<char>,
    symbol: Seq<char>,
)
    requires
        ledger.lists(user_id, listed),
    ensures
        ledger.held(user_id, symbol) matches Some(p) ==> p.user_id == user_id && p.symbol == symbol,
{
    if ledger.held(user_id, symbol) is Some {
        let i = choose|i: int| 0 <= i < listed.len() && (#[trigger] listed[i]).symbol == symbol;
        assert(listed[i].user_id == user_id);
    }
}

proof fn lemma_not_below_zero(a: DecimalView, b: DecimalView)
    ensures
        decimal_difference(a, b) matches Some(rest) ==> (rest.mantissa >= 0 ==> !rest.less(
            decimal_zero(),
        )),
{
    match decimal_difference(a, b) {
        Some(rest) => lemma_zero_less(rest),
        None => {},
    }
}

/// Without a live price that is a number there is no market order: the answer names the symbol, or
/// what came in its place, and nothing is written.
pub proof fn law_no_price_no_order(
    ledger: LedgerView,
    listed: Seq<PositionView>,
    quotes: Map<Seq<char>, QuoteView>,
    ticket: TicketView,
    side: Side,
)
    ensures
        ({
            let (r, after) = placed(market(quotes, ticket, side), ledger, listed);
            &&& !quotes.dom().contains(ticket.symbol) ==> r == Err::<PlacedView, AppErrorView>(
                AppErrorView::Internal("No live price for "@ + ticket.symbol),
            ) && after == ledger
            &&& quotes.dom().contains(ticket.symbol) && quotes[ticket.symbol].price is None ==> r
                == Err::<PlacedView, AppErrorView>(
                AppErrorView::Internal("Invalid price value: "@ + quotes[ticket.symbol].raw),
            ) && after == ledger
        }),
{
    reveal_with_fuel(outcome, 1);
}

/// Whether an entry in the book is the order that was asked for: its user, symbol, side and
/// amount, at the limit price that was asked for.
pub open spec fn waits_as_asked(
    pending: PendingLimitOrderView,
    ticket: TicketView,
    side: Side,
    limit_price: DecimalView,
) -> bool {
    &&& pending.order_id == ticket.id
    &&& pending.user_id == ticket.user.id
    &&& pending.symbol == ticket.symbol
    &&& pending.side == side
    &&& pending.amount == ticket.amount
    &&& pending.limit_price == limit_price
    &&& pending.created_at == ticket.now
}

/// A limit order is recorded as it was asked for, on either side, without a price or a total yet.
/// Where the user has what it takes it is pending, and waits in the book with the limit price that
/// was asked for; otherwise it is rejected, with the reason, and moves nothing. A pending buy has
/// locked what it would cost at its limit, out of the balance; a pending sell has locked its
/// amount, out of the position. Nothing else of anyone changes.
pub proof fn law_limit_order(
    ledger: LedgerView,
    listed: Seq<PositionView>,
    ticket: TicketView,
    side: Side,
    limit_price: DecimalView,
)
    requires
        ledger.until(ticket.now),
        lookup(ledger.users, ticket.user.id) == Some(ticket.user),
        ledger.lists(ticket.user.id, listed),
        ticket.amount.mantissa > 0,
    ensures
        ({
            let user = ticket.user;
            let held = ledger.held(user.id, ticket.symbol);
            let (r, after) = placed(limit(ticket, side, limit_price), ledger, listed);
            let key = (user.id, ticket.symbol);
            match r {
                Ok((order, pending)) => {
                    &&& as_asked(order, ticket, side)
                    &&& order.order_type == OrderType::Limit
                    &&& order.limit_price == Some(limit_price)
                    &&& order.price == decimal_zero()
                    &&& order.total_usdc == decimal_zero()
                    &&& only_order_written(ledger, after, order)
                    &&& match pending {
                        Some(pending) => {
                            &&& order.status == OrderStatus::Pending
                            &&& order.reject_reason is None
                            &&& waits_as_asked(pending, ticket, side, limit_price)
                            &&& match side {
                                Side::Buy => {
                                    &&& decimal_product(limit_price, ticket.amount) matches Some(
                                        cost,
                                    ) && pending.locked_usdc == rounded(cost)
                                    &&& pending.locked_qty == decimal_zero()
                                    &&& !user.balance_usdc.less(pending.locked_usdc)
                                    &&& only_user_changed(
                                        ledger,
                                        after,
                                        user,
                                        decimal_difference(user.balance_usdc, pending.locked_usdc),
                                        ticket.now,
                                    )
                                    &&& after.positions == ledger.positions
                                },
                                Side::Sell => {
                                    &&& pending.locked_usdc == decimal_zero()
                                    &&& pending.locked_qty == ticket.amount
                                    &&& only_user_changed(
                                        ledger,
                                        after,
                                        user,
                                        Some(user.balance_usdc),
                                        ticket.now,
                                    )
                                    &&& only_position_changed(
                                        ledger,
                                        after,
                                        user.id,
                                        ticket.symbol,
                                        ticket.now,
                                    )
                                    &&& held is Some
                                    &&& !held->0.quantity.less(ticket.amount)
                                    &&& shrunk(held->0, after.positions[key], ticket.amount)
                                },
                            }
                        },
                        None => {
                            &&& order.status == OrderStatus::Rejected
                            &&& after.users == ledger.users
                            &&& after.positions == ledger.positions
                            &&& match side {
                                Side::Buy => decimal_product(
                                    limit_price,
                                    ticket.amount,
                                ) matches Some(cost) && user.balance_usdc.less(rounded(cost))
                                    && order.reject_reason == Some(
                                    "Insufficient balance: need "@ + decimal_text(rounded(cost))
                                        + " USDC, have "@ + decimal_text(user.balance_usdc),
                                ),
                                Side::Sell => quantity_of(held).less(ticket.amount)
                                    && order.reject_reason == Some(
                                    "Insufficient position: need "@ + decimal_text(ticket.amount)
                                        + ", have "@ + decimal_text(quantity_of(held)) + " "@
                                        + ticket.symbol,
                                ),
                            }
                        },
                    }
                },
                Err(e) => {
                    &&& e == AppErrorView::Overflow
                    &&& after == ledger
                    &&& match side {
                        Side::Buy => decimal_product(limit_price, ticket.amount) matches Some(cost)
                            ==> !user.balance_usdc.less(rounded(cost)) && decimal_difference(
                            user.balance_usdc,
                            rounded(cost),
                        ) is None,
                        Side::Sell => !quantity_of(held).less(ticket.amount) && decimal_difference(
                            quantity_of(held),
                            ticket.amount,
                        ) is None,
                    }
                },
            }
        }),
{
    reveal_with_fuel(outcome, 6);
    let held = ledger.held(ticket.user.id, ticket.symbol);
    match side {
        Side::Buy => match decimal_product(limit_price, ticket.amount) {
            None => {},
            Some(cost) => law_limit_buy(ledger, listed, ticket, limit_price, rounded(cost)),
        },
        Side::Sell => {
            law_limit_sell(ledger, listed, ticket, limit_price);
            lemma_zero_less(ticket.amount);
            lemma_held_is_theirs(ledger, listed, ticket.user.id, ticket.symbol);
            if !quantity_of(held).less(ticket.amount) {
                lemma_difference_not_negative(held->0.quantity, ticket.amount);
                lemma_not_below_zero(held->0.quantity, ticket.amount);
            }
        },
    }
}

/// A limit order that was placed is taken out of the book at no price but a live one on the right
/// side of the limit that was asked for: a buy at no higher one, a sell at no lower one. At every
/// such price it is.
pub proof fn law_limit_is_kept(
    ledger: LedgerView,
    listed: Seq<PositionView>,
    ticket: TicketView,
    side: Side,
    limit_price: DecimalView,
    quotes: Map<Seq<char>, QuoteView>,
)
    requires
        ledger.until(ticket.now),
        lookup(ledger.users, ticket.user.id) == Some(ticket.user),
        ledger.lists(ticket.user.id, listed),
        ticket.amount.mantissa > 0,
    ensures
        placed(limit(ticket, side, limit_price), ledger, listed).0 matches Ok((_, Some(pending)))
            ==> {
            let live = match lookup(quotes, ticket.symbol) {
                Some(quote) => quote.price,
                None => None,
            };
            fill_price(quotes, pending) == match (side, live) {
                (_, None) => None,
                (Side::Buy, Some(price)) => if limit_price.less(price) {
                    None
                } else {
                    Some(price)
                },
                (Side::Sell, Some(price)) => if price.less(limit_price) {
                    None
                } else {
                    Some(price)
                },
            }
        },
{
    law_limit_order(ledger, listed, ticket, side, limit_price);
}

/// Whether an order is the record of a pending order that was filled: in everything the order that
/// was pending, but with the price, the total and the time of the fill.
pub open spec fn records_fill(
    order: OrderView,
    pending: PendingLimitOrderView,
    exec_price: DecimalView,
    now: TimestampView,
) -> bool {
    &&& order.id == pending.order_id
    &&& order.user_id == pending.user_id
    &&& order.symbol == pending.symbol
    &&& order.side == pending.side
    &&& order.order_type == OrderType::Limit
    &&& order.limit_price == Some(pending.limit_price)
    &&& order.price == exec_price
    &&& order.amount == pending.amount
    &&& decimal_product(order.price, order.amount) matches Some(product) && order.total_usdc
        == rounded(product)
    &&& order.status == OrderStatus::Filled
    &&& order.reject_reason is None
    &&& order.created_at == pending.created_at
    &&& order.updated_at == now
}

/// The record of a fill has the user, symbol, side, limit and amount of the order that was
/// pending, at the price of the fill and for that price times the amount, whatever becomes of the
/// rest.
pub proof fn law_fill_is_recorded(
    ledger: LedgerView,
    listed: Seq<PositionView>,
    pending: PendingLimitOrderView,
    exec_price: DecimalView,
    now: TimestampView,
)
    requires
        ledger.until(now),
    ensures
        ({
            let (r, after) = filled(pending, exec_price, now, ledger, listed);
            if decimal_product(exec_price, pending.amount) is Some {
                &&& after.orders.dom().contains(pending.order_id)
                &&& records_fill(after.orders[pending.order_id], pending, exec_price, now)
                &&& only_order_written(ledger, after, after.orders[pending.order_id])
            } else {
                r == Err::<(), AppErrorView>(AppErrorView::Overflow) && after == ledger
            }
        }),
{
    reveal_with_fuel(outcome, 7);
    law_writes_win(now);
}

/// A buy that is filled puts its amount into the position at the price of the fill, and gives back
/// what was locked beyond its total, if anything. A sell that is filled puts its total into the
/// balance. Nothing else of anyone changes.
pub proof fn law_fill_moves_funds(
    ledger: LedgerView,
    listed: Seq<PositionView>,
    pending: PendingLimitOrderView,
    exec_price: DecimalView,
    now: TimestampView,
    user: UserView,
    total: DecimalView,
)
    requires
        ledger.until(now),
        ledger.lists(pending.user_id, listed),
        lookup(ledger.users, pending.user_id) == Some(user),
        user.id == pending.user_id,
        decimal_product(exec_price, pending.amount) matches Some(product) && total == rounded(
            product,
        ),
    ensures
        ({
            let held = ledger.held(user.id, pending.symbol);
            let (r, after) = filled(pending, exec_price, now, ledger, listed);
            let key = (user.id, pending.symbol);
            let left = decimal_difference(pending.locked_usdc, total);
            match (r, pending.side) {
                (Ok(_), Side::Buy) => {
                    &&& only_position_changed(ledger, after, user.id, pending.symbol, now)
                    &&& grown(held, after.positions[key], exec_price, pending.amount)
                    &&& left is Some
                    &&& if left->0.mantissa > 0 {
                        only_user_changed(
                            ledger,
                            after,
                            user,
                            decimal_sum(user.balance_usdc, left->0),
                            now,
                        )
                    } else {
                        after.users == ledger.users
                    }
                },
                (Ok(_), Side::Sell) => {
                    &&& after.positions == ledger.positions
                    &&& only_user_changed(
                        ledger,
                        after,
                        user,
                        decimal_sum(user.balance_usdc, total),
                        now,
                    )
                },
                (Err(e), Side::Buy) => {
                    &&& e == AppErrorView::Overflow
                    &&& after.users == ledger.users
                    &&& ({
                        ||| forall|p: PositionView| !#[trigger]
                            grown(held, p, exec_price, pending.amount)
                        ||| left is None
                        ||| decimal_sum(user.balance_usdc, left->0) is None
                    })
                },
                (Err(e), Side::Sell) => {
                    &&& e == AppErrorView::Overflow
                    &&& after.users == ledger.users
                    &&& after.positions == ledger.positions
                    &&& decimal_sum(user.balance_usdc, total) is None
                },
            }
        }),
{
    reveal_with_fuel(outcome, 7);
    law_writes_win(now);
    lemma_listed(ledger, pending.user_id, listed, pending.symbol);
    match decimal_difference(pending.locked_usdc, total) {
        Some(left) => lemma_zero_less(left),
        None => {},
    }
}

proof fn lemma_until_after(
    before: LedgerView,
    after: LedgerView,
    order: OrderView,
    user: UserView,
    symbol: Seq<char>,
    then: TimestampView,
    now: TimestampView,
)
    requires
        before.until(then),
        not_after(then, now),
        only_order_written(before, after, order),
        order.updated_at == then,
        after.users == before.users || only_user_changed(
            before,
            after,
            user,
            Some(after.users[user.id].balance_usdc),
            then,
        ),
        after.positions == before.positions || only_position_changed(
            before,
            after,
            user.id,
            symbol,
            then,
        ),
    ensures
        after.until(now),
{
}

/// A limit order that was placed and is then filled is the same order in the records, but for its
/// price, its total, its status and the time: the user, the symbol, the side, the limit and the
/// amount are those that were asked for.
pub proof fn law_filled_as_placed(
    ledger: LedgerView,
    listed: Seq<PositionView>,
    listed_then: Seq<PositionView>,
    ticket: TicketView,
    side: Side,
    limit_price: DecimalView,
    exec_price: DecimalView,
    now: TimestampView,
)
    requires
        ledger.until(ticket.now),
        not_after(ticket.now, now),
        lookup(ledger.users, ticket.user.id) == Some(ticket.user),
        ledger.lists(ticket.user.id, listed),
        ticket.amount.mantissa > 0,
    ensures
        ({
            let (r, between) = placed(limit(ticket, side, limit_price), ledger, listed);
            r matches Ok((order, Some(pending))) ==> {
                let (_, after) = filled(pending, exec_price, now, between, listed_then);
                decimal_product(exec_price, ticket.amount) matches Some(product) ==> {
                    &&& as_asked(order, ticket, side)
                    &&& lookup(after.orders, order.id) == Some(
                        OrderView {
                            price: exec_price,
                            total_usdc: rounded(product),
                            status: OrderStatus::Filled,
                            updated_at: now,
                            ..order
                        },
                    )
                }
            }
        }),
{
    law_limit_order(ledger, listed, ticket, side, limit_price);
    let (r, between) = placed(limit(ticket, side, limit_price), ledger, listed);
    match r {
        Ok((order, Some(pending))) => {
            lemma_until_after(
                ledger,
                between,
                order,
                ticket.user,
                ticket.symbol,
                ticket.now,
                now,
            );
            law_fill_is_recorded(between, listed_then, pending, exec_price, now);
        },
        _ => {},
    }
}

/// A cancellation by the user who placed the order gives back what was locked, and no more: the
/// USDC of a buy to the balance, the amount of a sell to the position, whose average price stays.
/// The order is kept as it was, but as canceled, and it alone leaves the book.
pub proof fn law_cancellation(
    ledger: LedgerView,
    listed: Seq<PositionView>,
    book: Seq<PendingLimitOrderView>,
    claims: ClaimsView,
    place: int,
    order: OrderView,
    user: UserView,
    now: TimestampView,
)
    requires
        ledger.until(now),
        0 <= place < book.len(),
        forall|i: int| 0 <= i < place ==> (#[trigger] book[i]).order_id != book[place].order_id,
        book[place].user_id == claims.sub,
        lookup(ledger.orders, book[place].order_id) == Some(order),
        order.id == book[place].order_id,
        lookup(ledger.users, claims.sub) == Some(user),
        user.id == claims.sub,
        ledger.lists(user.id, listed),
    ensures
        ({
            let pending = book[place];
            let held = ledger.held(user.id, pending.symbol);
            let key = (user.id, pending.symbol);
            let (r, after) = canceled(
                cancellation(Ok(claims), pending.order_id, book),
                now,
                ledger,
                listed,
            );
            &&& book_after_cancel(Ok(claims), pending.order_id, book) == book.remove(place)
            &&& match r {
                Ok(id) => {
                    &&& id == pending.order_id
                    &&& only_order_written(
                        ledger,
                        after,
                        OrderView { status: OrderStatus::Canceled, updated_at: now, ..order },
                    )
                    &&& match pending.side {
                        Side::Buy => {
                            &&& after.positions == ledger.positions
                            &&& only_user_changed(
                                ledger,
                                after,
                                user,
                                decimal_sum(user.balance_usdc, pending.locked_usdc),
                                now,
                            )
                        },
                        Side::Sell => {
                            &&& after.users == ledger.users
                            &&& only_position_changed(ledger, after, user.id, pending.symbol, now)
                            &&& decimal_sum(quantity_of(held), pending.locked_qty) == Some(
                                after.positions[key].quantity,
                            )
                            &&& after.positions[key].avg_buy_price == match held {
                                Some(p) => p.avg_buy_price,
                                None => decimal_zero(),
                            }
                        },
                    }
                },
                Err(e) => {
                    &&& e == AppErrorView::Overflow
                    &&& after == ledger
                    &&& match pending.side {
                        Side::Buy => decimal_sum(user.balance_usdc, pending.locked_usdc) is None,
                        Side::Sell => decimal_sum(quantity_of(held), pending.locked_qty) is None,
                    }
                },
            }
        }),
{
    let pending = book[place];
    lemma_place(book, pending.order_id);
    assert(place_in_book(book, pending.order_id) == place) by {
        let found = place_in_book(book, pending.order_id);
        if found < place {
            assert(book[found].order_id == pending.order_id);
        } else if place < found {
            assert(book[place].order_id == pending.order_id);
        }
    }
    match pending.side {
        Side::Buy => law_cancel_buy(ledger, listed, book, claims, pending, order, user, now),
        Side::Sell => law_cancel_sell(ledger, listed, book, claims, pending, order, user, now),
    }
}

/// An order that does not wait in the book is not canceled: the answer is that there is none, that
/// it is someone else's, or what became of it. Nothing changes.
pub proof fn law_cancellation_refused(
    ledger: LedgerView,
    listed: Seq<PositionView>,
    book: Seq<PendingLimitOrderView>,
    claims: ClaimsView,
    order_id: Seq<char>,
    now: TimestampView,
)
    requires
        forall|i: int| 0 <= i < book.len() ==> (#[trigger] book[i]).order_id != order_id,
    ensures
        ({
            let (r, after) = canceled(
                cancellation(Ok(claims), order_id, book),
                now,
                ledger,
                listed,
            );
            &&& after == ledger
            &&& book_after_cancel(Ok(claims), order_id, book) == book
            &&& r == Err::<Seq<char>, AppErrorView>(
                if !ledger.orders.dom().contains(order_id) {
                    AppErrorView::NotFound("Order "@ + order_id + " not found"@)
                } else if ledger.orders[order_id].user_id != claims.sub {
                    AppErrorView::Forbidden("Order does not belong to you"@)
                } else {
                    AppErrorView::BadRequest(
                        "Order cannot be canceled: status is "@
                            + match ledger.orders[order_id].status {
                            OrderStatus::Filled => "filled"@,
                            OrderStatus::Rejected => "rejected"@,
                            OrderStatus::Pending => "pending"@,
                            OrderStatus::Canceled => "canceled"@,
                        },
                    )
                },
            )
        }),
{
    lemma_place(book, order_id);
    let found = place_in_book(book, order_id);
    if found < book.len() {
        assert(book[found].order_id == order_id);
    }
    reveal_with_fuel(outcome, 3);
}

/// Buying into a position adds the amount to the quantity, and makes the average what was paid for
/// all of it over all of it, rounded: at a price above the old average as at one below. The new
/// average lies between the old one and the price, and where it is not rounded, it times the
/// quantity is all that was paid.
pub proof fn law_average_after_buy(
    p: PositionView,
    user_id: Seq<char>,
    symbol: Seq<char>,
    price: DecimalView,
    amount: DecimalView,
    now: TimestampView,
    after: PositionView,
    exact: DecimalView,
)
    requires
        position_after_buy(Some(p), user_id, symbol, price, amount, now) == Some(after),
        p.avg_buy_price.valid(),
        p.quantity.valid(),
        price.valid(),
        amount.valid(),
        p.quantity.mantissa > 0,
        amount.mantissa > 0,
        multiplies_exactly(p.avg_buy_price, p.quantity),
        multiplies_exactly(price, amount),
        decimal_product(p.avg_buy_price, p.quantity) matches Some(paid) && (decimal_product(
            price,
            amount,
        ) matches Some(cost) && adds_exactly(paid, cost) && (decimal_sum(paid, cost) matches Some(
            total,
        ) && (decimal_sum(p.quantity, amount) matches Some(quantity) && (decimal_quotient(
            total,
            quantity,
        ) matches Some(average) ==> average.valid())))),
        adds_exactly(p.quantity, amount),
        exact.valid(),
        units(exact) * (units(p.quantity) + units(amount)) == units(p.avg_buy_price) * units(
            p.quantity,
        ) + units(price) * units(amount),
    ensures
        units(after.quantity) == units(p.quantity) + units(amount),
        units(after.avg_buy_price) == units(rounded(exact)),
        -pow10(20) <= 2 * (units(after.avg_buy_price) - units(exact)) <= pow10(20),
        units(exact) % (pow10(20) as int) == 0 ==> units(after.avg_buy_price) * units(
            after.quantity,
        ) == units(p.avg_buy_price) * units(p.quantity) + units(price) * units(amount),
        0 <= units(p.avg_buy_price) <= units(price) ==> units(rounded(p.avg_buy_price)) <= units(
            after.avg_buy_price,
        ) <= units(rounded(price)),
        0 <= units(price) <= units(p.avg_buy_price) ==> units(rounded(price)) <= units(
            after.avg_buy_price,
        ) <= units(rounded(p.avg_buy_price)),
{
    let paid = decimal_product(p.avg_buy_price, p.quantity)->0;
    let cost = decimal_product(price, amount)->0;
    let total = decimal_sum(paid, cost)->0;
    let quantity = decimal_sum(p.quantity, amount)->0;
    lemma_units_product(p.avg_buy_price, p.quantity);
    lemma_units_product(price, amount);
    lemma_units_sum(paid, cost);
    lemma_units_sum(p.quantity, amount);
    lemma_units_sign(p.quantity);
    lemma_units_sign(amount);
    lemma_units_sign(quantity);
    lemma_units_sign(total);
    lemma_units_sign(exact);
    lemma_units_sign(price);
    lemma_units_sign(p.avg_buy_price);
    let one = pow10(MAX_SCALE as nat) as int;
    let x = units(paid);
    let y = units(cost);
    assert((x + y) * one == x * one + y * one) by (nonlinear_arith);
    assert(is_quotient(exact, total, quantity));
    let average = decimal_quotient(total, quantity)->0;
    let e = units(exact);
    let n = units(quantity);
    if total.mantissa == 0 {
        lemma_units_sign(decimal_zero());
        assert(e == 0) by (nonlinear_arith)
            requires
                e * n == 0 * one,
                n > 0,
        ;
    } else {
        lemma_quotient_found(total, quantity);
        let u = units(average);
        assert(u == e) by (nonlinear_arith)
            requires
                u * n == e * n,
                n > 0,
        ;
    }
    lemma_rounded_same(average, exact);
    lemma_rounded_near(exact);
    let o = units(p.avg_buy_price);
    let b = units(price);
    let q = units(p.quantity);
    let a = units(amount);
    if 0 <= o <= b {
        assert(o <= e <= b) by (nonlinear_arith)
            requires
                e * (q + a) == o * q + b * a,
                o <= b,
                q > 0,
                a > 0,
        ;
        lemma_rounded_ordered(p.avg_buy_price, exact);
        lemma_rounded_ordered(exact, price);
    }
    if 0 <= b <= o {
        assert(b <= e <= o) by (nonlinear_arith)
            requires
                e * (q + a) == o * q + b * a,
                b <= o,
                q > 0,
                a > 0,
        ;
        lemma_rounded_ordered(price, exact);
        lemma_rounded_ordered(exact, p.avg_buy_price);
    }
}

/// The average after a buy is decided by what was paid for all of it and by how much that is: two
/// positions that come to the same in both have the same average, however they came to it.
pub proof fn law_average_is_of_the_whole(
    p: PositionView,
    price: DecimalView,
    amount: DecimalView,
    after: PositionView,
    other: PositionView,
    other_price: DecimalView,
    other_amount: DecimalView,
    other_after: PositionView,
    user_id: Seq<char>,
    symbol: Seq<char>,
    now: TimestampView,
    total: DecimalView,
    other_total: DecimalView,
)
    requires
        position_after_buy(Some(p), user_id, symbol, price, amount, now) == Some(after),
        position_after_buy(Some(other), user_id, symbol, other_price, other_amount, now) == Some(
            other_after,
        ),
        decimal_product(p.avg_buy_price, p.quantity) matches Some(paid) && (decimal_product(
            price,
            amount,
        ) matches Some(cost) && decimal_sum(paid, cost) == Some(total)),
        decimal_product(other.avg_buy_price, other.quantity) matches Some(paid) && (decimal_product(
            other_price,
            other_amount,
        ) matches Some(cost) && decimal_sum(paid, cost) == Some(other_total)),
        total.valid(),
        other_total.valid(),
        after.quantity.valid(),
        other_after.quantity.valid(),
        units(total) == units(other_total),
        units(after.quantity) == units(other_after.quantity),
        decimal_quotient(total, after.quantity) matches Some(average) ==> average.valid(),
        decimal_quotient(other_total, other_after.quantity) matches Some(average)
            ==> average.valid(),
    ensures
        units(after.avg_buy_price) == units(other_after.avg_buy_price),
{
    lemma_quotient_numbers(total, after.quantity, other_total, other_after.quantity);
    lemma_rounded_same(
        decimal_quotient(total, after.quantity)->0,
        decimal_quotient(other_total, other_after.quantity)->0,
    );
}

/// A position is written for who bought, and holds what a purchase at that price makes of the one
/// before it; where no such position can be written, there is none.
pub proof fn law_position_after_buy(
    before: Option<PositionView>,
    user_id: Seq<char>,
    symbol: Seq<char>,
    price: DecimalView,
    amount: DecimalView,
    now: TimestampView,
)
    ensures
        match position_after_buy(before, user_id, symbol, price, amount, now) {
            Some(after) => {
                &&& after.user_id == user_id
                &&& after.symbol == symbol
                &&& after.updated_at == now
                &&& grown(before, after, price, amount)
            },
            None => forall|p: PositionView| !#[trigger] grown(before, p, price, amount),
        },
{
}

/// In numbers, where nothing is rounded: a filled market buy takes from the balance what a filled
/// market sell of the same total puts there, and puts into the position what that sell takes from
/// it; the total is the price times the amount, to the nearest hundred-millionth.
pub proof fn law_market_order_in_numbers(
    ledger: LedgerView,
    listed: Seq<PositionView>,
    quotes: Map<Seq<char>, QuoteView>,
    ticket: TicketView,
    side: Side,
    quote: QuoteView,
    quoted: DecimalView,
    total: DecimalView,
)
    requires
        ledger.until(ticket.now),
        lookup(ledger.users, ticket.user.id) == Some(ticket.user),
        ledger.lists(ticket.user.id, listed),
        ticket.amount.mantissa > 0,
        lookup(quotes, ticket.symbol) == Some(quote),
        quote.price == Some(quoted),
        decimal_product(rounded(quoted), ticket.amount) matches Some(product) && total == rounded(
            product,
        ) && product.valid(),
        quoted.valid(),
        ticket.amount.valid(),
        ticket.user.balance_usdc.valid(),
        total.valid(),
        quantity_of(ledger.held(ticket.user.id, ticket.symbol)).valid(),
        side == Side::Buy ==> subtracts_exactly(ticket.user.balance_usdc, total) && adds_exactly(
            quantity_of(ledger.held(ticket.user.id, ticket.symbol)),
            ticket.amount,
        ),
        side == Side::Sell ==> adds_exactly(ticket.user.balance_usdc, total) && subtracts_exactly(
            quantity_of(ledger.held(ticket.user.id, ticket.symbol)),
            ticket.amount,
        ),
    ensures
        ({
            let user = ticket.user;
            let held = quantity_of(ledger.held(user.id, ticket.symbol));
            let (r, after) = placed(market(quotes, ticket, side), ledger, listed);
            r matches Ok((order, _)) ==> {
                let paid: int = match (order.status, side) {
                    (OrderStatus::Rejected, _) => 0,
                    (_, Side::Buy) => units(total),
                    (_, Side::Sell) => -units(total),
                };
                let bought: int = match (order.status, side) {
                    (OrderStatus::Rejected, _) => 0,
                    (_, Side::Buy) => units(ticket.amount),
                    (_, Side::Sell) => -units(ticket.amount),
                };
                &&& order.total_usdc == total
                &&& units(after.users[user.id].balance_usdc) == units(user.balance_usdc) - paid
                &&& units(quantity_of(after.held(user.id, ticket.symbol))) == units(held) + bought
                &&& multiplies_exactly(order.price, ticket.amount) ==> {
                    let exact = units(order.price) * units(ticket.amount);
                    let one = pow10(MAX_SCALE as nat) as int;
                    -(pow10(20) * one) <= 2 * (units(total) * one - exact) <= pow10(20) * one
                }
            }
        }),
{
    law_market_order(ledger, listed, quotes, ticket, side, quote, quoted);
    let user = ticket.user;
    let before = ledger.held(user.id, ticket.symbol);
    let held = quantity_of(before);
    let (r, after) = placed(market(quotes, ticket, side), ledger, listed);
    let product = decimal_product(rounded(quoted), ticket.amount)->0;
    lemma_units_sign(decimal_zero());
    lemma_units_sign(held);
    lemma_units_sign(ticket.amount);
    lemma_rounded_near(product);
    if multiplies_exactly(rounded(quoted), ticket.amount) {
        lemma_units_product(rounded(quoted), ticket.amount);
        let t = units(total);
        let x = units(product);
        let one = pow10(MAX_SCALE as nat) as int;
        let unit = pow10(20) as int;
        lemma_units_sign(decimal_zero());
        assert(-(unit * one) <= 2 * (t * one - x * one) <= unit * one) by (nonlinear_arith)
            requires
                -unit <= 2 * (t - x) <= unit,
                one >= 0,
        ;
    }
    match r {
        Ok((order, _)) => {
            if order.status != OrderStatus::Rejected {
                match side {
                    Side::Buy => {
                        lemma_units_difference(user.balance_usdc, total);
                        lemma_units_sum(held, ticket.amount);
                        lemma_units_sign(after.positions[(user.id, ticket.symbol)].quantity);
                    },
                    Side::Sell => {
                        lemma_units_sum(user.balance_usdc, total);
                        lemma_units_difference(held, ticket.amount);
                        lemma_units_sign(after.positions[(user.id, ticket.symbol)].quantity);
                        lemma_difference_not_negative(held, ticket.amount);
                    },
                }
            }
        },
        Err(_) => {},
    }
}

/// A buy that is filled for a user who is not there is still recorded and held, and a refund is
/// answered as not possible; so is the payment of a sell.
pub proof fn law_fill_without_user(
    ledger: LedgerView,
    listed: Seq<PositionView>,
    pending: PendingLimitOrderView,
    exec_price: DecimalView,
    now: TimestampView,
)
    requires
        ledger.until(now),
        !ledger.users.dom().contains(pending.user_id),
        decimal_product(exec_price, pending.amount) is Some,
    ensures
        ({
            let (r, after) = filled(pending, exec_price, now, ledger, listed);
            &&& after.users == ledger.users
            &&& pending.side == Side::Sell ==> r == Err::<(), AppErrorView>(
                AppErrorView::NotFound("User not found during fill"@),
            )
            &&& pending.side == Side::Buy ==> (r matches Err(e) ==> e == AppErrorView::Overflow || e
                == AppErrorView::NotFound("User not found during fill refund"@))
        }),
{
    reveal_with_fuel(outcome, 7);
    law_writes_win(now);
}

/// A symbol as it is traded: in upper case, with a slash where a dash is.
pub open spec fn traded_as(raw: Seq<char>) -> Seq<char> {
    Seq::new(
        raw.len(),
        |i: int|
            if raw[i] == '-' {
                '/'
            } else if 'a' <= raw[i] && raw[i] <= 'z' {
                (raw[i] as u32 - 32) as char
            } else {
                raw[i]
            },
    )
}

/// A symbol is known if it is one of the supported ones in upper case and with a slash.
pub proof fn law_symbol_is_read(symbols: Seq<Seq<char>>, raw: Seq<char>)
    requires
        forall|i: int| 0 <= i < raw.len() ==> (#[trigger] raw[i]) as u32 <= 127,
    ensures
        normalized_symbol(symbols, raw) == if symbols.contains(traded_as(raw)) {
            Some(traded_as(raw))
        } else {
            None
        },
{
    let upper = uppercased(raw);
    assert forall|i: int| 0 <= i < raw.len() implies replaced(upper, '-', '/')[i] == traded_as(
        raw,
    )[i] by {
        assert(upper[i] == ascii_upper(raw[i]));
    }
    assert(replaced(upper, '-', '/') =~= traded_as(raw));
}

/// Whether a request for an order makes sense: a supported symbol, a positive amount, and for a
/// limit order a positive limit price; nothing but market and limit orders.
pub open spec fn makes_sense(
    symbol: Option<Seq<char>>,
    amount: DecimalView,
    order_type: OrderType,
    limit_price: Option<DecimalView>,
) -> bool {
    &&& symbol is Some
    &&& amount.mantissa > 0
    &&& order_type == OrderType::Market || (order_type == OrderType::Limit && (
    limit_price matches Some(price) && price.mantissa > 0))
}

/// A request for an order that makes sense places just that order: for that user, of that symbol,
/// side, amount and type, and at that limit. Any other request is refused, with what is wrong with
/// it, and nothing is asked or written.
pub proof fn law_request_is_placed(
    symbols: Seq<Seq<char>>,
    quotes: Map<Seq<char>, QuoteView>,
    user: UserView,
    raw_symbol: Seq<char>,
    side: Side,
    amount: DecimalView,
    order_type: OrderType,
    limit_price: Option<DecimalView>,
    id: Seq<char>,
    now: TimestampView,
)
    ensures
        ({
            let symbol = normalized_symbol(symbols, raw_symbol);
            let progress = placement(
                symbols,
                quotes,
                user,
                raw_symbol,
                side,
                amount,
                order_type,
                limit_price,
                id,
                now,
            );
            if makes_sense(symbol, amount, order_type, limit_price) {
                let ticket = TicketView { id, user, symbol: symbol->0, amount, now };
                progress == if order_type == OrderType::Market {
                    market(quotes, ticket, side)
                } else {
                    limit(ticket, side, limit_price->0)
                }
            } else {
                progress == ProgressView::<PlacingView, PlacedView>::Finished(
                    Err(
                        if symbol is None {
                            AppErrorView::UnknownSymbol(raw_symbol)
                        } else if amount.mantissa <= 0 {
                            AppErrorView::BadRequest("amount must be > 0"@)
                        } else if order_type == OrderType::StopLimit {
                            AppErrorView::BadRequest("stop_limit orders are not yet supported"@)
                        } else if limit_price is None {
                            AppErrorView::BadRequest("limit_price is required for limit orders"@)
                        } else {
                            AppErrorView::BadRequest("limit_price must be > 0"@)
                        },
                    ),
                )
            }
        }),
{
}

/// Whoever has a session orders for themselves: the user of the session is read, and the order is
/// the one in the request. The answer is the order; where it is pending, its entry goes to the end
/// of the book, and otherwise the book stays as it is.
pub proof fn law_orders_are_of_the_caller(
    claims: ClaimsView,
    body: PlaceOrderRequestView,
    user: UserView,
    symbols: Seq<Seq<char>>,
    quotes: Map<Seq<char>, QuoteView>,
    id: Seq<char>,
    now: TimestampView,
    book: Seq<PendingLimitOrderView>,
    order: OrderView,
    pending: PendingLimitOrderView,
    error: AppErrorView,
)
    ensures
        submission(Ok(claims), body) matches ProgressView::Ask(request, state) && request
            == StoreRequestView::GetUserById(claims.sub) && state.next(
            StoreReplyView::User(None),
            symbols,
            quotes,
            id,
            now,
        ) == ProgressView::<PlacingView, PlacedView>::Finished(
            Err(AppErrorView::NotFound("User not found"@)),
        ) && state.next(StoreReplyView::User(Some(user)), symbols, quotes, id, now) == placement(
            symbols,
            quotes,
            user,
            body.symbol,
            body.side,
            body.amount,
            body.order_type,
            body.limit_price,
            id,
            now,
        ),
        ({
            let waits = ProgressView::<PlacingView, PlacedView>::Finished(
                Ok((order, Some(pending))),
            );
            let done = ProgressView::<PlacingView, PlacedView>::Finished(Ok((order, None)));
            let failed = ProgressView::<PlacingView, PlacedView>::Finished(Err(error));
            let answer = ProgressView::<SubmittingView, OrderView>::Finished(Ok(order));
            &&& submitted(waits) == answer && booked(book, waits) == book.push(pending)
            &&& submitted(done) == answer && booked(book, done) == book
            &&& submitted(failed) == ProgressView::<SubmittingView, OrderView>::Finished(Err(error))
            &&& booked(book, failed) == book
        }),
{
}

/// A list of orders is of the caller's own, the fifty latest where no number is asked for and five
/// hundred at most; an administrator's is of everyone's, a hundred and a thousand at most. What
/// the store lists is what is answered.
pub proof fn law_lists_of_orders(
    claims: ClaimsView,
    query: LimitQueryView,
    wide: AllLimitQueryView,
    orders: Seq<OrderView>,
)
    requires
        query.limit == wide.limit,
    ensures
        ({
            let wanted: int = match query.limit {
                Some(n) => n as int,
                None => 50,
            };
            order_listing(Ok(claims), query) matches ProgressView::Ask(request, _) && request
                == StoreRequestView::ListOrdersForUser(
                claims.sub,
                (if wanted > 500 {
                    500
                } else {
                    wanted
                }) as u32,
            )
        }),
        claims.role == "admin"@ ==> ({
            let wanted: int = match query.limit {
                Some(n) => n as int,
                None => 100,
            };
            all_order_listing(Ok(claims), wide) matches ProgressView::Ask(request, _) && request
                == StoreRequestView::ListAllOrders(
                (if wanted > 1000 {
                    1000
                } else {
                    wanted
                }) as u32,
            )
        }),
        orders_listed(StoreReplyView::Orders(orders)) == ProgressView::<
            ListingOrders,
            Seq<OrderView>,
        >::Finished(Ok(orders)),
{
}

/// Whether the items of one list stand in another, in the same order.
pub open spec fn stands_in<T>(part: Seq<T>, whole: Seq<T>) -> bool
    decreases whole.len(),
{
    part.len() == 0 || (whole.len() > 0 && if part.last() == whole.last() {
        stands_in(part.drop_last(), whole.drop_last())
    } else {
        stands_in(part, whole.drop_last())
    })
}

proof fn lemma_stands_in_more<T>(part: Seq<T>, whole: Seq<T>, more: T)
    requires
        stands_in(part, whole),
    ensures
        stands_in(part, whole.push(more)),
        stands_in(part.push(more), whole.push(more)),
    decreases whole.len(), 1int,
{
    assert(whole.push(more).drop_last() =~= whole);
    assert(part.push(more).drop_last() =~= part);
    if part.len() > 0 && part.last() == more {
        lemma_shorter_stands_in(part, whole);
    }
}

proof fn lemma_shorter_stands_in<T>(part: Seq<T>, whole: Seq<T>)
    requires
        stands_in(part, whole),
        part.len() > 0,
    ensures
        stands_in(part.drop_last(), whole),
    decreases whole.len(), 0int,
{
    let rest = whole.drop_last();
    if part.last() == whole.last() {
        assert(rest.push(whole.last()) =~= whole);
        lemma_stands_in_more(part.drop_last(), rest, whole.last());
    } else {
        lemma_shorter_stands_in(part, rest);
        assert(rest.push(whole.last()) =~= whole);
        lemma_stands_in_more(part.drop_last(), rest, whole.last());
    }
}

/// What is taken out of the book and what stays stand in the order in which they came, so that
/// who came first is filled first.
pub proof fn law_drain_keeps_the_order(
    book: Seq<PendingLimitOrderView>,
    quotes: Map<Seq<char>, QuoteView>,
)
    ensures
        stands_in(kept_orders(book, quotes), book),
        stands_in(without_prices(fillable_orders(book, quotes)), book),
    decreases book.len(),
{
    if book.len() > 0 {
        let rest = book.drop_last();
        let last = book.last();
        law_drain_keeps_the_order(rest, quotes);
        assert(rest.push(last) =~= book);
        lemma_stands_in_more(kept_orders(rest, quotes), rest, last);
        lemma_stands_in_more(without_prices(fillable_orders(rest, quotes)), rest, last);
        match fill_price(quotes, last) {
            Some(price) => {
                let before = fillable_orders(rest, quotes);
                assert(without_prices(before.push((last, price))) =~= without_prices(before).push(
                    last,
                ));
            },
            None => {},
        }
    } else {
        assert(without_prices(fillable_orders(book, quotes)) =~= Seq::<
            PendingLimitOrderView,
        >::empty());
    }
}

} // verus!
