//! What requests do to the records of the exchange, from beginning to end.
//!
//! A ledger is what the store holds. A request that asks the store step by step, and is answered
//! truthfully, has an outcome and leaves a ledger behind. The laws here say which.

use vstd::prelude::*;

use crate::api::orders::{
    book_after_cancel, booked, cancellation, position_after_unlock, CancelingView,
};
use crate::auth::ClaimsView;
use crate::db::{with_fill, with_status};
use crate::decimal::{
    adds_exactly, decimal_difference, decimal_max, decimal_product, decimal_sum, decimal_zero,
    lemma_difference_not_negative, lemma_difference_undone, lemma_product_not_negative,
    lemma_sum_not_negative, lemma_sum_undone, lemma_total_ordered, lemma_units_difference,
    lemma_units_less, lemma_units_sign, lemma_units_sum, lemma_zero_less, product_is_exact,
    rounded, subtracts_exactly, units, DecimalView,
};
use crate::engine::{
    balance_too_low, find_position, held_quantity, limit, market, normalized_symbol, placement,
    position_after_buy, position_after_sell, position_too_small, with_balance, PlacedView,
    PlacingView, TicketView,
};
use crate::error::AppErrorView;
use crate::models::{OrderStatus, OrderType, OrderView, PositionView, Side, UserView};
use crate::order_book::{
    credited, fill_price, fillable_orders, filling, ids_unique, kept_orders, law_add_then_remove,
    lemma_place, open_order, pending_of, place_in_book, refund, without_prices, FillingView,
    PendingLimitOrderView,
};
use crate::store::{ProgressView, StoreReplyView, StoreRequestView};
use crate::timestamp::{not_after, TimestampView};
use crate::ws_client::{lookup, QuoteView};

verus! {

/// The records: users and orders by id, positions by user and symbol.
#[verifier::ext_equal]
pub struct LedgerView {
    pub users: Map<Seq<char>, UserView>,
    pub orders: Map<Seq<char>, OrderView>,
    pub positions: Map<(Seq<char>, Seq<char>), PositionView>,
}

impl LedgerView {
    pub open spec fn with_user(self, user: UserView) -> LedgerView {
        LedgerView { users: self.users.insert(user.id, user), ..self }
    }

    pub open spec fn with_order(self, order: OrderView) -> LedgerView {
        LedgerView { orders: self.orders.insert(order.id, order), ..self }
    }

    pub open spec fn with_position(self, position: PositionView) -> LedgerView {
        LedgerView {
            positions: self.positions.insert((position.user_id, position.symbol), position),
            ..self
        }
    }

    /// The ledger after a user is inserted: of two versions of a user, the later one is kept, and
    /// the one inserted last where they are equally late.
    pub open spec fn keep_user(self, user: UserView) -> LedgerView {
        match lookup(self.users, user.id) {
            Some(kept) => if not_after(kept.created_at, user.created_at) {
                self.with_user(user)
            } else {
                self
            },
            None => self.with_user(user),
        }
    }

    /// The ledger after an order is inserted: the later version is kept.
    pub open spec fn keep_order(self, order: OrderView) -> LedgerView {
        match lookup(self.orders, order.id) {
            Some(kept) => if not_after(kept.updated_at, order.updated_at) {
                self.with_order(order)
            } else {
                self
            },
            None => self.with_order(order),
        }
    }

    /// The ledger after a position is inserted: the later version is kept.
    pub open spec fn keep_position(self, position: PositionView) -> LedgerView {
        let key = (position.user_id, position.symbol);
        if self.positions.dom().contains(key) && !not_after(
            self.positions[key].updated_at,
            position.updated_at,
        ) {
            self
        } else {
            self.with_position(position)
        }
    }

    /// Whether nothing in the ledger is of a version later than a time: the clock has not been
    /// set back.
    pub open spec fn until(self, now: TimestampView) -> bool {
        &&& forall|id: Seq<char>| #[trigger]
            self.users.dom().contains(id) ==> not_after(self.users[id].created_at, now)
        &&& forall|id: Seq<char>| #[trigger]
            self.orders.dom().contains(id) ==> not_after(self.orders[id].updated_at, now)
        &&& forall|key: (Seq<char>, Seq<char>)| #[trigger]
            self.positions.dom().contains(key) ==> not_after(self.positions[key].updated_at, now)
    }

    /// What a user holds of a symbol.
    pub open spec fn held(self, user_id: Seq<char>, symbol: Seq<char>) -> Option<PositionView> {
        let key = (user_id, symbol);
        if self.positions.dom().contains(key) && self.positions[key].quantity.mantissa > 0 {
            Some(self.positions[key])
        } else {
            None
        }
    }

    /// Whether a list holds what a user holds, each symbol once.
    pub open spec fn lists(self, user_id: Seq<char>, listed: Seq<PositionView>) -> bool {
        &&& forall|i: int|
            0 <= i < listed.len() ==> (#[trigger] listed[i]).user_id == user_id && self.held(
                user_id,
                listed[i].symbol,
            ) == Some(listed[i])
        &&& forall|symbol: Seq<char>|
            (#[trigger] self.held(user_id, symbol)) is Some ==> exists|i: int|
                0 <= i < listed.len() && (#[trigger] listed[i]).symbol == symbol
    }

    /// The ledger after a request to the store.
    pub open spec fn after(self, request: StoreRequestView) -> LedgerView {
        match request {
            StoreRequestView::InsertUser(user) => self.keep_user(user),
            StoreRequestView::InsertOrder(order) => self.keep_order(order),
            StoreRequestView::UpsertPosition(position) => self.keep_position(position),
            _ => self,
        }
    }

    /// The truthful reply to a request that reads or writes single records, or reads positions,
    /// which are listed as given.
    pub open spec fn reply(
        self,
        request: StoreRequestView,
        listed: Seq<PositionView>,
    ) -> StoreReplyView {
        match request {
            StoreRequestView::GetUserById(id) => StoreReplyView::User(lookup(self.users, id)),
            StoreRequestView::GetOrderById(id) => StoreReplyView::Order(lookup(self.orders, id)),
            StoreRequestView::GetPositionsForUser(_) => StoreReplyView::Positions(listed),
            _ => StoreReplyView::Inserted,
        }
    }
}

/// What a request comes to when the store answers it truthfully, and the ledger that it leaves:
/// at most `steps` questions are asked.
pub open spec fn outcome<S, T>(
    progress: ProgressView<S, T>,
    next: spec_fn(S, StoreReplyView) -> ProgressView<S, T>,
    ledger: LedgerView,
    listed: Seq<PositionView>,
    steps: nat,
) -> (Result<T, AppErrorView>, LedgerView)
    decreases steps,
{
    match progress {
        ProgressView::Finished(result) => (result, ledger),
        ProgressView::Ask(request, state) => if steps == 0 {
            (Err(AppErrorView::Overflow), ledger)
        } else {
            outcome(
                next(state, ledger.reply(request, listed)),
                next,
                ledger.after(request),
                listed,
                (steps - 1) as nat,
            )
        },
    }
}

/// What placing an order comes to.
pub open spec fn placed(
    progress: ProgressView<PlacingView, PlacedView>,
    ledger: LedgerView,
    listed: Seq<PositionView>,
) -> (Result<PlacedView, AppErrorView>, LedgerView) {
    outcome(
        progress,
        |state: PlacingView, reply: StoreReplyView| state.next(reply),
        ledger,
        listed,
        5,
    )
}

/// What filling a pending order comes to.
pub open spec fn filled(
    pending: PendingLimitOrderView,
    exec_price: DecimalView,
    now: TimestampView,
    ledger: LedgerView,
    listed: Seq<PositionView>,
) -> (Result<(), AppErrorView>, LedgerView) {
    outcome(
        filling(pending, exec_price, now),
        |state: FillingView, reply: StoreReplyView| state.next(reply),
        ledger,
        listed,
        6,
    )
}

/// What canceling an order comes to.
pub open spec fn canceled(
    progress: ProgressView<CancelingView, Seq<char>>,
    now: TimestampView,
    ledger: LedgerView,
    listed: Seq<PositionView>,
) -> (Result<Seq<char>, AppErrorView>, LedgerView) {
    outcome(
        progress,
        |state: CancelingView, reply: StoreReplyView| state.next(reply, now),
        ledger,
        listed,
        6,
    )
}

/// The position in a truthful list is what the ledger holds.
pub(crate) proof fn lemma_listed(
    ledger: LedgerView,
    user_id: Seq<char>,
    listed: Seq<PositionView>,
    symbol: Seq<char>,
)
    requires
        ledger.lists(user_id, listed),
    ensures
        find_position(listed, symbol) == ledger.held(user_id, symbol),
{
    lemma_find(listed, symbol);
    match find_position(listed, symbol) {
        Some(p) => {
            let i = choose|i: int| 0 <= i < listed.len() && #[trigger] listed[i] == p;
            assert(listed[i].symbol == symbol);
        },
        None => {
            if ledger.held(user_id, symbol) is Some {
                let i = choose|i: int|
                    0 <= i < listed.len() && (#[trigger] listed[i]).symbol == symbol;
                assert(listed[i].symbol == symbol);
            }
        },
    }
}

proof fn lemma_find(listed: Seq<PositionView>, symbol: Seq<char>)
    ensures
        match find_position(listed, symbol) {
            Some(p) => p.symbol == symbol && exists|i: int|
                0 <= i < listed.len() && #[trigger] listed[i] == p,
            None => forall|i: int|
                0 <= i < listed.len() ==> (#[trigger] listed[i]).symbol != symbol,
        },
    decreases listed.len(),
{
    if listed.len() > 0 {
        if listed[0].symbol != symbol {
            let rest = listed.drop_first();
            lemma_find(rest, symbol);
            match find_position(rest, symbol) {
                Some(p) => {
                    let i = choose|i: int| 0 <= i < rest.len() && #[trigger] rest[i] == p;
                    assert(listed[i + 1] == p);
                },
                None => {
                    assert forall|i: int| 0 <= i < listed.len() implies (
                    #[trigger] listed[i]).symbol != symbol by {
                        if i > 0 {
                            assert(rest[i - 1].symbol != symbol);
                        }
                    }
                },
            }
        } else {
            assert(listed[0] == find_position(listed, symbol)->0);
        }
    }
}

/// What is written in a version of the time at which it is written is what the ledger keeps.
pub proof fn law_writes_win(now: TimestampView)
    ensures
        forall|ledger: LedgerView, user: UserView|
            ledger.until(now) && user.created_at == now ==> #[trigger] ledger.keep_user(user)
                == ledger.with_user(user),
        forall|ledger: LedgerView, order: OrderView|
            ledger.until(now) && order.updated_at == now ==> #[trigger] ledger.keep_order(order)
                == ledger.with_order(order),
        forall|ledger: LedgerView, position: PositionView|
            ledger.until(now) && position.updated_at == now
                ==> #[trigger] ledger.keep_position(position) == ledger.with_position(position),
        forall|ledger: LedgerView, user: UserView|
            ledger.until(now) && user.created_at == now ==> (#[trigger] ledger.with_user(
                user,
            )).until(now),
        forall|ledger: LedgerView, order: OrderView|
            ledger.until(now) && order.updated_at == now ==> (#[trigger] ledger.with_order(
                order,
            )).until(now),
        forall|ledger: LedgerView, position: PositionView|
            ledger.until(now) && position.updated_at == now ==> (#[trigger] ledger.with_position(
                position,
            )).until(now),
{
}

proof fn lemma_until_later(ledger: LedgerView, then: TimestampView, now: TimestampView)
    requires
        ledger.until(then),
        not_after(then, now),
    ensures
        ledger.until(now),
{
}

/// Writing a user who is there already changes nothing.
proof fn lemma_same_user(ledger: LedgerView, user: UserView)
    requires
        lookup(ledger.users, user.id) == Some(user),
    ensures
        ledger.with_user(user) == ledger,
        ledger.keep_user(user) == ledger,
{
    assert(ledger.users.insert(user.id, user) =~= ledger.users);
}

/// The price and the total of a market order, where there are any.
pub open spec fn market_terms(
    quotes: Map<Seq<char>, QuoteView>,
    symbol: Seq<char>,
    amount: DecimalView,
) -> Option<(DecimalView, DecimalView)> {
    match lookup(quotes, symbol) {
        Some(quote) => match quote.price {
            Some(quoted) => match decimal_product(rounded(quoted), amount) {
                Some(product) => Some((rounded(quoted), rounded(product))),
                None => None,
            },
            None => None,
        },
        None => None,
    }
}

/// A market buy that the balance covers takes its total from the balance and adds its amount to
/// the position; one that the balance does not cover is recorded as rejected and changes nothing
/// else. Where the numbers leave their range, nothing at all is changed.
pub proof fn law_market_buy(
    ledger: LedgerView,
    listed: Seq<PositionView>,
    quotes: Map<Seq<char>, QuoteView>,
    ticket: TicketView,
    price: DecimalView,
    total: DecimalView,
)
    requires
        ledger.until(ticket.now),
        lookup(ledger.users, ticket.user.id) == Some(ticket.user),
        ledger.lists(ticket.user.id, listed),
        market_terms(quotes, ticket.symbol, ticket.amount) == Some((price, total)),
    ensures
        ({
            let user = ticket.user;
            let position = position_after_buy(
                ledger.held(user.id, ticket.symbol),
                user.id,
                ticket.symbol,
                price,
                ticket.amount,
                ticket.now,
            );
            let (r, after) = placed(market(quotes, ticket, Side::Buy), ledger, listed);
            if user.balance_usdc.less(total) {
                let rejected = ticket.market_order(
                    Side::Buy,
                    price,
                    total,
                    OrderStatus::Rejected,
                    Some(balance_too_low(total, user.balance_usdc)),
                );
                &&& r == Ok::<PlacedView, AppErrorView>((rejected, None))
                &&& after == ledger.with_order(rejected)
            } else {
                match (decimal_difference(user.balance_usdc, total), position) {
                    (Some(rest), Some(position)) => {
                        let done = ticket.market_order(
                            Side::Buy,
                            price,
                            total,
                            OrderStatus::Filled,
                            None,
                        );
                        &&& r == Ok::<PlacedView, AppErrorView>((done, None))
                        &&& after == ledger.with_position(position).with_order(done).with_user(
                            with_balance(user, rest, ticket.now),
                        )
                    },
                    _ => r == Err::<PlacedView, AppErrorView>(AppErrorView::Overflow) && after
                        == ledger,
                }
            }
        }),
{
    law_writes_win(ticket.now);
    reveal_with_fuel(outcome, 6);
    lemma_listed(ledger, ticket.user.id, listed, ticket.symbol);
    lemma_same_user(ledger, ticket.user);
    if ticket.user.balance_usdc.less(total) {
        let rejected = ticket.market_order(
            Side::Buy,
            price,
            total,
            OrderStatus::Rejected,
            Some(balance_too_low(total, ticket.user.balance_usdc)),
        );
        lemma_same_user(ledger.with_order(rejected), ticket.user);
    }
}

/// A market sell that the position covers takes its amount from the position and adds its total
/// to the balance; one that the position does not cover is recorded as rejected and changes
/// nothing else. Where the numbers leave their range, nothing at all is changed.
pub proof fn law_market_sell(
    ledger: LedgerView,
    listed: Seq<PositionView>,
    quotes: Map<Seq<char>, QuoteView>,
    ticket: TicketView,
    price: DecimalView,
    total: DecimalView,
)
    requires
        ledger.until(ticket.now),
        lookup(ledger.users, ticket.user.id) == Some(ticket.user),
        ledger.lists(ticket.user.id, listed),
        market_terms(quotes, ticket.symbol, ticket.amount) == Some((price, total)),
        ticket.amount.mantissa > 0,
    ensures
        ({
            let user = ticket.user;
            let held = ledger.held(user.id, ticket.symbol);
            let (r, after) = placed(market(quotes, ticket, Side::Sell), ledger, listed);
            if held_quantity(held).less(ticket.amount) {
                let rejected = ticket.market_order(
                    Side::Sell,
                    price,
                    total,
                    OrderStatus::Rejected,
                    Some(position_too_small(ticket.amount, held_quantity(held), ticket.symbol)),
                );
                &&& r == Ok::<PlacedView, AppErrorView>((rejected, None))
                &&& after == ledger.with_order(rejected)
            } else {
                match (
                    decimal_sum(user.balance_usdc, total),
                    position_after_sell(held->0, ticket.symbol, ticket.amount, ticket.now),
                ) {
                    (Some(balance), Some(position)) => {
                        let done = ticket.market_order(
                            Side::Sell,
                            price,
                            total,
                            OrderStatus::Filled,
                            None,
                        );
                        &&& held is Some
                        &&& r == Ok::<PlacedView, AppErrorView>((done, None))
                        &&& after == ledger.with_position(position).with_order(done).with_user(
                            with_balance(user, balance, ticket.now),
                        )
                    },
                    _ => r == Err::<PlacedView, AppErrorView>(AppErrorView::Overflow) && after
                        == ledger,
                }
            }
        }),
{
    law_writes_win(ticket.now);
    reveal_with_fuel(outcome, 6);
    lemma_listed(ledger, ticket.user.id, listed, ticket.symbol);
    lemma_same_user(ledger, ticket.user);
    lemma_zero_less(ticket.amount);
    let held = ledger.held(ticket.user.id, ticket.symbol);
    if held_quantity(held).less(ticket.amount) {
        let rejected = ticket.market_order(
            Side::Sell,
            price,
            total,
            OrderStatus::Rejected,
            Some(position_too_small(ticket.amount, held_quantity(held), ticket.symbol)),
        );
        lemma_same_user(ledger.with_order(rejected), ticket.user);
    }
}

/// The USDC that a limit buy locks.
pub open spec fn limit_cost(limit_price: DecimalView, amount: DecimalView) -> Option<DecimalView> {
    match decimal_product(limit_price, amount) {
        Some(product) => Some(rounded(product)),
        None => None,
    }
}

/// A limit buy that the balance covers takes `limit_price × amount` USDC from the balance at once
/// and is pending with as much locked; no position changes. One that the balance does not cover is
/// recorded as rejected and changes nothing else.
pub proof fn law_limit_buy(
    ledger: LedgerView,
    listed: Seq<PositionView>,
    ticket: TicketView,
    limit_price: DecimalView,
    cost: DecimalView,
)
    requires
        ledger.until(ticket.now),
        limit_cost(limit_price, ticket.amount) == Some(cost),
    ensures
        ({
            let user = ticket.user;
            let (r, after) = placed(limit(ticket, Side::Buy, limit_price), ledger, listed);
            if user.balance_usdc.less(cost) {
                let rejected = ticket.limit_order(
                    Side::Buy,
                    limit_price,
                    OrderStatus::Rejected,
                    Some(balance_too_low(cost, user.balance_usdc)),
                );
                &&& r == Ok::<PlacedView, AppErrorView>((rejected, None))
                &&& after == ledger.with_order(rejected)
            } else {
                match decimal_difference(user.balance_usdc, cost) {
                    Some(rest) => {
                        let order = ticket.limit_order(
                            Side::Buy,
                            limit_price,
                            OrderStatus::Pending,
                            None,
                        );
                        let pending = pending_of(order, cost, decimal_zero());
                        &&& r == Ok::<PlacedView, AppErrorView>((order, Some(pending)))
                        &&& after == ledger.with_order(order).with_user(
                            with_balance(user, rest, ticket.now),
                        )
                    },
                    None => r == Err::<PlacedView, AppErrorView>(AppErrorView::Overflow) && after
                        == ledger,
                }
            }
        }),
{
    law_writes_win(ticket.now);
    reveal_with_fuel(outcome, 6);
}

/// A limit sell that the position covers takes its amount from the position at once and is
/// pending with as much locked; the balance stays. One that the position does not cover is
/// recorded as rejected and changes nothing else.
pub proof fn law_limit_sell(
    ledger: LedgerView,
    listed: Seq<PositionView>,
    ticket: TicketView,
    limit_price: DecimalView,
)
    requires
        ledger.until(ticket.now),
        lookup(ledger.users, ticket.user.id) == Some(ticket.user),
        ledger.lists(ticket.user.id, listed),
        ticket.amount.mantissa > 0,
    ensures
        ({
            let held = ledger.held(ticket.user.id, ticket.symbol);
            let (r, after) = placed(limit(ticket, Side::Sell, limit_price), ledger, listed);
            if held_quantity(held).less(ticket.amount) {
                let rejected = ticket.limit_order(
                    Side::Sell,
                    limit_price,
                    OrderStatus::Rejected,
                    Some(position_too_small(ticket.amount, held_quantity(held), ticket.symbol)),
                );
                &&& r == Ok::<PlacedView, AppErrorView>((rejected, None))
                &&& after == ledger.with_order(rejected)
            } else {
                match position_after_sell(held->0, ticket.symbol, ticket.amount, ticket.now) {
                    Some(position) => {
                        let order = ticket.limit_order(
                            Side::Sell,
                            limit_price,
                            OrderStatus::Pending,
                            None,
                        );
                        let pending = pending_of(order, decimal_zero(), ticket.amount);
                        &&& held is Some
                        &&& r == Ok::<PlacedView, AppErrorView>((order, Some(pending)))
                        &&& after == ledger.with_position(position).with_order(order).with_user(
                            with_balance(ticket.user, ticket.user.balance_usdc, ticket.now),
                        )
                    },
                    None => r == Err::<PlacedView, AppErrorView>(AppErrorView::Overflow) && after
                        == ledger,
                }
            }
        }),
{
    law_writes_win(ticket.now);
    reveal_with_fuel(outcome, 6);
    lemma_listed(ledger, ticket.user.id, listed, ticket.symbol);
    lemma_zero_less(ticket.amount);
}

/// The record of a pending order that is filled.
pub open spec fn filled_order(
    pending: PendingLimitOrderView,
    exec_price: DecimalView,
    total: DecimalView,
    now: TimestampView,
) -> OrderView {
    with_fill(open_order(pending, now), exec_price, total, now)
}

/// A buy that is filled is recorded as filled and adds its amount to the position; what was locked
/// beyond its total goes back to the balance, and where that is nothing the balance stays.
pub proof fn law_fill_buy(
    ledger: LedgerView,
    listed: Seq<PositionView>,
    pending: PendingLimitOrderView,
    exec_price: DecimalView,
    total: DecimalView,
    now: TimestampView,
    position: PositionView,
    excess: DecimalView,
    user: UserView,
)
    requires
        ledger.until(now),
        pending.side == Side::Buy,
        ledger.lists(pending.user_id, listed),
        limit_cost(exec_price, pending.amount) == Some(total),
        position_after_buy(
            ledger.held(pending.user_id, pending.symbol),
            pending.user_id,
            pending.symbol,
            exec_price,
            pending.amount,
            now,
        ) == Some(position),
        refund(pending.locked_usdc, total) == Some(excess),
        lookup(ledger.users, pending.user_id) == Some(user),
    ensures
        ({
            let order = filled_order(pending, exec_price, total, now);
            let traded = ledger.with_order(order).with_position(position);
            let (r, after) = filled(pending, exec_price, now, ledger, listed);
            if excess.mantissa > 0 {
                match credited(user, excess, now) {
                    Some(user) => r is Ok && after == traded.with_user(user),
                    None => r == Err::<(), AppErrorView>(AppErrorView::Overflow) && after == traded,
                }
            } else {
                r is Ok && after == traded
            }
        }),
{
    law_writes_win(now);
    reveal_with_fuel(outcome, 7);
    lemma_listed(ledger, pending.user_id, listed, pending.symbol);
}

/// A sell that is filled is recorded as filled and adds its total to the balance; the amount has
/// left the position already.
pub proof fn law_fill_sell(
    ledger: LedgerView,
    listed: Seq<PositionView>,
    pending: PendingLimitOrderView,
    exec_price: DecimalView,
    total: DecimalView,
    now: TimestampView,
    user: UserView,
)
    requires
        ledger.until(now),
        pending.side == Side::Sell,
        limit_cost(exec_price, pending.amount) == Some(total),
        lookup(ledger.users, pending.user_id) == Some(user),
    ensures
        ({
            let recorded = ledger.with_order(filled_order(pending, exec_price, total, now));
            let (r, after) = filled(pending, exec_price, now, ledger, listed);
            match credited(user, total, now) {
                Some(user) => r is Ok && after == recorded.with_user(user),
                None => r == Err::<(), AppErrorView>(AppErrorView::Overflow) && after == recorded,
            }
        }),
{
    law_writes_win(now);
    reveal_with_fuel(outcome, 7);
}

/// A buy that is canceled by its user gives what was locked back to the balance, and is recorded
/// as canceled.
pub proof fn law_cancel_buy(
    ledger: LedgerView,
    listed: Seq<PositionView>,
    book: Seq<PendingLimitOrderView>,
    claims: ClaimsView,
    pending: PendingLimitOrderView,
    order: OrderView,
    user: UserView,
    now: TimestampView,
)
    requires
        ledger.until(now),
        pending.side == Side::Buy,
        pending.user_id == claims.sub,
        place_in_book(book, pending.order_id) < book.len(),
        book[place_in_book(book, pending.order_id)] == pending,
        lookup(ledger.orders, pending.order_id) == Some(order),
        lookup(ledger.users, pending.user_id) == Some(user),
    ensures
        ({
            let (r, after) = canceled(
                cancellation(Ok(claims), pending.order_id, book),
                now,
                ledger,
                listed,
            );
            match credited(user, pending.locked_usdc, now) {
                Some(user) => {
                    &&& r == Ok::<Seq<char>, AppErrorView>(pending.order_id)
                    &&& after == ledger.with_user(user).with_order(
                        with_status(order, OrderStatus::Canceled, now),
                    )
                },
                None => r == Err::<Seq<char>, AppErrorView>(AppErrorView::Overflow) && after
                    == ledger,
            }
        }),
{
    law_writes_win(now);
    reveal_with_fuel(outcome, 7);
}

/// A sell that is canceled by its user gives what was locked back to the position, and is recorded
/// as canceled.
pub proof fn law_cancel_sell(
    ledger: LedgerView,
    listed: Seq<PositionView>,
    book: Seq<PendingLimitOrderView>,
    claims: ClaimsView,
    pending: PendingLimitOrderView,
    order: OrderView,
    user: UserView,
    now: TimestampView,
)
    requires
        ledger.until(now),
        pending.side == Side::Sell,
        pending.user_id == claims.sub,
        place_in_book(book, pending.order_id) < book.len(),
        book[place_in_book(book, pending.order_id)] == pending,
        lookup(ledger.orders, pending.order_id) == Some(order),
        lookup(ledger.users, pending.user_id) == Some(user),
        user.id == pending.user_id,
        ledger.lists(user.id, listed),
    ensures
        ({
            let (r, after) = canceled(
                cancellation(Ok(claims), pending.order_id, book),
                now,
                ledger,
                listed,
            );
            match position_after_unlock(
                ledger.held(user.id, pending.symbol),
                user.id,
                pending.symbol,
                pending.locked_qty,
                now,
            ) {
                Some(position) => {
                    &&& r == Ok::<Seq<char>, AppErrorView>(pending.order_id)
                    &&& after == ledger.with_position(position).with_order(
                        with_status(order, OrderStatus::Canceled, now),
                    )
                },
                None => r == Err::<Seq<char>, AppErrorView>(AppErrorView::Overflow) && after
                    == ledger,
            }
        }),
{
    law_writes_win(now);
    reveal_with_fuel(outcome, 7);
    lemma_listed(ledger, user.id, listed, pending.symbol);
}

/// The balance of a user in a ledger.
pub open spec fn balance_in(ledger: LedgerView, user_id: Seq<char>) -> DecimalView {
    ledger.users[user_id].balance_usdc
}

/// The quantity that a user holds of a symbol in a ledger.
pub open spec fn quantity_in(
    ledger: LedgerView,
    user_id: Seq<char>,
    symbol: Seq<char>,
) -> DecimalView {
    held_quantity(ledger.held(user_id, symbol))
}

/// A limit buy that is placed and then canceled leaves the balance as large as it was, and the
/// positions and the book as they were; the order is kept as canceled.
pub proof fn law_limit_buy_then_cancel(
    ledger: LedgerView,
    listed: Seq<PositionView>,
    book: Seq<PendingLimitOrderView>,
    claims: ClaimsView,
    ticket: TicketView,
    limit_price: DecimalView,
    cost: DecimalView,
    now: TimestampView,
)
    requires
        not_after(ticket.now, now),
        ledger.until(ticket.now),
        lookup(ledger.users, ticket.user.id) == Some(ticket.user),
        claims.sub == ticket.user.id,
        place_in_book(book, ticket.id) == book.len(),
        limit_cost(limit_price, ticket.amount) == Some(cost),
        ticket.user.balance_usdc.valid(),
        cost.valid(),
        !ticket.user.balance_usdc.less(cost),
        subtracts_exactly(ticket.user.balance_usdc, cost),
    ensures
        ({
            let (placement, between) = placed(
                limit(ticket, Side::Buy, limit_price),
                ledger,
                listed,
            );
            &&& placement matches Ok((order, Some(pending)))
            &&& units(balance_in(between, ticket.user.id)) + units(pending.locked_usdc) == units(
                balance_in(ledger, ticket.user.id),
            )
            &&& ({
                let (r, after) = canceled(
                    cancellation(Ok(claims), order.id, book.push(pending)),
                    now,
                    between,
                    listed,
                );
                &&& r == Ok::<Seq<char>, AppErrorView>(order.id)
                &&& units(balance_in(after, ticket.user.id)) == units(
                    balance_in(ledger, ticket.user.id),
                )
                &&& after.positions == ledger.positions
                &&& lookup(after.orders, order.id) == Some(
                    with_status(order, OrderStatus::Canceled, now),
                )
            })
            &&& book_after_cancel(Ok(claims), order.id, book.push(pending)) == book
        }),
{
    law_writes_win(ticket.now);
    let user = ticket.user;
    law_limit_buy(ledger, listed, ticket, limit_price, cost);
    lemma_units_difference(user.balance_usdc, cost);
    lemma_difference_undone(user.balance_usdc, cost);
    let rest = decimal_difference(user.balance_usdc, cost)->0;
    let order = ticket.limit_order(Side::Buy, limit_price, OrderStatus::Pending, None);
    let pending = pending_of(order, cost, decimal_zero());
    let between = ledger.with_order(order).with_user(with_balance(user, rest, ticket.now));
    lemma_until_later(between, ticket.now, now);
    law_add_then_remove(book, pending, pending.order_id);
    law_cancel_buy(
        between,
        listed,
        book.push(pending),
        claims,
        pending,
        order,
        with_balance(user, rest, ticket.now),
        now,
    );
}

/// A limit sell that is placed and then canceled leaves the position as large as it was, and the
/// balance and the book as they were; the order is kept as canceled. Where something was left of
/// the position in between, its average price is as it was, too.
pub proof fn law_limit_sell_then_cancel(
    ledger: LedgerView,
    listed: Seq<PositionView>,
    listed_then: Seq<PositionView>,
    book: Seq<PendingLimitOrderView>,
    claims: ClaimsView,
    ticket: TicketView,
    limit_price: DecimalView,
    held: PositionView,
    now: TimestampView,
)
    requires
        not_after(ticket.now, now),
        ledger.until(ticket.now),
        lookup(ledger.users, ticket.user.id) == Some(ticket.user),
        claims.sub == ticket.user.id,
        place_in_book(book, ticket.id) == book.len(),
        ledger.lists(ticket.user.id, listed),
        ledger.held(ticket.user.id, ticket.symbol) == Some(held),
        held.user_id == ticket.user.id,
        held.quantity.valid(),
        ticket.amount.valid(),
        ticket.amount.mantissa > 0,
        !held.quantity.less(ticket.amount),
        subtracts_exactly(held.quantity, ticket.amount),
        placed(limit(ticket, Side::Sell, limit_price), ledger, listed).1.lists(
            ticket.user.id,
            listed_then,
        ),
    ensures
        ({
            let user_id = ticket.user.id;
            let symbol = ticket.symbol;
            let (placement, between) = placed(
                limit(ticket, Side::Sell, limit_price),
                ledger,
                listed,
            );
            &&& placement matches Ok((order, Some(pending)))
            &&& pending.locked_qty == ticket.amount
            &&& units(quantity_in(between, user_id, symbol)) + units(pending.locked_qty) == units(
                held.quantity,
            )
            &&& ({
                let (r, after) = canceled(
                    cancellation(Ok(claims), order.id, book.push(pending)),
                    now,
                    between,
                    listed_then,
                );
                &&& r == Ok::<Seq<char>, AppErrorView>(order.id)
                &&& units(quantity_in(after, user_id, symbol)) == units(held.quantity)
                &&& between.held(user_id, symbol) is Some ==> after.held(
                    user_id,
                    symbol,
                )->0.avg_buy_price == held.avg_buy_price
                &&& balance_in(after, user_id) == balance_in(ledger, user_id)
                &&& lookup(after.orders, order.id) == Some(
                    with_status(order, OrderStatus::Canceled, now),
                )
            })
            &&& book_after_cancel(Ok(claims), order.id, book.push(pending)) == book
        }),
{
    law_writes_win(ticket.now);
    let user = ticket.user;
    let amount = ticket.amount;
    law_limit_sell(ledger, listed, ticket, limit_price);
    lemma_units_difference(held.quantity, amount);
    lemma_difference_undone(held.quantity, amount);
    lemma_difference_not_negative(held.quantity, amount);
    let rest = decimal_difference(held.quantity, amount)->0;
    lemma_zero_less(rest);
    let order = ticket.limit_order(Side::Sell, limit_price, OrderStatus::Pending, None);
    let pending = pending_of(order, decimal_zero(), amount);
    let position = position_after_sell(held, ticket.symbol, amount, ticket.now)->0;
    let written = with_balance(user, user.balance_usdc, ticket.now);
    let between = ledger.with_position(position).with_order(order).with_user(written);
    lemma_until_later(between, ticket.now, now);
    law_add_then_remove(book, pending, pending.order_id);
    law_cancel_sell(
        between,
        listed_then,
        book.push(pending),
        claims,
        pending,
        order,
        written,
        now,
    );
    lemma_units_sign(rest);
    lemma_units_sign(decimal_zero());
    lemma_units_sign(amount);
    lemma_units_sign(held.quantity);
    let now_held = between.held(user.id, ticket.symbol);
    let again = decimal_sum(held_quantity(now_held), amount);
    if rest.mantissa == 0 {
        assert(now_held is None);
        assert(again == Some(amount));
    } else {
        assert(again == decimal_sum(rest, amount));
        lemma_units_sign(again->0);
    }
}

/// A market buy whose amount is sold again while the live price has not changed is sold at the same
/// price and for the same total, and leaves the balance and the position as large as they were.
pub proof fn law_market_buy_then_sell(
    ledger: LedgerView,
    listed: Seq<PositionView>,
    listed_then: Seq<PositionView>,
    quotes: Map<Seq<char>, QuoteView>,
    quotes_then: Map<Seq<char>, QuoteView>,
    ticket: TicketView,
    price: DecimalView,
    total: DecimalView,
    sale: TicketView,
)
    requires
        ledger.until(ticket.now),
        not_after(ticket.now, sale.now),
        lookup(ledger.users, ticket.user.id) == Some(ticket.user),
        ledger.lists(ticket.user.id, listed),
        market_terms(quotes, ticket.symbol, ticket.amount) == Some((price, total)),
        lookup(quotes_then, ticket.symbol) == lookup(quotes, ticket.symbol),
        ticket.user.balance_usdc.valid(),
        total.valid(),
        ticket.amount.valid(),
        ticket.amount.mantissa > 0,
        quantity_in(ledger, ticket.user.id, ticket.symbol).valid(),
        !ticket.user.balance_usdc.less(total),
        subtracts_exactly(ticket.user.balance_usdc, total),
        adds_exactly(quantity_in(ledger, ticket.user.id, ticket.symbol), ticket.amount),
        position_after_buy(
            ledger.held(ticket.user.id, ticket.symbol),
            ticket.user.id,
            ticket.symbol,
            price,
            ticket.amount,
            ticket.now,
        ) is Some,
        sale.symbol == ticket.symbol,
        sale.amount == ticket.amount,
        lookup(
            placed(market(quotes, ticket, Side::Buy), ledger, listed).1.users,
            ticket.user.id,
        ) == Some(sale.user),
        placed(market(quotes, ticket, Side::Buy), ledger, listed).1.lists(
            ticket.user.id,
            listed_then,
        ),
    ensures
        ({
            let user_id = ticket.user.id;
            let symbol = ticket.symbol;
            let (bought, between) = placed(market(quotes, ticket, Side::Buy), ledger, listed);
            let (sold, after) = placed(
                market(quotes_then, sale, Side::Sell),
                between,
                listed_then,
            );
            &&& bought matches Ok((order, None)) && order.status == OrderStatus::Filled
                && order.price == price && order.total_usdc == total
            &&& units(balance_in(between, user_id)) + units(total) == units(
                balance_in(ledger, user_id),
            )
            &&& units(quantity_in(between, user_id, symbol)) == units(
                quantity_in(ledger, user_id, symbol),
            ) + units(ticket.amount)
            &&& sold matches Ok((order, None)) && order.status == OrderStatus::Filled
                && order.price == price && order.total_usdc == total
            &&& units(balance_in(after, user_id)) == units(balance_in(ledger, user_id))
            &&& units(quantity_in(after, user_id, symbol)) == units(
                quantity_in(ledger, user_id, symbol),
            )
        }),
{
    law_writes_win(ticket.now);
    let user = ticket.user;
    let amount = ticket.amount;
    law_market_buy(ledger, listed, quotes, ticket, price, total);
    let rest = decimal_difference(user.balance_usdc, total)->0;
    lemma_units_difference(user.balance_usdc, total);
    lemma_difference_undone(user.balance_usdc, total);
    let held = ledger.held(user.id, ticket.symbol);
    let before = held_quantity(held);
    lemma_sum_undone(before, amount);
    lemma_units_sum(before, amount);
    let quantity = decimal_sum(before, amount)->0;
    let position = position_after_buy(
        held,
        user.id,
        ticket.symbol,
        price,
        amount,
        ticket.now,
    )->0;
    assert(position.quantity == quantity);
    let done = ticket.market_order(Side::Buy, price, total, OrderStatus::Filled, None);
    let between = ledger.with_position(position).with_order(done).with_user(
        with_balance(user, rest, ticket.now),
    );
    lemma_units_sign(before);
    lemma_units_sign(amount);
    lemma_units_sign(quantity);
    assert(between.held(user.id, ticket.symbol) == Some(position));
    lemma_until_later(between, ticket.now, sale.now);
    lemma_units_less(quantity, amount);
    assert(sale.user == with_balance(user, rest, ticket.now));
    law_market_sell(between, listed_then, quotes_then, sale, price, total);
    let left = decimal_difference(quantity, amount)->0;
    lemma_units_sign(left);
    lemma_zero_less(left);
    lemma_units_sign(decimal_zero());
}

/// An order that was canceled cannot be canceled again: the second attempt is refused, and gives
/// nothing back a second time.
pub proof fn law_second_cancel_is_refused(
    ledger: LedgerView,
    listed: Seq<PositionView>,
    listed_then: Seq<PositionView>,
    book: Seq<PendingLimitOrderView>,
    claims: ClaimsView,
    pending: PendingLimitOrderView,
    order: OrderView,
    user: UserView,
    now: TimestampView,
    later: TimestampView,
)
    requires
        ledger.until(now),
        ids_unique(book),
        pending.user_id == claims.sub,
        place_in_book(book, pending.order_id) < book.len(),
        book[place_in_book(book, pending.order_id)] == pending,
        lookup(ledger.orders, pending.order_id) == Some(order),
        order.id == pending.order_id,
        order.user_id == claims.sub,
        lookup(ledger.users, claims.sub) == Some(user),
        user.id == claims.sub,
        ledger.lists(claims.sub, listed),
    ensures
        ({
            let session = Ok::<ClaimsView, AppErrorView>(claims);
            let (r, after) = canceled(
                cancellation(session, order.id, book),
                now,
                ledger,
                listed,
            );
            let rest = book_after_cancel(session, order.id, book);
            r is Ok ==> canceled(cancellation(session, order.id, rest), later, after, listed_then)
                == (
                Err::<Seq<char>, AppErrorView>(
                    AppErrorView::BadRequest("Order cannot be canceled: status is canceled"@),
                ),
                after,
            )
        }),
{
    let place = place_in_book(book, pending.order_id);
    let rest = book.remove(place);
    lemma_place(book, pending.order_id);
    lemma_place(rest, pending.order_id);
    let again = place_in_book(rest, pending.order_id);
    if again < rest.len() {
        let there = if again < place {
            again
        } else {
            again + 1
        };
        assert(book[there] == rest[again]);
    }
    match pending.side {
        Side::Buy => law_cancel_buy(ledger, listed, book, claims, pending, order, user, now),
        Side::Sell => law_cancel_sell(ledger, listed, book, claims, pending, order, user, now),
    }
    reveal_with_fuel(outcome, 3);
    reveal_strlit("Order cannot be canceled: status is ");
    reveal_strlit("canceled");
    reveal_strlit("Order cannot be canceled: status is canceled");
    assert("Order cannot be canceled: status is "@ + OrderStatus::Canceled.name()
        =~= "Order cannot be canceled: status is canceled"@);
}

/// A buy that fills at a price no higher than its limit costs no more than was locked for it.
pub proof fn law_fill_within_lock(
    limit_price: DecimalView,
    exec_price: DecimalView,
    amount: DecimalView,
    locked: DecimalView,
    total: DecimalView,
)
    requires
        limit_price.valid(),
        exec_price.valid(),
        amount.valid(),
        limit_price.mantissa > 0,
        amount.mantissa > 0,
        !limit_price.less(exec_price),
        product_is_exact(limit_price, amount),
        product_is_exact(exec_price, amount),
        limit_cost(limit_price, amount) == Some(locked),
        limit_cost(exec_price, amount) == Some(total),
    ensures
        units(total) <= units(locked),
        !locked.less(total),
{
    lemma_total_ordered(exec_price, limit_price, amount);
    lemma_units_less(locked, total);
}

/// A limit buy that is placed and then filled takes from the balance what it cost at the price at
/// which it was filled: what was locked beyond that comes back.
pub proof fn law_limit_buy_then_fill(
    ledger: LedgerView,
    listed: Seq<PositionView>,
    listed_then: Seq<PositionView>,
    ticket: TicketView,
    limit_price: DecimalView,
    exec_price: DecimalView,
    cost: DecimalView,
    total: DecimalView,
    now: TimestampView,
)
    requires
        not_after(ticket.now, now),
        ledger.until(ticket.now),
        lookup(ledger.users, ticket.user.id) == Some(ticket.user),
        limit_cost(limit_price, ticket.amount) == Some(cost),
        limit_cost(exec_price, ticket.amount) == Some(total),
        ticket.user.balance_usdc.valid(),
        cost.valid(),
        total.valid(),
        !ticket.user.balance_usdc.less(cost),
        !cost.less(total),
        subtracts_exactly(ticket.user.balance_usdc, cost),
        subtracts_exactly(cost, total),
        adds_exactly(
            decimal_difference(ticket.user.balance_usdc, cost)->0,
            decimal_difference(cost, total)->0,
        ),
        ledger.lists(ticket.user.id, listed_then),
        position_after_buy(
            ledger.held(ticket.user.id, ticket.symbol),
            ticket.user.id,
            ticket.symbol,
            exec_price,
            ticket.amount,
            now,
        ) is Some,
    ensures
        ({
            let (placement, between) = placed(
                limit(ticket, Side::Buy, limit_price),
                ledger,
                listed,
            );
            &&& placement matches Ok((order, Some(pending)))
            &&& ({
                let (r, after) = filled(pending, exec_price, now, between, listed_then);
                &&& r is Ok
                &&& units(balance_in(after, ticket.user.id)) == units(
                    balance_in(ledger, ticket.user.id),
                ) - units(total)
                &&& after.orders[order.id].status == OrderStatus::Filled
                &&& after.orders[order.id].price == exec_price
                &&& after.orders[order.id].total_usdc == total
            })
        }),
{
    law_writes_win(ticket.now);
    let user = ticket.user;
    law_limit_buy(ledger, listed, ticket, limit_price, cost);
    lemma_units_difference(user.balance_usdc, cost);
    lemma_units_difference(cost, total);
    lemma_difference_not_negative(cost, total);
    let rest = decimal_difference(user.balance_usdc, cost)->0;
    let over = decimal_difference(cost, total)->0;
    lemma_zero_less(over);
    lemma_units_sign(over);
    lemma_units_sum(rest, over);
    let order = ticket.limit_order(Side::Buy, limit_price, OrderStatus::Pending, None);
    let pending = pending_of(order, cost, decimal_zero());
    let between = ledger.with_order(order).with_user(with_balance(user, rest, ticket.now));
    lemma_until_later(between, ticket.now, now);
    assert(between.lists(user.id, listed_then)) by {
        assert forall|symbol: Seq<char>| between.held(user.id, symbol) == #[trigger] ledger.held(
            user.id,
            symbol,
        ) by {}
        assert forall|symbol: Seq<char>| (#[trigger] between.held(user.id, symbol))
            is Some implies exists|i: int|
            0 <= i < listed_then.len() && (#[trigger] listed_then[i]).symbol == symbol by {
            assert(ledger.held(user.id, symbol) is Some);
        }
    }
    let position = position_after_buy(
        ledger.held(user.id, ticket.symbol),
        user.id,
        ticket.symbol,
        exec_price,
        ticket.amount,
        now,
    )->0;
    assert(between.held(user.id, ticket.symbol) == ledger.held(user.id, ticket.symbol));
    law_fill_buy(
        between,
        listed_then,
        pending,
        exec_price,
        total,
        now,
        position,
        over,
        with_balance(user, rest, ticket.now),
    );
}

/// Whether a pending order has a positive amount, and nothing negative is locked for it.
pub open spec fn sound_pending(pending: PendingLimitOrderView) -> bool {
    pending.amount.mantissa > 0 && pending.locked_usdc.mantissa >= 0 && pending.locked_qty.mantissa
        >= 0
}

pub open spec fn sound_entry(pending: Option<PendingLimitOrderView>) -> bool {
    pending matches Some(pending) ==> sound_pending(pending)
}

/// Whether no position in a list is negative.
pub open spec fn sound_positions(positions: Seq<PositionView>) -> bool {
    forall|i: int| 0 <= i < positions.len() ==> (#[trigger] positions[i]).quantity.mantissa >= 0
}

/// Whether no live price is negative.
pub open spec fn sound_quotes(quotes: Map<Seq<char>, QuoteView>) -> bool {
    forall|symbol: Seq<char>|
        (#[trigger] lookup(quotes, symbol)) matches Some(quote) ==> (quote.price matches Some(price)
            ==> price.mantissa >= 0)
}

/// Whether a request writes no negative balance and no negative position.
pub open spec fn sound_request(request: StoreRequestView) -> bool {
    match request {
        StoreRequestView::InsertUser(user) => user.balance_usdc.mantissa >= 0,
        StoreRequestView::UpsertPosition(position) => position.quantity.mantissa >= 0,
        _ => true,
    }
}

/// Whether a reply holds no negative balance and no negative position.
pub open spec fn sound_reply(reply: StoreReplyView) -> bool {
    match reply {
        StoreReplyView::User(Some(user)) => user.balance_usdc.mantissa >= 0,
        StoreReplyView::Positions(positions) => sound_positions(positions),
        _ => true,
    }
}

pub open spec fn sound_ticket(ticket: TicketView) -> bool {
    ticket.user.balance_usdc.mantissa >= 0 && ticket.amount.mantissa > 0
}

/// Whether an order on its way will write no negative balance and no negative position.
pub open spec fn sound_placing(state: PlacingView) -> bool {
    match state {
        PlacingView::MarketBuy { ticket, price, total_usdc } => sound_ticket(ticket),
        PlacingView::MarketSell { ticket, price, total_usdc } => sound_ticket(ticket)
            && total_usdc.mantissa >= 0,
        PlacingView::LimitSell { ticket, .. } => sound_ticket(ticket),
        PlacingView::WritingPosition { user, pending, .. } => user.balance_usdc.mantissa >= 0
            && sound_entry(pending),
        PlacingView::WritingOrder { then_user, pending, .. } => (then_user matches Some(user)
            ==> user.balance_usdc.mantissa >= 0) && sound_entry(pending),
        PlacingView::WritingUser { pending, .. } => sound_entry(pending),
    }
}

pub open spec fn sound_placement(progress: ProgressView<PlacingView, PlacedView>) -> bool {
    match progress {
        ProgressView::Ask(request, state) => sound_request(request) && sound_placing(state),
        ProgressView::Finished(Ok((_, pending))) => sound_entry(pending),
        ProgressView::Finished(Err(_)) => true,
    }
}

proof fn lemma_held_not_negative(positions: Seq<PositionView>, symbol: Seq<char>)
    requires
        sound_positions(positions),
    ensures
        held_quantity(find_position(positions, symbol)).mantissa >= 0,
{
    lemma_find(positions, symbol);
}

proof fn lemma_max_not_negative(d: DecimalView)
    ensures
        decimal_max(d, decimal_zero()).mantissa >= 0,
{
    lemma_zero_less(d);
}

/// An order that is begun with a balance that is not negative, at prices that are not, makes
/// neither the balance nor a position negative.
pub proof fn law_placement_stays_solvent(
    symbols: Seq<Seq<char>>,
    quotes: Map<Seq<char>, QuoteView>,
    user: UserView,
    raw_symbol: Seq<char>,
    side: Side,
    amount: DecimalView,
    order_type: OrderType,
    limit_price: Option<DecimalView>,
    id: Seq<char>,
    now: TimestampView,
)
    requires
        user.balance_usdc.mantissa >= 0,
        sound_quotes(quotes),
    ensures
        sound_placement(
            placement(
                symbols,
                quotes,
                user,
                raw_symbol,
                side,
                amount,
                order_type,
                limit_price,
                id,
                now,
            ),
        ),
{
    match normalized_symbol(symbols, raw_symbol) {
        None => {},
        Some(symbol) => if amount.mantissa > 0 {
            match lookup(quotes, symbol) {
                Some(quote) => match quote.price {
                    Some(price) => {
                        lemma_product_not_negative(rounded(price), amount);
                        match decimal_product(rounded(price), amount) {
                            Some(product) => if !user.balance_usdc.less(rounded(product)) {
                                lemma_difference_not_negative(user.balance_usdc, rounded(product));
                            },
                            None => {},
                        }
                    },
                    None => {},
                },
                None => {},
            }
            match limit_price {
                Some(price) => if price.mantissa > 0 {
                    lemma_product_not_negative(price, amount);
                    match decimal_product(price, amount) {
                        Some(product) => if !user.balance_usdc.less(rounded(product)) {
                            lemma_difference_not_negative(user.balance_usdc, rounded(product));
                        },
                        None => {},
                    }
                },
                None => {},
            }
        },
    }
}

/// An order that goes on from a reply that holds nothing negative makes neither the balance nor a
/// position negative.
pub proof fn law_placing_stays_solvent(state: PlacingView, reply: StoreReplyView)
    requires
        sound_placing(state),
        sound_reply(reply),
        state.expects(reply),
    ensures
        sound_placement(state.next(reply)),
{
    match (state, reply) {
        (
            PlacingView::MarketBuy { ticket, price, total_usdc },
            StoreReplyView::Positions(positions),
        ) => {
            lemma_held_not_negative(positions, ticket.symbol);
            match find_position(positions, ticket.symbol) {
                Some(p) => lemma_sum_not_negative(p.quantity, ticket.amount),
                None => {},
            }
        },
        (
            PlacingView::MarketSell { ticket, price, total_usdc },
            StoreReplyView::Positions(positions),
        ) => {
            lemma_sum_not_negative(ticket.user.balance_usdc, total_usdc);
            let held = find_position(positions, ticket.symbol);
            match decimal_difference(held->0.quantity, ticket.amount) {
                Some(rest) => lemma_max_not_negative(rest),
                None => {},
            }
        },
        (PlacingView::LimitSell { ticket, .. }, StoreReplyView::Positions(positions)) => {
            let held = find_position(positions, ticket.symbol);
            match decimal_difference(held->0.quantity, ticket.amount) {
                Some(rest) => lemma_max_not_negative(rest),
                None => {},
            }
        },
        _ => {},
    }
}

/// Whether a fill on its way will write no negative balance and no negative position.
pub open spec fn sound_filling(state: FillingView) -> bool {
    match state {
        FillingView::WritingOrder(fill) => sound_pending(fill.pending) && fill.total_usdc.mantissa
            >= 0,
        FillingView::ReadingPositions(fill) => sound_pending(fill.pending),
        FillingView::WritingPosition(fill) => true,
        FillingView::ReadingRefunded(amount, _) => amount.mantissa >= 0,
        FillingView::ReadingSeller(amount, _) => amount.mantissa >= 0,
        FillingView::WritingUser => true,
    }
}

pub open spec fn sound_fill(progress: ProgressView<FillingView, ()>) -> bool {
    progress matches ProgressView::Ask(request, state) ==> sound_request(request) && sound_filling(
        state,
    )
}

/// No fill makes a balance or a position negative: neither when it is begun, at a price that is
/// not negative, nor when it goes on from a reply that holds nothing negative.
pub proof fn law_fill_stays_solvent(
    pending: PendingLimitOrderView,
    exec_price: DecimalView,
    now: TimestampView,
    state: FillingView,
    reply: StoreReplyView,
)
    ensures
        sound_pending(pending) && exec_price.mantissa >= 0 ==> sound_fill(
            filling(pending, exec_price, now),
        ),
        sound_filling(state) && sound_reply(reply) && state.expects(reply) ==> sound_fill(
            state.next(reply),
        ),
{
    if sound_pending(pending) && exec_price.mantissa >= 0 {
        lemma_product_not_negative(exec_price, pending.amount);
    }
    if sound_filling(state) && sound_reply(reply) && state.expects(reply) {
        match (state, reply) {
            (FillingView::ReadingPositions(fill), StoreReplyView::Positions(positions)) => {
                lemma_held_not_negative(positions, fill.pending.symbol);
                match find_position(positions, fill.pending.symbol) {
                    Some(p) => lemma_sum_not_negative(p.quantity, fill.pending.amount),
                    None => {},
                }
            },
            (FillingView::ReadingRefunded(amount, _), StoreReplyView::User(Some(user))) => {
                lemma_sum_not_negative(user.balance_usdc, amount);
            },
            (FillingView::ReadingSeller(amount, _), StoreReplyView::User(Some(user))) => {
                lemma_sum_not_negative(user.balance_usdc, amount);
            },
            _ => {},
        }
    }
}

/// Whether a cancellation on its way will write no negative balance and no negative position.
pub open spec fn sound_canceling(state: CancelingView) -> bool {
    match state {
        CancelingView::ReadingOrder { pending } => sound_pending(pending),
        CancelingView::ReadingUser { pending, .. } => sound_pending(pending),
        CancelingView::ReadingPositions { pending, .. } => sound_pending(pending),
        _ => true,
    }
}

pub open spec fn sound_cancellation(progress: ProgressView<CancelingView, Seq<char>>) -> bool {
    progress matches ProgressView::Ask(request, state) ==> sound_request(request)
        && sound_canceling(state)
}

/// Whether every order in the book has a positive amount, and nothing negative is locked.
pub open spec fn sound_book(book: Seq<PendingLimitOrderView>) -> bool {
    forall|i: int| 0 <= i < book.len() ==> sound_pending(#[trigger] book[i])
}

/// No cancellation makes a balance or a position negative, neither when it is begun nor when it
/// goes on from a reply that holds nothing negative; and what it leaves in the book is sound.
pub proof fn law_cancel_stays_solvent(
    session: Result<ClaimsView, AppErrorView>,
    order_id: Seq<char>,
    book: Seq<PendingLimitOrderView>,
    state: CancelingView,
    reply: StoreReplyView,
    now: TimestampView,
)
    ensures
        sound_book(book) ==> sound_cancellation(cancellation(session, order_id, book))
            && sound_book(book_after_cancel(session, order_id, book)),
        sound_canceling(state) && sound_reply(reply) && state.expects(reply) ==> sound_cancellation(
            state.next(reply, now),
        ),
{
    if sound_book(book) {
        lemma_place(book, order_id);
    }
    if sound_canceling(state) && sound_reply(reply) && state.expects(reply) {
        match (state, reply) {
            (CancelingView::ReadingUser { pending, .. }, StoreReplyView::User(Some(user))) => {
                lemma_sum_not_negative(user.balance_usdc, pending.locked_usdc);
            },
            (
                CancelingView::ReadingPositions { pending, .. },
                StoreReplyView::Positions(positions),
            ) => {
                lemma_held_not_negative(positions, pending.symbol);
                lemma_sum_not_negative(
                    held_quantity(find_position(positions, pending.symbol)),
                    pending.locked_qty,
                );
            },
            _ => {},
        }
    }
}

/// The book stays sound: what draining leaves in it is sound, and so is what it takes out; an
/// order that was placed soundly, or whose fill failed, goes in soundly.
pub proof fn law_book_stays_sound(
    book: Seq<PendingLimitOrderView>,
    quotes: Map<Seq<char>, QuoteView>,
    progress: ProgressView<PlacingView, PlacedView>,
    pending: PendingLimitOrderView,
)
    requires
        sound_book(book),
        sound_placement(progress),
        sound_pending(pending),
    ensures
        sound_book(kept_orders(book, quotes)),
        sound_book(without_prices(fillable_orders(book, quotes))),
        sound_book(booked(book, progress)),
        sound_book(book.push(pending)),
    decreases book.len(),
{
    if book.len() > 0 {
        let rest = book.drop_last();
        assert forall|i: int| 0 <= i < rest.len() implies sound_pending(#[trigger] rest[i]) by {
            assert(rest[i] == book[i]);
        }
        law_book_stays_sound(rest, quotes, progress, pending);
        let last = book.last();
        let drained = fillable_orders(rest, quotes);
        match fill_price(quotes, last) {
            Some(price) => {
                assert(without_prices(drained.push((last, price))) =~= without_prices(drained).push(
                    last,
                ));
            },
            None => {},
        }
    }
}

} // verus!
