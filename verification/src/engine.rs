//! Order execution: market orders at the live price, limit orders that lock funds, and what they
//! do to balances and positions.

use vstd::prelude::*;

use crate::decimal::{
    decimal_difference, decimal_max, decimal_product, decimal_quotient, decimal_sum, decimal_text,
    decimal_zero, lemma_zero_less, rounded, Decimal, DecimalView,
};
use crate::error::{AppError, AppErrorView};
use crate::models::{
    is_random_uuid, new_id, Order, OrderStatus, OrderType, OrderView, Position, PositionView, Side,
    User, UserView,
};
use crate::order_book::{new_pending, pending_of, PendingLimitOrder, PendingLimitOrderView};
use crate::store::{
    overflowed, store_failed, Progress, ProgressView, StoreReply, StoreReplyView, StoreRequest,
    StoreRequestView,
};
use crate::text::{
    ascii_upper, is_ascii_text, join2, replace_char, replaced, same_text, texts, to_uppercase,
    uppercased,
};
use crate::timestamp::{is_clock_reading, Timestamp, TimestampView};
use crate::ws_client::{lookup, quote_of, quotes_in, PriceCache, QuoteView};

verus! {

/// The first position in a symbol.
pub open spec fn find_position(positions: Seq<PositionView>, symbol: Seq<char>) -> Option<
    PositionView,
>
    decreases positions.len(),
{
    if positions.len() == 0 {
        None
    } else if positions[0].symbol == symbol {
        Some(positions[0])
    } else {
        find_position(positions.drop_first(), symbol)
    }
}

pub fn position_in<'a>(positions: &'a Vec<Position>, symbol: &str) -> (r: Option<&'a Position>)
    ensures
        match r {
            Some(position) => find_position(positions.deep_view(), symbol@) == Some(position@),
            None => find_position(positions.deep_view(), symbol@) is None,
        },
{
    let ghost all = positions.deep_view();
    let mut i: usize = 0;
    assert(all.skip(0) =~= all);
    while i < positions.len()
        invariant
            i <= positions@.len(),
            all == positions.deep_view(),
            find_position(all, symbol@) == find_position(all.skip(i as int), symbol@),
        decreases positions@.len() - i,
    {
        assert(all.skip(i as int)[0] == positions@[i as int]@);
        assert(all.skip(i as int).drop_first() =~= all.skip(i + 1));
        if same_text(&positions[i].symbol, symbol) {
            return Some(&positions[i]);
        }
        i = i + 1;
    }
    None
}

/// The quantity that a user holds of a symbol.
pub open spec fn held_quantity(position: Option<PositionView>) -> DecimalView {
    match position {
        Some(p) => p.quantity,
        None => decimal_zero(),
    }
}

/// A position after a purchase: the quantity grows by the amount, and the average price is the
/// total cost over the total quantity. `None` where a number leaves its range.
pub open spec fn position_after_buy(
    existing: Option<PositionView>,
    user_id: Seq<char>,
    symbol: Seq<char>,
    price: DecimalView,
    amount: DecimalView,
    now: TimestampView,
) -> Option<PositionView> {
    match existing {
        None => Some(
            PositionView {
                user_id,
                symbol,
                quantity: amount,
                avg_buy_price: price,
                updated_at: now,
            },
        ),
        Some(p) => match (
            decimal_product(p.avg_buy_price, p.quantity),
            decimal_product(price, amount),
            decimal_sum(p.quantity, amount),
        ) {
            (Some(held_cost), Some(cost), Some(quantity)) => match decimal_sum(held_cost, cost) {
                Some(total_cost) => match decimal_quotient(total_cost, quantity) {
                    Some(average) => Some(
                        PositionView {
                            user_id,
                            symbol,
                            quantity,
                            avg_buy_price: rounded(average),
                            updated_at: now,
                        },
                    ),
                    None => None,
                },
                None => None,
            },
            _ => None,
        },
    }
}

/// The position to write after a purchase.
pub fn update_position_buy(
    existing: Option<&Position>,
    user_id: &str,
    symbol: &str,
    price: Decimal,
    amount: Decimal,
    now: Timestamp,
) -> (r: Option<Position>)
    ensures
        r.deep_view() == position_after_buy(
            match existing {
                Some(p) => Some(p@),
                None => None,
            },
            user_id@,
            symbol@,
            price@,
            amount@,
            now@,
        ),
{
    match existing {
        None => Some(
            Position {
                user_id: user_id.to_owned(),
                symbol: symbol.to_owned(),
                quantity: amount,
                avg_buy_price: price,
                updated_at: now,
            },
        ),
        Some(p) => {
            let held_cost = p.avg_buy_price.times(&p.quantity)?;
            let cost = price.times(&amount)?;
            let total_cost = held_cost.plus(&cost)?;
            let quantity = p.quantity.plus(&amount)?;
            let average = total_cost.divided_by(&quantity)?;
            Some(
                Position {
                    user_id: user_id.to_owned(),
                    symbol: symbol.to_owned(),
                    quantity,
                    avg_buy_price: average.rounded(),
                    updated_at: now,
                },
            )
        },
    }
}

/// A position after a sale: the quantity shrinks by the amount, but not below zero, and the
/// average price stays while anything is held. `None` where a number leaves its range.
pub open spec fn position_after_sell(
    p: PositionView,
    symbol: Seq<char>,
    amount: DecimalView,
    now: TimestampView,
) -> Option<PositionView> {
    match decimal_difference(p.quantity, amount) {
        Some(rest) => {
            let quantity = decimal_max(rest, decimal_zero());
            Some(
                PositionView {
                    user_id: p.user_id,
                    symbol,
                    quantity,
                    avg_buy_price: if quantity.mantissa == 0 {
                        decimal_zero()
                    } else {
                        p.avg_buy_price
                    },
                    updated_at: now,
                },
            )
        },
        None => None,
    }
}

/// The position to write after a sale.
pub fn update_position_sell(p: &Position, symbol: &str, amount: Decimal, now: Timestamp) -> (r:
    Option<Position>)
    ensures
        r.deep_view() == position_after_sell(p@, symbol@, amount@, now@),
{
    let rest = p.quantity.minus(&amount)?;
    let quantity = rest.max(Decimal::zero());
    let avg_buy_price = if quantity.is_zero() { Decimal::zero() } else { p.avg_buy_price };
    Some(
        Position {
            user_id: p.user_id.clone(),
            symbol: symbol.to_owned(),
            quantity,
            avg_buy_price,
            updated_at: now,
        },
    )
}

/// Who wants to trade what, under which order id, and when.
#[derive(Debug)]
pub struct Ticket {
    pub id: String,
    pub user: User,
    pub symbol: String,
    pub amount: Decimal,
    pub now: Timestamp,
}

#[verifier::ext_equal]
pub struct TicketView {
    pub id: Seq<char>,
    pub user: UserView,
    pub symbol: Seq<char>,
    pub amount: DecimalView,
    pub now: TimestampView,
}

impl View for Ticket {
    type V = TicketView;

    open spec fn view(&self) -> TicketView {
        TicketView {
            id: self.id@,
            user: self.user@,
            symbol: self.symbol@,
            amount: self.amount@,
            now: self.now@,
        }
    }
}

impl DeepView for Ticket {
    type V = TicketView;

    open spec fn deep_view(&self) -> TicketView {
        self@
    }
}

impl TicketView {
    /// A market order at a price.
    pub open spec fn market_order(
        self,
        side: Side,
        price: DecimalView,
        total_usdc: DecimalView,
        status: OrderStatus,
        reject_reason: Option<Seq<char>>,
    ) -> OrderView {
        OrderView {
            id: self.id,
            user_id: self.user.id,
            symbol: self.symbol,
            side,
            order_type: OrderType::Market,
            limit_price: None,
            price,
            amount: self.amount,
            total_usdc,
            status,
            reject_reason,
            created_at: self.now,
            updated_at: self.now,
        }
    }

    /// A limit order that is not filled.
    pub open spec fn limit_order(
        self,
        side: Side,
        limit_price: DecimalView,
        status: OrderStatus,
        reject_reason: Option<Seq<char>>,
    ) -> OrderView {
        OrderView {
            id: self.id,
            user_id: self.user.id,
            symbol: self.symbol,
            side,
            order_type: OrderType::Limit,
            limit_price: Some(limit_price),
            price: decimal_zero(),
            amount: self.amount,
            total_usdc: decimal_zero(),
            status,
            reject_reason,
            created_at: self.now,
            updated_at: self.now,
        }
    }
}

impl Ticket {
    fn market_order(
        &self,
        side: Side,
        price: Decimal,
        total_usdc: Decimal,
        status: OrderStatus,
        reject_reason: Option<String>,
    ) -> (r: Order)
        ensures
            r@ == self@.market_order(
                side,
                price@,
                total_usdc@,
                status,
                reject_reason.deep_view(),
            ),
    {
        Order {
            id: self.id.clone(),
            user_id: self.user.id.clone(),
            symbol: self.symbol.clone(),
            side,
            order_type: OrderType::Market,
            limit_price: None,
            price,
            amount: self.amount,
            total_usdc,
            status,
            reject_reason,
            created_at: self.now,
            updated_at: self.now,
        }
    }

    fn limit_order(
        &self,
        side: Side,
        limit_price: Decimal,
        status: OrderStatus,
        reject_reason: Option<String>,
    ) -> (r: Order)
        ensures
            r@ == self@.limit_order(side, limit_price@, status, reject_reason.deep_view()),
    {
        Order {
            id: self.id.clone(),
            user_id: self.user.id.clone(),
            symbol: self.symbol.clone(),
            side,
            order_type: OrderType::Limit,
            limit_price: Some(limit_price),
            price: Decimal::zero(),
            amount: self.amount,
            total_usdc: Decimal::zero(),
            status,
            reject_reason,
            created_at: self.now,
            updated_at: self.now,
        }
    }
}

/// Why an order is rejected for want of USDC.
pub open spec fn balance_too_low(need: DecimalView, have: DecimalView) -> Seq<char> {
    "Insufficient balance: need "@ + decimal_text(need) + " USDC, have "@ + decimal_text(have)
}

fn balance_too_low_text(need: &Decimal, have: &Decimal) -> (r: String)
    ensures
        r@ == balance_too_low(need@, have@),
{
    let mut out = "Insufficient balance: need ".to_owned();
    out.append(&need.to_text());
    out.append(" USDC, have ");
    out.append(&have.to_text());
    out
}

/// Why an order is rejected for want of the asset.
pub open spec fn position_too_small(
    need: DecimalView,
    have: DecimalView,
    symbol: Seq<char>,
) -> Seq<char> {
    "Insufficient position: need "@ + decimal_text(need) + ", have "@ + decimal_text(have) + " "@
        + symbol
}

fn position_too_small_text(need: &Decimal, have: &Decimal, symbol: &str) -> (r: String)
    ensures
        r@ == position_too_small(need@, have@, symbol@),
{
    let mut out = "Insufficient position: need ".to_owned();
    out.append(&need.to_text());
    out.append(", have ");
    out.append(&have.to_text());
    out.append(" ");
    out.append(symbol);
    out
}

/// An order on its way: what is known, and what the store was asked last.
#[derive(Debug)]
pub enum Placing {
    /// A market purchase that is paid for, waiting for the user's positions.
    MarketBuy { ticket: Ticket, price: Decimal, total_usdc: Decimal },
    /// A market sale, waiting for the user's positions.
    MarketSell { ticket: Ticket, price: Decimal, total_usdc: Decimal },
    /// A limit sale, waiting for the user's positions.
    LimitSell { ticket: Ticket, limit_price: Decimal },
    /// The new position is being written; the order and the user are still to be.
    WritingPosition { order: Order, user: User, pending: Option<PendingLimitOrder> },
    /// The order is being written; the user, if there is one here, is still to be.
    WritingOrder { order: Order, then_user: Option<User>, pending: Option<PendingLimitOrder> },
    /// The user is being written.
    WritingUser { order: Order, pending: Option<PendingLimitOrder> },
}

#[verifier::ext_equal]
pub enum PlacingView {
    MarketBuy { ticket: TicketView, price: DecimalView, total_usdc: DecimalView },
    MarketSell { ticket: TicketView, price: DecimalView, total_usdc: DecimalView },
    LimitSell { ticket: TicketView, limit_price: DecimalView },
    WritingPosition {
        order: OrderView,
        user: UserView,
        pending: Option<PendingLimitOrderView>,
    },
    WritingOrder {
        order: OrderView,
        then_user: Option<UserView>,
        pending: Option<PendingLimitOrderView>,
    },
    WritingUser { order: OrderView, pending: Option<PendingLimitOrderView> },
}

impl View for Placing {
    type V = PlacingView;

    open spec fn view(&self) -> PlacingView {
        match self {
            Placing::MarketBuy { ticket, price, total_usdc } => PlacingView::MarketBuy {
                ticket: ticket@,
                price: price@,
                total_usdc: total_usdc@,
            },
            Placing::MarketSell { ticket, price, total_usdc } => PlacingView::MarketSell {
                ticket: ticket@,
                price: price@,
                total_usdc: total_usdc@,
            },
            Placing::LimitSell { ticket, limit_price } => PlacingView::LimitSell {
                ticket: ticket@,
                limit_price: limit_price@,
            },
            Placing::WritingPosition { order, user, pending } => PlacingView::WritingPosition {
                order: order@,
                user: user@,
                pending: pending.deep_view(),
            },
            Placing::WritingOrder { order, then_user, pending } => PlacingView::WritingOrder {
                order: order@,
                then_user: then_user.deep_view(),
                pending: pending.deep_view(),
            },
            Placing::WritingUser { order, pending } => PlacingView::WritingUser {
                order: order@,
                pending: pending.deep_view(),
            },
        }
    }
}

/// What placing an order comes to: the order, and its entry for the book where it is pending.
pub type Placed = (Order, Option<PendingLimitOrder>);

pub type PlacedView = (OrderView, Option<PendingLimitOrderView>);

/// The order is written next, and the user after it where there is one.
pub open spec fn recording(
    order: OrderView,
    user: Option<UserView>,
    pending: Option<PendingLimitOrderView>,
) -> ProgressView<PlacingView, PlacedView> {
    ProgressView::Ask(
        StoreRequestView::InsertOrder(order),
        PlacingView::WritingOrder { order, then_user: user, pending },
    )
}

/// The position is written next, and the order and the user after it.
pub open spec fn recording_position(
    position: PositionView,
    order: OrderView,
    user: UserView,
    pending: Option<PendingLimitOrderView>,
) -> ProgressView<PlacingView, PlacedView> {
    ProgressView::Ask(
        StoreRequestView::UpsertPosition(position),
        PlacingView::WritingPosition { order, user, pending },
    )
}

/// A user with another balance, in a version of its own: the later version counts.
pub open spec fn with_balance(
    user: UserView,
    balance_usdc: DecimalView,
    now: TimestampView,
) -> UserView {
    UserView { balance_usdc, created_at: now, ..user }
}

fn record(order: Order, user: Option<User>, pending: Option<PendingLimitOrder>) -> (r: Progress<
    Placing,
    Placed,
>)
    ensures
        r@ == recording(order@, user.deep_view(), pending.deep_view()),
{
    Progress::Ask(
        StoreRequest::InsertOrder(order.clone()),
        Placing::WritingOrder { order, then_user: user, pending },
    )
}

/// A purchase at the market goes on: the bought amount joins the position.
pub open spec fn market_buy(
    ticket: TicketView,
    price: DecimalView,
    total_usdc: DecimalView,
    positions: Seq<PositionView>,
) -> ProgressView<PlacingView, PlacedView> {
    match position_after_buy(
        find_position(positions, ticket.symbol),
        ticket.user.id,
        ticket.symbol,
        price,
        ticket.amount,
        ticket.now,
    ) {
        Some(position) => recording_position(
            position,
            ticket.market_order(Side::Buy, price, total_usdc, OrderStatus::Filled, None),
            ticket.user,
            None,
        ),
        None => overflowed(),
    }
}

fn fill_market_buy(
    ticket: Ticket,
    price: Decimal,
    total_usdc: Decimal,
    positions: &Vec<Position>,
) -> (r: Progress<Placing, Placed>)
    ensures
        r@ == market_buy(ticket@, price@, total_usdc@, positions.deep_view()),
{
    let existing = position_in(positions, &ticket.symbol);
    let position = match update_position_buy(
        existing,
        &ticket.user.id,
        &ticket.symbol,
        price,
        ticket.amount,
        ticket.now,
    ) {
        Some(position) => position,
        None => return Progress::Finished(Err(AppError::Overflow)),
    };
    let order = ticket.market_order(Side::Buy, price, total_usdc, OrderStatus::Filled, None);
    Progress::Ask(
        StoreRequest::UpsertPosition(position),
        Placing::WritingPosition { order, user: ticket.user, pending: None },
    )
}

/// A sale at the market goes on: with too small a position it is rejected, and the user is
/// written as it was; else the proceeds join the balance and the position shrinks.
pub open spec fn market_sell(
    ticket: TicketView,
    price: DecimalView,
    total_usdc: DecimalView,
    positions: Seq<PositionView>,
) -> ProgressView<PlacingView, PlacedView> {
    let existing = find_position(positions, ticket.symbol);
    let held = held_quantity(existing);
    if held.less(ticket.amount) {
        recording(
            ticket.market_order(
                Side::Sell,
                price,
                total_usdc,
                OrderStatus::Rejected,
                Some(position_too_small(ticket.amount, held, ticket.symbol)),
            ),
            Some(ticket.user),
            None,
        )
    } else {
        match (
            decimal_sum(ticket.user.balance_usdc, total_usdc),
            position_after_sell(existing->Some_0, ticket.symbol, ticket.amount, ticket.now),
        ) {
            (Some(balance), Some(position)) => recording_position(
                position,
                ticket.market_order(Side::Sell, price, total_usdc, OrderStatus::Filled, None),
                with_balance(ticket.user, balance, ticket.now),
                None,
            ),
            _ => overflowed(),
        }
    }
}

fn fill_market_sell(
    ticket: Ticket,
    price: Decimal,
    total_usdc: Decimal,
    positions: &Vec<Position>,
) -> (r: Progress<Placing, Placed>)
    requires
        ticket@.amount.mantissa > 0,
    ensures
        r@ == market_sell(ticket@, price@, total_usdc@, positions.deep_view()),
{
    let existing = position_in(positions, &ticket.symbol);
    let held = match existing {
        Some(p) => p.quantity,
        None => Decimal::zero(),
    };
    proof {
        lemma_zero_less(ticket@.amount);
    }
    if held.less_than(&ticket.amount) {
        let reason = position_too_small_text(&ticket.amount, &held, &ticket.symbol);
        let order = ticket.market_order(
            Side::Sell,
            price,
            total_usdc,
            OrderStatus::Rejected,
            Some(reason),
        );
        return record(order, Some(ticket.user), None);
    }
    let position = match existing {
        Some(p) => update_position_sell(p, &ticket.symbol, ticket.amount, ticket.now),
        None => None,
    };
    match (ticket.user.balance_usdc.plus(&total_usdc), position) {
        (Some(balance), Some(position)) => {
            let order = ticket.market_order(
                Side::Sell,
                price,
                total_usdc,
                OrderStatus::Filled,
                None,
            );
            let user = User { balance_usdc: balance, created_at: ticket.now, ..ticket.user };
            Progress::Ask(
                StoreRequest::UpsertPosition(position),
                Placing::WritingPosition { order, user, pending: None },
            )
        },
        _ => Progress::Finished(Err(AppError::Overflow)),
    }
}

/// A limit sale goes on: with too small a position it is rejected, and nothing but the order is
/// written; else the amount leaves the position and is locked.
pub open spec fn limit_sell(
    ticket: TicketView,
    limit_price: DecimalView,
    positions: Seq<PositionView>,
) -> ProgressView<PlacingView, PlacedView> {
    let existing = find_position(positions, ticket.symbol);
    let held = held_quantity(existing);
    let order = ticket.limit_order(Side::Sell, limit_price, OrderStatus::Pending, None);
    if held.less(ticket.amount) {
        recording(
            ticket.limit_order(
                Side::Sell,
                limit_price,
                OrderStatus::Rejected,
                Some(position_too_small(ticket.amount, held, ticket.symbol)),
            ),
            None,
            None,
        )
    } else {
        match position_after_sell(existing->Some_0, ticket.symbol, ticket.amount, ticket.now) {
            Some(position) => recording_position(
                position,
                order,
                with_balance(ticket.user, ticket.user.balance_usdc, ticket.now),
                Some(pending_of(order, decimal_zero(), ticket.amount)),
            ),
            None => overflowed(),
        }
    }
}

fn lock_position(ticket: Ticket, limit_price: Decimal, positions: &Vec<Position>) -> (r: Progress<
    Placing,
    Placed,
>)
    requires
        ticket@.amount.mantissa > 0,
    ensures
        r@ == limit_sell(ticket@, limit_price@, positions.deep_view()),
{
    let existing = position_in(positions, &ticket.symbol);
    let held = match existing {
        Some(p) => p.quantity,
        None => Decimal::zero(),
    };
    proof {
        lemma_zero_less(ticket@.amount);
    }
    if held.less_than(&ticket.amount) {
        let reason = position_too_small_text(&ticket.amount, &held, &ticket.symbol);
        let order = ticket.limit_order(
            Side::Sell,
            limit_price,
            OrderStatus::Rejected,
            Some(reason),
        );
        return record(order, None, None);
    }
    let position = match existing {
        Some(p) => update_position_sell(p, &ticket.symbol, ticket.amount, ticket.now),
        None => None,
    };
    match position {
        Some(position) => {
            let order = ticket.limit_order(Side::Sell, limit_price, OrderStatus::Pending, None);
            let pending = new_pending(&order, Decimal::zero(), ticket.amount);
            let user = User { created_at: ticket.now, ..ticket.user };
            Progress::Ask(
                StoreRequest::UpsertPosition(position),
                Placing::WritingPosition { order, user, pending: Some(pending) },
            )
        },
        None => Progress::Finished(Err(AppError::Overflow)),
    }
}

impl PlacingView {
    /// Whether a reply is one to what the store was asked last.
    pub open spec fn expects(self, reply: StoreReplyView) -> bool {
        reply is Failed || match self {
            PlacingView::MarketBuy { .. } => reply is Positions,
            PlacingView::MarketSell { .. } => reply is Positions,
            PlacingView::LimitSell { .. } => reply is Positions,
            _ => reply is Inserted,
        }
    }

    /// An order is only ever placed for a positive amount.
    pub open spec fn valid(self) -> bool {
        match self {
            PlacingView::MarketSell { ticket, .. } => ticket.amount.mantissa > 0,
            PlacingView::LimitSell { ticket, .. } => ticket.amount.mantissa > 0,
            _ => true,
        }
    }

    /// How placing the order goes on from a reply.
    pub open spec fn next(self, reply: StoreReplyView) -> ProgressView<PlacingView, PlacedView> {
        match (self, reply) {
            (_, StoreReplyView::Failed(text)) => store_failed(text),
            (
                PlacingView::MarketBuy { ticket, price, total_usdc },
                StoreReplyView::Positions(positions),
            ) => market_buy(ticket, price, total_usdc, positions),
            (
                PlacingView::MarketSell { ticket, price, total_usdc },
                StoreReplyView::Positions(positions),
            ) => market_sell(ticket, price, total_usdc, positions),
            (
                PlacingView::LimitSell { ticket, limit_price },
                StoreReplyView::Positions(positions),
            ) => limit_sell(ticket, limit_price, positions),
            (PlacingView::WritingPosition { order, user, pending }, _) => recording(
                order,
                Some(user),
                pending,
            ),
            (PlacingView::WritingOrder { order, then_user: Some(user), pending }, _) => {
                ProgressView::Ask(
                    StoreRequestView::InsertUser(user),
                    PlacingView::WritingUser { order, pending },
                )
            },
            (PlacingView::WritingOrder { order, then_user: None, pending }, _) => {
                ProgressView::Finished(Ok((order, pending)))
            },
            (PlacingView::WritingUser { order, pending }, _) => ProgressView::Finished(
                Ok((order, pending)),
            ),
            _ => overflowed(),
        }
    }
}

impl Placing {
    /// Goes on with the store's reply.
    pub fn resume(self, reply: StoreReply) -> (r: Progress<Placing, Placed>)
        requires
            self@.valid(),
            self@.expects(reply@),
        ensures
            r@ == self@.next(reply@),
            r@ matches ProgressView::Ask(_, state) ==> state.valid(),
    {
        match self {
            Placing::MarketBuy { ticket, price, total_usdc } => match reply.into_positions() {
                Ok(positions) => fill_market_buy(ticket, price, total_usdc, &positions),
                Err(e) => Progress::Finished(Err(e)),
            },
            Placing::MarketSell { ticket, price, total_usdc } => match reply.into_positions() {
                Ok(positions) => fill_market_sell(ticket, price, total_usdc, &positions),
                Err(e) => Progress::Finished(Err(e)),
            },
            Placing::LimitSell { ticket, limit_price } => match reply.into_positions() {
                Ok(positions) => lock_position(ticket, limit_price, &positions),
                Err(e) => Progress::Finished(Err(e)),
            },
            Placing::WritingPosition { order, user, pending } => match reply.into_inserted() {
                Ok(_) => record(order, Some(user), pending),
                Err(e) => Progress::Finished(Err(e)),
            },
            Placing::WritingOrder { order, then_user, pending } => match reply.into_inserted() {
                Ok(_) => match then_user {
                    Some(user) => Progress::Ask(
                        StoreRequest::InsertUser(user),
                        Placing::WritingUser { order, pending },
                    ),
                    None => Progress::Finished(Ok((order, pending))),
                },
                Err(e) => Progress::Finished(Err(e)),
            },
            Placing::WritingUser { order, pending } => match reply.into_inserted() {
                Ok(_) => Progress::Finished(Ok((order, pending))),
                Err(e) => Progress::Finished(Err(e)),
            },
        }
    }
}

/// The symbol that a text names, with a slash or a dash and in any case, if it is supported.
pub open spec fn normalized_symbol(symbols: Seq<Seq<char>>, raw: Seq<char>) -> Option<Seq<char>> {
    let symbol = replaced(uppercased(raw), '-', '/');
    if symbols.contains(symbol) {
        Some(symbol)
    } else {
        None
    }
}

/// Whether two characters are the same, in any case, or both separate the halves of a symbol.
pub open spec fn same_in_symbol(a: char, b: char) -> bool {
    ||| ascii_upper(a) == ascii_upper(b)
    ||| (a == '-' || a == '/') && (b == '-' || b == '/')
}

/// A symbol is known by its slash form and its dash form alike, and in any case; what it is known
/// as is one of the supported symbols.
pub proof fn law_symbol_forms(symbols: Seq<Seq<char>>, a: Seq<char>, b: Seq<char>)
    requires
        is_ascii_text(a),
        is_ascii_text(b),
        a.len() == b.len(),
        forall|i: int| 0 <= i < a.len() ==> same_in_symbol(#[trigger] a[i], b[i]),
    ensures
        normalized_symbol(symbols, a) == normalized_symbol(symbols, b),
        normalized_symbol(symbols, a) matches Some(symbol) ==> symbols.contains(symbol),
{
    assert forall|i: int| 0 <= i < a.len() implies replaced(uppercased(a), '-', '/')[i] == replaced(
        uppercased(b),
        '-',
        '/',
    )[i] by {
        assert(same_in_symbol(a[i], b[i]));
        assert(uppercased(a)[i] == ascii_upper(a[i]));
        assert(uppercased(b)[i] == ascii_upper(b[i]));
    }
    assert(replaced(uppercased(a), '-', '/') =~= replaced(uppercased(b), '-', '/'));
}

/// The order of a ticket at the market: it needs a live price that is a decimal. A purchase that
/// the balance does not cover is rejected; one that it does is paid for at once.
pub open spec fn market(
    quotes: Map<Seq<char>, QuoteView>,
    ticket: TicketView,
    side: Side,
) -> ProgressView<PlacingView, PlacedView> {
    match lookup(quotes, ticket.symbol) {
        None => ProgressView::Finished(
            Err(AppErrorView::Internal("No live price for "@ + ticket.symbol)),
        ),
        Some(quote) => match quote.price {
            None => ProgressView::Finished(
                Err(AppErrorView::Internal("Invalid price value: "@ + quote.raw)),
            ),
            Some(quoted) => {
                let price = rounded(quoted);
                match decimal_product(price, ticket.amount) {
                    None => overflowed(),
                    Some(product) => {
                        let total_usdc = rounded(product);
                        match side {
                            Side::Buy => market_payment(ticket, price, total_usdc),
                            Side::Sell => ProgressView::Ask(
                                StoreRequestView::GetPositionsForUser(ticket.user.id),
                                PlacingView::MarketSell { ticket, price, total_usdc },
                            ),
                        }
                    },
                }
            },
        },
    }
}

/// The payment for a purchase at the market.
pub open spec fn market_payment(
    ticket: TicketView,
    price: DecimalView,
    total_usdc: DecimalView,
) -> ProgressView<PlacingView, PlacedView> {
    let balance = ticket.user.balance_usdc;
    if balance.less(total_usdc) {
        recording(
            ticket.market_order(
                Side::Buy,
                price,
                total_usdc,
                OrderStatus::Rejected,
                Some(balance_too_low(total_usdc, balance)),
            ),
            Some(ticket.user),
            None,
        )
    } else {
        match decimal_difference(balance, total_usdc) {
            None => overflowed(),
            Some(rest) => ProgressView::Ask(
                StoreRequestView::GetPositionsForUser(ticket.user.id),
                PlacingView::MarketBuy {
                    ticket: TicketView {
                        user: with_balance(ticket.user, rest, ticket.now),
                        ..ticket
                    },
                    price,
                    total_usdc,
                },
            ),
        }
    }
}

/// The order of a ticket at a limit. A purchase locks `limit_price × amount` USDC at once, or is
/// rejected where the balance does not cover that.
pub open spec fn limit(ticket: TicketView, side: Side, limit_price: DecimalView) -> ProgressView<
    PlacingView,
    PlacedView,
> {
    match side {
        Side::Sell => ProgressView::Ask(
            StoreRequestView::GetPositionsForUser(ticket.user.id),
            PlacingView::LimitSell { ticket, limit_price },
        ),
        Side::Buy => match decimal_product(limit_price, ticket.amount) {
            None => overflowed(),
            Some(product) => limit_payment(ticket, limit_price, rounded(product)),
        },
    }
}

/// The locking of USDC for a limit purchase.
pub open spec fn limit_payment(
    ticket: TicketView,
    limit_price: DecimalView,
    cost: DecimalView,
) -> ProgressView<PlacingView, PlacedView> {
    let balance = ticket.user.balance_usdc;
    let order = ticket.limit_order(Side::Buy, limit_price, OrderStatus::Pending, None);
    if balance.less(cost) {
        recording(
            ticket.limit_order(
                Side::Buy,
                limit_price,
                OrderStatus::Rejected,
                Some(balance_too_low(cost, balance)),
            ),
            None,
            None,
        )
    } else {
        match decimal_difference(balance, cost) {
            None => overflowed(),
            Some(rest) => recording(
                order,
                Some(with_balance(ticket.user, rest, ticket.now)),
                Some(pending_of(order, cost, decimal_zero())),
            ),
        }
    }
}

/// Placing an order: an unsupported symbol, an amount that is not positive, a limit order without
/// a positive limit price and a stop-limit order are refused.
pub open spec fn placement(
    symbols: Seq<Seq<char>>,
    quotes: Map<Seq<char>, QuoteView>,
    user: UserView,
    raw_symbol: Seq<char>,
    side: Side,
    amount: DecimalView,
    order_type: OrderType,
    limit_price: Option<DecimalView>,
    id: Seq<char>,
    now: TimestampView,
) -> ProgressView<PlacingView, PlacedView> {
    match normalized_symbol(symbols, raw_symbol) {
        None => ProgressView::Finished(Err(AppErrorView::UnknownSymbol(raw_symbol))),
        Some(symbol) => {
            let ticket = TicketView { id, user, symbol, amount, now };
            if amount.mantissa <= 0 {
                ProgressView::Finished(Err(AppErrorView::BadRequest("amount must be > 0"@)))
            } else {
                match order_type {
                    OrderType::Market => market(quotes, ticket, side),
                    OrderType::Limit => match limit_price {
                        None => ProgressView::Finished(
                            Err(
                                AppErrorView::BadRequest(
                                    "limit_price is required for limit orders"@,
                                ),
                            ),
                        ),
                        Some(price) => if price.mantissa <= 0 {
                            ProgressView::Finished(
                                Err(AppErrorView::BadRequest("limit_price must be > 0"@)),
                            )
                        } else {
                            limit(ticket, side, price)
                        },
                    },
                    OrderType::StopLimit => ProgressView::Finished(
                        Err(
                            AppErrorView::BadRequest("stop_limit orders are not yet supported"@),
                        ),
                    ),
                }
            }
        },
    }
}

pub struct Engine<'a> {
    pub prices: &'a PriceCache,
    /// Supported trading pairs.
    pub symbols: &'a Vec<String>,
}

impl<'a> Engine<'a> {
    pub fn new(prices: &'a PriceCache, symbols: &'a Vec<String>) -> (r: Engine<'a>)
        ensures
            *r.prices == *prices,
            *r.symbols == *symbols,
    {
        Engine { prices, symbols }
    }

    pub fn normalize_symbol(&self, raw: &str) -> (r: Option<String>)
        ensures
            r.deep_view() == normalized_symbol(texts(self.symbols@), raw@),
    {
        let upper = to_uppercase(raw);
        let symbol = replace_char(&upper, '-', '/');
        let mut i: usize = 0;
        while i < self.symbols.len()
            invariant
                i <= self.symbols@.len(),
                symbol@ == replaced(uppercased(raw@), '-', '/'),
                forall|k: int| 0 <= k < i ==> (#[trigger] texts(self.symbols@)[k]) != symbol@,
            decreases self.symbols@.len() - i,
        {
            if self.symbols[i].eq(&symbol) {
                assert(texts(self.symbols@)[i as int] == symbol@);
                return Some(symbol);
            }
            i = i + 1;
        }
        None
    }

    fn execute_market(&self, ticket: Ticket, side: Side) -> (r: Progress<Placing, Placed>)
        requires
            ticket@.amount.mantissa > 0,
        ensures
            r@ == market(quotes_in(*self.prices), ticket@, side),
            r@ matches ProgressView::Ask(_, state) ==> state.valid(),
    {
        let quote = match quote_of(self.prices, &ticket.symbol) {
            Some(quote) => quote,
            None => return Progress::Finished(
                Err(AppError::Internal(join2("No live price for ", &ticket.symbol))),
            ),
        };
        let price = match quote.price {
            Some(price) => price.rounded(),
            None => return Progress::Finished(
                Err(AppError::Internal(join2("Invalid price value: ", &quote.raw))),
            ),
        };
        let total_usdc = match price.times(&ticket.amount) {
            Some(product) => product.rounded(),
            None => return Progress::Finished(Err(AppError::Overflow)),
        };
        match side {
            Side::Buy => {
                let balance = ticket.user.balance_usdc;
                if balance.less_than(&total_usdc) {
                    let reason = balance_too_low_text(&total_usdc, &balance);
                    let order = ticket.market_order(
                        side,
                        price,
                        total_usdc,
                        OrderStatus::Rejected,
                        Some(reason),
                    );
                    return record(order, Some(ticket.user), None);
                }
                match balance.minus(&total_usdc) {
                    Some(rest) => {
                        let user = User {
                            balance_usdc: rest,
                            created_at: ticket.now,
                            ..ticket.user
                        };
                        Progress::Ask(
                            StoreRequest::GetPositionsForUser(user.id.clone()),
                            Placing::MarketBuy {
                                ticket: Ticket { user, ..ticket },
                                price,
                                total_usdc,
                            },
                        )
                    },
                    None => Progress::Finished(Err(AppError::Overflow)),
                }
            },
            Side::Sell => Progress::Ask(
                StoreRequest::GetPositionsForUser(ticket.user.id.clone()),
                Placing::MarketSell { ticket, price, total_usdc },
            ),
        }
    }

    fn execute_limit(&self, ticket: Ticket, side: Side, limit_price: Decimal) -> (r: Progress<
        Placing,
        Placed,
    >)
        requires
            ticket@.amount.mantissa > 0,
        ensures
            r@ == limit(ticket@, side, limit_price@),
            r@ matches ProgressView::Ask(_, state) ==> state.valid(),
    {
        match side {
            Side::Buy => {
                let cost = match limit_price.times(&ticket.amount) {
                    Some(product) => product.rounded(),
                    None => return Progress::Finished(Err(AppError::Overflow)),
                };
                let balance = ticket.user.balance_usdc;
                if balance.less_than(&cost) {
                    let reason = balance_too_low_text(&cost, &balance);
                    let order = ticket.limit_order(
                        side,
                        limit_price,
                        OrderStatus::Rejected,
                        Some(reason),
                    );
                    return record(order, None, None);
                }
                match balance.minus(&cost) {
                    Some(rest) => {
                        let order = ticket.limit_order(
                            side,
                            limit_price,
                            OrderStatus::Pending,
                            None,
                        );
                        let pending = new_pending(&order, cost, Decimal::zero());
                        let user = User {
                            balance_usdc: rest,
                            created_at: ticket.now,
                            ..ticket.user
                        };
                        record(order, Some(user), Some(pending))
                    },
                    None => Progress::Finished(Err(AppError::Overflow)),
                }
            },
            Side::Sell => Progress::Ask(
                StoreRequest::GetPositionsForUser(ticket.user.id.clone()),
                Placing::LimitSell { ticket, limit_price },
            ),
        }
    }

    /// Places an order under a given id at a given time.
    pub fn place_order_as(
        &self,
        user: User,
        raw_symbol: &str,
        side: Side,
        amount: Decimal,
        order_type: OrderType,
        limit_price: Option<Decimal>,
        id: String,
        now: Timestamp,
    ) -> (r: Progress<Placing, Placed>)
        ensures
            r@ == placement(
                texts(self.symbols@),
                quotes_in(*self.prices),
                user@,
                raw_symbol@,
                side,
                amount@,
                order_type,
                limit_price.deep_view(),
                id@,
                now@,
            ),
            r@ matches ProgressView::Ask(_, state) ==> state.valid(),
    {
        let symbol = match self.normalize_symbol(raw_symbol) {
            Some(symbol) => symbol,
            None => return Progress::Finished(
                Err(AppError::UnknownSymbol(raw_symbol.to_owned())),
            ),
        };
        if !amount.is_positive() {
            return Progress::Finished(
                Err(AppError::BadRequest("amount must be > 0".to_owned())),
            );
        }
        let ticket = Ticket { id, user, symbol, amount, now };
        match order_type {
            OrderType::Market => self.execute_market(ticket, side),
            OrderType::Limit => match limit_price {
                None => Progress::Finished(
                    Err(
                        AppError::BadRequest(
                            "limit_price is required for limit orders".to_owned(),
                        ),
                    ),
                ),
                Some(price) => {
                    if !price.is_positive() {
                        Progress::Finished(
                            Err(AppError::BadRequest("limit_price must be > 0".to_owned())),
                        )
                    } else {
                        self.execute_limit(ticket, side, price)
                    }
                },
            },
            OrderType::StopLimit => Progress::Finished(
                Err(AppError::BadRequest("stop_limit orders are not yet supported".to_owned())),
            ),
        }
    }

    /// Places a market or limit order for `user` on `raw_symbol` for `amount` units, under a new
    /// id. What comes of it in the end is the order, and its entry for the book where it is a
    /// limit order that is not rejected.
    pub fn place_order(
        &self,
        user: User,
        raw_symbol: &str,
        side: Side,
        amount: Decimal,
        order_type: OrderType,
        limit_price: Option<Decimal>,
    ) -> (r: Progress<Placing, Placed>)
        ensures
            exists|id: Seq<char>, now: TimestampView|
                is_random_uuid(id) && is_clock_reading(now) && r@ == #[trigger] placement(
                    texts(self.symbols@),
                    quotes_in(*self.prices),
                    user@,
                    raw_symbol@,
                    side,
                    amount@,
                    order_type,
                    limit_price.deep_view(),
                    id,
                    now,
                ),
            r@ matches ProgressView::Ask(_, state) ==> state.valid(),
    {
        let id = new_id();
        let now = Timestamp::now();
        self.place_order_as(user, raw_symbol, side, amount, order_type, limit_price, id, now)
    }
}

} // verus!
