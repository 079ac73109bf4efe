//! Rows of the ClickHouse tables: what is written for a record, and what a row read back stands
//! for.

use vstd::prelude::*;

use crate::decimal::{decimal_parsed, decimal_text, decimal_zero, Decimal, DecimalView};
use crate::models::{
    law_order_status_names, law_order_type_names, law_role_names, law_side_names, Order,
    OrderStatus, OrderType, OrderView, Position, PositionView, Side, User, UserRole, UserView,
};
use crate::timestamp::{
    is_clock_reading, timestamp_parsed, timestamp_text, Timestamp, TimestampView,
};

verus! {

/// A row of `exchange.users`.
#[derive(Debug)]
pub struct UserRow {
    pub id: String,
    pub username: String,
    pub password_hash: String,
    pub role: String,
    pub balance_usdc: String,
    pub created_at: String,
    pub is_active: u8,
}

#[verifier::ext_equal]
pub struct UserRowView {
    pub id: Seq<char>,
    pub username: Seq<char>,
    pub password_hash: Seq<char>,
    pub role: Seq<char>,
    pub balance_usdc: Seq<char>,
    pub created_at: Seq<char>,
    pub is_active: u8,
}

impl View for UserRow {
    type V = UserRowView;

    open spec fn view(&self) -> UserRowView {
        UserRowView {
            id: self.id@,
            username: self.username@,
            password_hash: self.password_hash@,
            role: self.role@,
            balance_usdc: self.balance_usdc@,
            created_at: self.created_at@,
            is_active: self.is_active,
        }
    }
}

impl DeepView for UserRow {
    type V = UserRowView;

    open spec fn deep_view(&self) -> UserRowView {
        self@
    }
}

/// A row of `exchange.orders`.
#[derive(Debug)]
pub struct OrderRow {
    pub id: String,
    pub user_id: String,
    pub symbol: String,
    pub side: String,
    pub order_type: String,
    pub price: String,
    pub amount: String,
    pub total_usdc: String,
    pub limit_price: String,
    pub status: String,
    pub reject_reason: String,
    /// Not computed here: always empty.
    pub realized_pnl: String,
    pub created_at: String,
    pub updated_at: String,
}

#[verifier::ext_equal]
pub struct OrderRowView {
    pub id: Seq<char>,
    pub user_id: Seq<char>,
    pub symbol: Seq<char>,
    pub side: Seq<char>,
    pub order_type: Seq<char>,
    pub price: Seq<char>,
    pub amount: Seq<char>,
    pub total_usdc: Seq<char>,
    pub limit_price: Seq<char>,
    pub status: Seq<char>,
    pub reject_reason: Seq<char>,
    pub realized_pnl: Seq<char>,
    pub created_at: Seq<char>,
    pub updated_at: Seq<char>,
}

impl View for OrderRow {
    type V = OrderRowView;

    open spec fn view(&self) -> OrderRowView {
        OrderRowView {
            id: self.id@,
            user_id: self.user_id@,
            symbol: self.symbol@,
            side: self.side@,
            order_type: self.order_type@,
            price: self.price@,
            amount: self.amount@,
            total_usdc: self.total_usdc@,
            limit_price: self.limit_price@,
            status: self.status@,
            reject_reason: self.reject_reason@,
            realized_pnl: self.realized_pnl@,
            created_at: self.created_at@,
            updated_at: self.updated_at@,
        }
    }
}

impl DeepView for OrderRow {
    type V = OrderRowView;

    open spec fn deep_view(&self) -> OrderRowView {
        self@
    }
}

/// A row of `exchange.positions`.
#[derive(Debug)]
pub struct PositionRow {
    pub user_id: String,
    pub symbol: String,
    pub quantity: String,
    pub avg_buy_price: String,
    pub updated_at: String,
}

#[verifier::ext_equal]
pub struct PositionRowView {
    pub user_id: Seq<char>,
    pub symbol: Seq<char>,
    pub quantity: Seq<char>,
    pub avg_buy_price: Seq<char>,
    pub updated_at: Seq<char>,
}

impl View for PositionRow {
    type V = PositionRowView;

    open spec fn view(&self) -> PositionRowView {
        PositionRowView {
            user_id: self.user_id@,
            symbol: self.symbol@,
            quantity: self.quantity@,
            avg_buy_price: self.avg_buy_price@,
            updated_at: self.updated_at@,
        }
    }
}

impl DeepView for PositionRow {
    type V = PositionRowView;

    open spec fn deep_view(&self) -> PositionRowView {
        self@
    }
}

/// The number in a column; zero where the text is none.
pub open spec fn decimal_or_zero(text: Seq<char>) -> DecimalView {
    match decimal_parsed(text) {
        Some(d) => d,
        None => decimal_zero(),
    }
}

fn read_decimal(text: &str) -> (r: Decimal)
    ensures
        r@ == decimal_or_zero(text@),
        forall|d: DecimalView| d.valid() && text@ == #[trigger] decimal_text(d) ==> r@ == d,
{
    match Decimal::parse(text) {
        Some(d) => d,
        None => Decimal::zero(),
    }
}

/// The time in a column; `now` where the text is none.
pub open spec fn timestamp_or(text: Seq<char>, now: TimestampView) -> TimestampView {
    match timestamp_parsed(text) {
        Some(time) => time,
        None => now,
    }
}

fn read_timestamp(text: &str, now: Timestamp) -> (r: Timestamp)
    ensures
        r@ == timestamp_or(text@, now@),
{
    match Timestamp::parse(text) {
        Some(time) => time,
        None => now,
    }
}

/// An optional text in a column, where the empty text stands for none.
pub open spec fn text_or_empty(text: Option<Seq<char>>) -> Seq<char> {
    match text {
        Some(inner) => inner,
        None => ""@,
    }
}

impl UserRowView {
    /// The user that a row stands for. A time that cannot be read is taken to be `now`.
    pub open spec fn model(self, now: TimestampView) -> UserView {
        UserView {
            id: self.id,
            username: self.username,
            password_hash: self.password_hash,
            role: match UserRole::named(self.role) {
                Some(role) => role,
                None => UserRole::Trader,
            },
            balance_usdc: decimal_or_zero(self.balance_usdc),
            created_at: timestamp_or(self.created_at, now),
            is_active: self.is_active != 0,
        }
    }

    /// Whether this row was read as that user at some reading of the clock.
    pub open spec fn read_as(self, user: UserView) -> bool {
        exists|now: TimestampView| is_clock_reading(now) && user == #[trigger] self.model(now)
    }

    /// Whether, if this row is the one that is written for some user, what was read is that
    /// user again, but for the time.
    pub open spec fn restores(self, read: UserView) -> bool {
        forall|user: UserView|
            user.balance_usdc.valid() && self == #[trigger] UserRowView::of(user) ==> read == (
            UserView { created_at: read.created_at, ..user })
    }

    /// The row that is written for a user.
    pub open spec fn of(user: UserView) -> UserRowView {
        UserRowView {
            id: user.id,
            username: user.username,
            password_hash: user.password_hash,
            role: user.role.name(),
            balance_usdc: decimal_text(user.balance_usdc),
            created_at: timestamp_text(user.created_at),
            is_active: if user.is_active {
                1
            } else {
                0
            },
        }
    }
}

impl OrderRowView {
    /// The order that a row stands for. A time that cannot be read is taken to be `now`.
    pub open spec fn model(self, now: TimestampView) -> OrderView {
        OrderView {
            id: self.id,
            user_id: self.user_id,
            symbol: self.symbol,
            side: match Side::named(self.side) {
                Some(side) => side,
                None => Side::Buy,
            },
            order_type: match OrderType::named(self.order_type) {
                Some(order_type) => order_type,
                None => OrderType::Market,
            },
            limit_price: if self.limit_price.len() == 0 {
                None
            } else {
                decimal_parsed(self.limit_price)
            },
            price: decimal_or_zero(self.price),
            amount: decimal_or_zero(self.amount),
            total_usdc: decimal_or_zero(self.total_usdc),
            status: match OrderStatus::named(self.status) {
                Some(status) => status,
                None => OrderStatus::Rejected,
            },
            reject_reason: if self.reject_reason.len() == 0 {
                None
            } else {
                Some(self.reject_reason)
            },
            created_at: timestamp_or(self.created_at, now),
            updated_at: timestamp_or(self.updated_at, now),
        }
    }

    /// Whether this row was read as that order at some reading of the clock.
    pub open spec fn read_as(self, order: OrderView) -> bool {
        exists|now: TimestampView| is_clock_reading(now) && order == #[trigger] self.model(now)
    }

    /// Whether, if this row is the one that is written for some order, what was read is that
    /// order again, but for the times.
    pub open spec fn restores(self, read: OrderView) -> bool {
        forall|order: OrderView|
            order.writable() && self == #[trigger] OrderRowView::of(order) ==> read == (OrderView {
                created_at: read.created_at,
                updated_at: read.updated_at,
                ..order
            })
    }

    /// The row that is written for an order.
    pub open spec fn of(order: OrderView) -> OrderRowView {
        OrderRowView {
            id: order.id,
            user_id: order.user_id,
            symbol: order.symbol,
            side: order.side.name(),
            order_type: order.order_type.name(),
            price: decimal_text(order.price),
            amount: decimal_text(order.amount),
            total_usdc: decimal_text(order.total_usdc),
            limit_price: match order.limit_price {
                Some(price) => decimal_text(price),
                None => ""@,
            },
            status: order.status.name(),
            reject_reason: text_or_empty(order.reject_reason),
            realized_pnl: ""@,
            created_at: timestamp_text(order.created_at),
            updated_at: timestamp_text(order.updated_at),
        }
    }
}

impl OrderView {
    /// Whether every number of the order is one that can be written, and its reject reason is
    /// no empty text.
    pub open spec fn writable(self) -> bool {
        &&& self.price.valid() && self.amount.valid() && self.total_usdc.valid()
        &&& self.limit_price matches Some(price) ==> price.valid()
        &&& self.reject_reason matches Some(reason) ==> reason.len() > 0
    }
}

impl PositionRowView {
    /// The position that a row stands for. A time that cannot be read is taken to be `now`.
    pub open spec fn model(self, now: TimestampView) -> PositionView {
        PositionView {
            user_id: self.user_id,
            symbol: self.symbol,
            quantity: decimal_or_zero(self.quantity),
            avg_buy_price: decimal_or_zero(self.avg_buy_price),
            updated_at: timestamp_or(self.updated_at, now),
        }
    }

    /// Whether this row was read as that position at some reading of the clock.
    pub open spec fn read_as(self, position: PositionView) -> bool {
        exists|now: TimestampView| is_clock_reading(now) && position == #[trigger] self.model(now)
    }

    /// Whether, if this row is the one that is written for some position, what was read is that
    /// position again, but for the time.
    pub open spec fn restores(self, read: PositionView) -> bool {
        forall|position: PositionView|
            position.quantity.valid() && position.avg_buy_price.valid() && self
                == #[trigger] PositionRowView::of(position) ==> read == (PositionView {
                updated_at: read.updated_at,
                ..position
            })
    }

    /// The row that is written for a position.
    pub open spec fn of(position: PositionView) -> PositionRowView {
        PositionRowView {
            user_id: position.user_id,
            symbol: position.symbol,
            quantity: decimal_text(position.quantity),
            avg_buy_price: decimal_text(position.avg_buy_price),
            updated_at: timestamp_text(position.updated_at),
        }
    }
}

impl UserRow {
    /// The user that this row stands for. The row of a user stands for that user again, but for
    /// the time.
    pub fn into_model_at(self, now: Timestamp) -> (r: User)
        ensures
            r@ == self@.model(now@),
            self@.restores(r@),
    {
        let balance_usdc = read_decimal(&self.balance_usdc);
        let role = match UserRole::from_str(&self.role) {
            Some(role) => role,
            None => UserRole::Trader,
        };
        let created_at = read_timestamp(&self.created_at, now);
        proof {
            law_role_names(UserRole::Admin, self.role@);
            law_role_names(UserRole::Trader, self.role@);
        }
        User {
            id: self.id,
            username: self.username,
            password_hash: self.password_hash,
            role,
            balance_usdc,
            created_at,
            is_active: self.is_active != 0,
        }
    }

    pub fn into_model(self) -> (r: User)
        ensures
            self@.read_as(r@),
            self@.restores(r@),
    {
        let now = Timestamp::now();
        self.into_model_at(now)
    }
}

impl OrderRow {
    /// The order that this row stands for. The row of an order stands for that order again, but
    /// for the times.
    pub fn into_model_at(self, now: Timestamp) -> (r: Order)
        ensures
            r@ == self@.model(now@),
            self@.restores(r@),
    {
        let price = read_decimal(&self.price);
        let amount = read_decimal(&self.amount);
        let total_usdc = read_decimal(&self.total_usdc);
        let limit_price = if self.limit_price.as_str().is_empty() {
            None
        } else {
            Decimal::parse(&self.limit_price)
        };
        let side = match Side::from_str(&self.side) {
            Some(side) => side,
            None => Side::Buy,
        };
        let order_type = match OrderType::from_str(&self.order_type) {
            Some(order_type) => order_type,
            None => OrderType::Market,
        };
        let status = match OrderStatus::from_str(&self.status) {
            Some(status) => status,
            None => OrderStatus::Rejected,
        };
        let created_at = read_timestamp(&self.created_at, now);
        let updated_at = read_timestamp(&self.updated_at, now);
        let reject_reason = if self.reject_reason.as_str().is_empty() {
            None
        } else {
            Some(self.reject_reason)
        };
        proof {
            reveal_strlit("");
            assert forall|order: OrderView|
                order.writable() && self@ == #[trigger] OrderRowView::of(order) implies side
                == order.side && order_type == order.order_type && status == order.status
                && limit_price.deep_view() == order.limit_price && reject_reason.deep_view()
                == order.reject_reason by {
                law_side_names(order.side, self.side@);
                law_order_type_names(order.order_type, self.order_type@);
                law_order_status_names(order.status, self.status@);
                match order.limit_price {
                    Some(price) => {
                        lemma_text_not_empty(price);
                    },
                    None => {},
                }
            }
        }
        Order {
            id: self.id,
            user_id: self.user_id,
            symbol: self.symbol,
            side,
            order_type,
            limit_price,
            price,
            amount,
            total_usdc,
            status,
            reject_reason,
            created_at,
            updated_at,
        }
    }

    pub fn into_model(self) -> (r: Order)
        ensures
            self@.read_as(r@),
            self@.restores(r@),
    {
        let now = Timestamp::now();
        self.into_model_at(now)
    }
}

impl PositionRow {
    /// The position that this row stands for. The row of a position stands for that position
    /// again, but for the time.
    pub fn into_model_at(self, now: Timestamp) -> (r: Position)
        ensures
            r@ == self@.model(now@),
            self@.restores(r@),
    {
        let quantity = read_decimal(&self.quantity);
        let avg_buy_price = read_decimal(&self.avg_buy_price);
        let updated_at = read_timestamp(&self.updated_at, now);
        Position { user_id: self.user_id, symbol: self.symbol, quantity, avg_buy_price, updated_at }
    }

    pub fn into_model(self) -> (r: Position)
        ensures
            self@.read_as(r@),
            self@.restores(r@),
    {
        let now = Timestamp::now();
        self.into_model_at(now)
    }
}

proof fn lemma_text_not_empty(d: DecimalView)
    ensures
        decimal_text(d).len() > 0,
{
}

/// The row that inserting a user writes.
pub fn insert_user(user: &User) -> (r: UserRow)
    ensures
        r@ == UserRowView::of(user@),
{
    let is_active: u8 = if user.is_active { 1 } else { 0 };
    UserRow {
        id: user.id.clone(),
        username: user.username.clone(),
        password_hash: user.password_hash.clone(),
        role: user.role.as_str().to_owned(),
        balance_usdc: user.balance_usdc.to_text(),
        created_at: user.created_at.to_text(),
        is_active,
    }
}

/// The row that inserting an order writes.
pub fn insert_order(order: &Order) -> (r: OrderRow)
    ensures
        r@ == OrderRowView::of(order@),
{
    let limit_price = match &order.limit_price {
        Some(price) => price.to_text(),
        None => "".to_owned(),
    };
    let reject_reason = match &order.reject_reason {
        Some(reason) => reason.clone(),
        None => "".to_owned(),
    };
    OrderRow {
        id: order.id.clone(),
        user_id: order.user_id.clone(),
        symbol: order.symbol.clone(),
        side: order.side.as_str().to_owned(),
        order_type: order.order_type.as_str().to_owned(),
        price: order.price.to_text(),
        amount: order.amount.to_text(),
        total_usdc: order.total_usdc.to_text(),
        limit_price,
        status: order.status.as_str().to_owned(),
        reject_reason,
        realized_pnl: "".to_owned(),
        created_at: order.created_at.to_text(),
        updated_at: order.updated_at.to_text(),
    }
}

/// The row that inserting a position writes.
pub fn upsert_position(position: &Position) -> (r: PositionRow)
    ensures
        r@ == PositionRowView::of(position@),
{
    PositionRow {
        user_id: position.user_id.clone(),
        symbol: position.symbol.clone(),
        quantity: position.quantity.to_text(),
        avg_buy_price: position.avg_buy_price.to_text(),
        updated_at: position.updated_at.to_text(),
    }
}

/// An order with another status.
pub open spec fn with_status(
    order: OrderView,
    status: OrderStatus,
    now: TimestampView,
) -> OrderView {
    OrderView { status, updated_at: now, ..order }
}

/// The order to insert again with another status; the later version counts.
pub fn update_order_status(order: Order, new_status: OrderStatus, now: Timestamp) -> (r: Order)
    ensures
        r@ == with_status(order@, new_status, now@),
{
    Order { status: new_status, updated_at: now, ..order }
}

/// An order as filled at a price.
pub open spec fn with_fill(
    order: OrderView,
    exec_price: DecimalView,
    total_usdc: DecimalView,
    now: TimestampView,
) -> OrderView {
    OrderView {
        status: OrderStatus::Filled,
        price: exec_price,
        total_usdc,
        updated_at: now,
        ..order
    }
}

/// The order to insert again as filled, with the execution price and the total.
pub fn update_order_fill(
    order: Order,
    exec_price: Decimal,
    total_usdc: Decimal,
    now: Timestamp,
) -> (r: Order)
    ensures
        r@ == with_fill(order@, exec_price@, total_usdc@, now@),
{
    Order {
        status: OrderStatus::Filled,
        price: exec_price,
        total_usdc,
        updated_at: now,
        ..order
    }
}

/// The user of the first row that a query gave.
pub fn first_user(rows: Vec<UserRow>) -> (r: Option<User>)
    ensures
        match r {
            Some(user) => rows@.len() > 0 && rows@[0]@.read_as(user@) && rows@[0]@.restores(user@),
            None => rows@.len() == 0,
        },
{
    let mut rows = rows;
    if rows.len() == 0 {
        None
    } else {
        Some(rows.swap_remove(0).into_model())
    }
}

/// The order of the first row that a query gave.
pub fn first_order(rows: Vec<OrderRow>) -> (r: Option<Order>)
    ensures
        match r {
            Some(order) => rows@.len() > 0 && rows@[0]@.read_as(order@) && rows@[0]@.restores(
                order@,
            ),
            None => rows@.len() == 0,
        },
{
    let mut rows = rows;
    if rows.len() == 0 {
        None
    } else {
        Some(rows.swap_remove(0).into_model())
    }
}

/// The users of all rows, in their order.
pub fn all_users(rows: Vec<UserRow>) -> (r: Vec<User>)
    ensures
        r@.len() == rows@.len(),
        forall|i: int|
            0 <= i < r@.len() ==> rows@[i]@.read_as((#[trigger] r@[i])@) && rows@[i]@.restores(
                r@[i]@,
            ),
{
    let mut out: Vec<User> = Vec::new();
    let ghost all = rows@;
    for row in it: rows
        invariant
            it.seq() == all,
            out@.len() == it.index(),
            forall|i: int|
                0 <= i < out@.len() ==> all[i]@.read_as((#[trigger] out@[i])@) && all[i]@.restores(
                    out@[i]@,
                ),
    {
        out.push(row.into_model());
    }
    out
}

/// The orders of all rows, in their order.
pub fn all_orders(rows: Vec<OrderRow>) -> (r: Vec<Order>)
    ensures
        r@.len() == rows@.len(),
        forall|i: int|
            0 <= i < r@.len() ==> rows@[i]@.read_as((#[trigger] r@[i])@) && rows@[i]@.restores(
                r@[i]@,
            ),
{
    let mut out: Vec<Order> = Vec::new();
    let ghost all = rows@;
    for row in it: rows
        invariant
            it.seq() == all,
            out@.len() == it.index(),
            forall|i: int|
                0 <= i < out@.len() ==> all[i]@.read_as((#[trigger] out@[i])@) && all[i]@.restores(
                    out@[i]@,
                ),
    {
        out.push(row.into_model());
    }
    out
}

/// The positions of all rows, in their order.
pub fn all_positions(rows: Vec<PositionRow>) -> (r: Vec<Position>)
    ensures
        r@.len() == rows@.len(),
        forall|i: int|
            0 <= i < r@.len() ==> rows@[i]@.read_as((#[trigger] r@[i])@) && rows@[i]@.restores(
                r@[i]@,
            ),
{
    let mut out: Vec<Position> = Vec::new();
    let ghost all = rows@;
    for row in it: rows
        invariant
            it.seq() == all,
            out@.len() == it.index(),
            forall|i: int|
                0 <= i < out@.len() ==> all[i]@.read_as((#[trigger] out@[i])@) && all[i]@.restores(
                    out@[i]@,
                ),
    {
        out.push(row.into_model());
    }
    out
}

} // verus!
