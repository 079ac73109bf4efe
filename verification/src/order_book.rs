//! The in-memory limit order book, and how its orders are filled.
//!
//! When a limit order is placed, funds are locked at once: for a buy, `limit_price × amount` USDC
//! of the balance; for a sell, `amount` of the position. A buy fills when the market price is no
//! higher than its limit, a sell when it is no lower.

use vstd::prelude::*;

use crate::db::{update_order_fill, with_fill};
use crate::decimal::{
    decimal_difference, decimal_max, decimal_product, decimal_sum, decimal_zero, rounded, Decimal,
    DecimalView,
};
use crate::engine::{find_position, position_after_buy, position_in, update_position_buy};
use crate::error::{AppError, AppErrorView};
use crate::models::{Order, OrderStatus, OrderType, OrderView, Side, User, UserView};
use crate::store::{
    overflowed, store_failed, Progress, ProgressView, StoreReply, StoreReplyView, StoreRequest,
    StoreRequestView,
};
use crate::timestamp::{is_clock_reading, Timestamp, TimestampView};
use crate::ws_client::{lookup, quote_of, quotes_in, PriceCache, QuoteView};

verus! {

/// A limit order that waits in the book, with what was locked for it.
#[derive(Debug)]
pub struct PendingLimitOrder {
    pub order_id: String,
    pub user_id: String,
    pub side: Side,
    pub symbol: String,
    pub amount: Decimal,
    pub limit_price: Decimal,
    pub created_at: Timestamp,
    /// For buy orders: limit_price × amount was deducted from the balance.
    pub locked_usdc: Decimal,
    /// For sell orders: the asset quantity was deducted from the position.
    pub locked_qty: Decimal,
}

#[verifier::ext_equal]
pub struct PendingLimitOrderView {
    pub order_id: Seq<char>,
    pub user_id: Seq<char>,
    pub side: Side,
    pub symbol: Seq<char>,
    pub amount: DecimalView,
    pub limit_price: DecimalView,
    pub created_at: TimestampView,
    pub locked_usdc: DecimalView,
    pub locked_qty: DecimalView,
}

impl View for PendingLimitOrder {
    type V = PendingLimitOrderView;

    open spec fn view(&self) -> PendingLimitOrderView {
        PendingLimitOrderView {
            order_id: self.order_id@,
            user_id: self.user_id@,
            side: self.side,
            symbol: self.symbol@,
            amount: self.amount@,
            limit_price: self.limit_price@,
            created_at: self.created_at@,
            locked_usdc: self.locked_usdc@,
            locked_qty: self.locked_qty@,
        }
    }
}

impl DeepView for PendingLimitOrder {
    type V = PendingLimitOrderView;

    open spec fn deep_view(&self) -> PendingLimitOrderView {
        self@
    }
}

impl Clone for PendingLimitOrder {
    fn clone(&self) -> (r: Self)
        ensures
            r@ == self@,
    {
        PendingLimitOrder {
            order_id: self.order_id.clone(),
            user_id: self.user_id.clone(),
            side: self.side,
            symbol: self.symbol.clone(),
            amount: self.amount,
            limit_price: self.limit_price,
            created_at: self.created_at,
            locked_usdc: self.locked_usdc,
            locked_qty: self.locked_qty,
        }
    }
}

/// The entry in the book for a limit order.
pub open spec fn pending_of(
    order: OrderView,
    locked_usdc: DecimalView,
    locked_qty: DecimalView,
) -> PendingLimitOrderView {
    PendingLimitOrderView {
        order_id: order.id,
        user_id: order.user_id,
        side: order.side,
        symbol: order.symbol,
        amount: order.amount,
        limit_price: match order.limit_price {
            Some(price) => price,
            None => decimal_zero(),
        },
        created_at: order.created_at,
        locked_usdc,
        locked_qty,
    }
}

pub fn new_pending(order: &Order, locked_usdc: Decimal, locked_qty: Decimal) -> (r:
    PendingLimitOrder)
    ensures
        r@ == pending_of(order@, locked_usdc@, locked_qty@),
{
    let limit_price = match order.limit_price {
        Some(price) => price,
        None => Decimal::zero(),
    };
    PendingLimitOrder {
        order_id: order.id.clone(),
        user_id: order.user_id.clone(),
        side: order.side,
        symbol: order.symbol.clone(),
        amount: order.amount,
        limit_price,
        created_at: order.created_at,
        locked_usdc,
        locked_qty,
    }
}

/// Where an order with that id first stands in a book; the book's length where it does not.
pub open spec fn place_in_book(book: Seq<PendingLimitOrderView>, order_id: Seq<char>) -> int
    decreases book.len(),
{
    if book.len() == 0 || book[0].order_id == order_id {
        0
    } else {
        1 + place_in_book(book.drop_first(), order_id)
    }
}

/// The price at which a pending order can be filled: the market price, where there is one and it
/// is no higher than the limit of a purchase, or no lower than the limit of a sale.
pub open spec fn fill_price(
    quotes: Map<Seq<char>, QuoteView>,
    order: PendingLimitOrderView,
) -> Option<DecimalView> {
    match lookup(quotes, order.symbol) {
        None => None,
        Some(quote) => match quote.price {
            None => None,
            Some(market_price) => if match order.side {
                Side::Buy => !order.limit_price.less(market_price),
                Side::Sell => !market_price.less(order.limit_price),
            } {
                Some(market_price)
            } else {
                None
            },
        },
    }
}

/// The orders of a book that cannot be filled, in their order.
pub open spec fn kept_orders(
    book: Seq<PendingLimitOrderView>,
    quotes: Map<Seq<char>, QuoteView>,
) -> Seq<PendingLimitOrderView>
    decreases book.len(),
{
    if book.len() == 0 {
        Seq::empty()
    } else {
        let rest = kept_orders(book.drop_last(), quotes);
        match fill_price(quotes, book.last()) {
            Some(_) => rest,
            None => rest.push(book.last()),
        }
    }
}

/// The orders of a book that can be filled, in their order, each with its price.
pub open spec fn fillable_orders(
    book: Seq<PendingLimitOrderView>,
    quotes: Map<Seq<char>, QuoteView>,
) -> Seq<(PendingLimitOrderView, DecimalView)>
    decreases book.len(),
{
    if book.len() == 0 {
        Seq::empty()
    } else {
        let rest = fillable_orders(book.drop_last(), quotes);
        match fill_price(quotes, book.last()) {
            Some(price) => rest.push((book.last(), price)),
            None => rest,
        }
    }
}

/// The pending limit orders, in the order in which they came.
#[derive(Debug)]
pub struct OrderBook {
    inner: Vec<PendingLimitOrder>,
}

impl View for OrderBook {
    type V = Seq<PendingLimitOrderView>;

    closed spec fn view(&self) -> Seq<PendingLimitOrderView> {
        self.inner.deep_view()
    }
}

/// The price at which a pending order can be filled now.
fn price_to_fill(prices: &PriceCache, order: &PendingLimitOrder) -> (r: Option<Decimal>)
    ensures
        r.deep_view() == fill_price(quotes_in(*prices), order@),
{
    let quote = quote_of(prices, &order.symbol)?;
    let market_price = quote.price?;
    let can_fill = match order.side {
        Side::Buy => !order.limit_price.less_than(&market_price),
        Side::Sell => !market_price.less_than(&order.limit_price),
    };
    if can_fill {
        Some(market_price)
    } else {
        None
    }
}

impl OrderBook {
    pub fn new() -> (r: OrderBook)
        ensures
            r@ == Seq::<PendingLimitOrderView>::empty(),
    {
        let r = OrderBook { inner: Vec::new() };
        assert(r@ =~= Seq::<PendingLimitOrderView>::empty());
        r
    }

    pub fn len(&self) -> (r: usize)
        ensures
            r == self@.len(),
    {
        self.inner.len()
    }

    pub fn add(&mut self, order: PendingLimitOrder)
        ensures
            final(self)@ == old(self)@.push(order@),
    {
        let ghost before = self.inner.deep_view();
        self.inner.push(order);
        assert(self.inner.deep_view() =~= before.push(order@));
    }

    /// Removes and returns the order if found.
    pub fn remove(&mut self, order_id: &str) -> (r: Option<PendingLimitOrder>)
        ensures
            ({
                let place = place_in_book(old(self)@, order_id@);
                match r {
                    Some(order) => {
                        &&& 0 <= place < old(self)@.len()
                        &&& order@ == old(self)@[place]
                        &&& order@.order_id == order_id@
                        &&& final(self)@ == old(self)@.remove(place)
                    },
                    None => place == old(self)@.len() && final(self)@ == old(self)@,
                }
            }),
    {
        let ghost book = self.inner.deep_view();
        let wanted = order_id.to_owned();
        let mut i: usize = 0;
        assert(book.skip(0) =~= book);
        while i < self.inner.len()
            invariant
                i <= self.inner@.len(),
                book == self.inner.deep_view(),
                self@ == old(self)@,
                wanted@ == order_id@,
                place_in_book(book, order_id@) == i + place_in_book(
                    book.skip(i as int),
                    order_id@,
                ),
            decreases self.inner@.len() - i,
        {
            assert(book.skip(i as int)[0] == self.inner@[i as int]@);
            assert(book.skip(i as int).drop_first() =~= book.skip(i + 1));
            if self.inner[i].order_id.eq(&wanted) {
                let order = self.inner.remove(i);
                assert(self.inner.deep_view() =~= book.remove(i as int));
                return Some(order);
            }
            i = i + 1;
        }
        None
    }

    /// Takes out all orders that can be filled at the current market prices, each with its price.
    pub fn drain_fillable(&mut self, prices: &PriceCache) -> (r: Vec<(PendingLimitOrder, Decimal)>)
        ensures
            final(self)@ == kept_orders(old(self)@, quotes_in(*prices)),
            r.deep_view() == fillable_orders(old(self)@, quotes_in(*prices)),
    {
        let ghost book = self@;
        let ghost quotes = quotes_in(*prices);
        let mut kept: Vec<PendingLimitOrder> = Vec::new();
        let mut fillable: Vec<(PendingLimitOrder, Decimal)> = Vec::new();
        let mut all: Vec<PendingLimitOrder> = Vec::new();
        core::mem::swap(&mut all, &mut self.inner);
        let ghost orders = all@;
        assert(book.take(0) =~= Seq::<PendingLimitOrderView>::empty());
        assert(kept.deep_view() =~= kept_orders(book.take(0), quotes));
        assert(fillable.deep_view() =~= fillable_orders(book.take(0), quotes));
        for order in it: all
            invariant
                it.seq() == orders,
                book.len() == orders.len(),
                forall|k: int| 0 <= k < book.len() ==> book[k] == (#[trigger] orders[k])@,
                quotes == quotes_in(*prices),
                kept.deep_view() == kept_orders(book.take(it.index() as int), quotes),
                fillable.deep_view() == fillable_orders(book.take(it.index() as int), quotes),
        {
            let ghost i = it.index() as int;
            assert(book.take(i + 1).drop_last() =~= book.take(i));
            assert(book.take(i + 1).last() == order@);
            let ghost kept_before = kept.deep_view();
            let ghost fillable_before = fillable.deep_view();
            match price_to_fill(prices, &order) {
                Some(price) => {
                    fillable.push((order, price));
                    assert(fillable.deep_view() =~= fillable_before.push((order@, price@)));
                },
                None => {
                    kept.push(order);
                    assert(kept.deep_view() =~= kept_before.push(order@));
                },
            }
        }
        assert(book.take(book.len() as int) =~= book);
        self.inner = kept;
        fillable
    }

    /// Puts an order that could not be filled back into the book, so that it is tried again.
    pub fn settle(&mut self, pending: PendingLimitOrder, outcome: &Result<(), AppError>)
        ensures
            final(self)@ == match outcome {
                Ok(_) => old(self)@,
                Err(_) => old(self)@.push(pending@),
            },
    {
        match outcome {
            Ok(_) => {},
            Err(_) => self.add(pending),
        }
    }
}

/// A pending order that is filled at a price.
#[derive(Debug)]
pub struct Fill {
    pub pending: PendingLimitOrder,
    pub exec_price: Decimal,
    /// exec_price × amount.
    pub total_usdc: Decimal,
    pub now: Timestamp,
}

#[verifier::ext_equal]
pub struct FillView {
    pub pending: PendingLimitOrderView,
    pub exec_price: DecimalView,
    pub total_usdc: DecimalView,
    pub now: TimestampView,
}

impl View for Fill {
    type V = FillView;

    open spec fn view(&self) -> FillView {
        FillView {
            pending: self.pending@,
            exec_price: self.exec_price@,
            total_usdc: self.total_usdc@,
            now: self.now@,
        }
    }
}

impl DeepView for Fill {
    type V = FillView;

    open spec fn deep_view(&self) -> FillView {
        self@
    }
}

/// The order that a pending entry stands for, as it is before it is filled.
pub open spec fn open_order(pending: PendingLimitOrderView, now: TimestampView) -> OrderView {
    OrderView {
        id: pending.order_id,
        user_id: pending.user_id,
        symbol: pending.symbol,
        side: pending.side,
        order_type: OrderType::Limit,
        limit_price: Some(pending.limit_price),
        price: decimal_zero(),
        amount: pending.amount,
        total_usdc: decimal_zero(),
        status: OrderStatus::Pending,
        reject_reason: None,
        created_at: pending.created_at,
        updated_at: now,
    }
}

/// What of the locked USDC is not spent: never less than nothing.
pub open spec fn refund(locked_usdc: DecimalView, total_usdc: DecimalView) -> Option<DecimalView> {
    match decimal_difference(locked_usdc, total_usdc) {
        Some(rest) => Some(decimal_max(rest, decimal_zero())),
        None => None,
    }
}

/// A user whose balance grows; `None` where it leaves its range.
pub open spec fn credited(user: UserView, amount: DecimalView, now: TimestampView) -> Option<
    UserView,
> {
    match decimal_sum(user.balance_usdc, amount) {
        Some(balance_usdc) => Some(UserView { balance_usdc, created_at: now, ..user }),
        None => None,
    }
}

/// The user to write after the balance has grown.
pub fn credit_user(user: User, amount: Decimal, now: Timestamp) -> (r: Option<User>)
    ensures
        r.deep_view() == credited(user@, amount@, now@),
{
    let balance_usdc = user.balance_usdc.plus(&amount)?;
    Some(User { balance_usdc, created_at: now, ..user })
}

/// A fill on its way: what the store was asked last.
#[derive(Debug)]
pub enum Filling {
    /// The filled order is being written.
    WritingOrder(Fill),
    /// A purchase waits for the user's positions.
    ReadingPositions(Fill),
    /// A purchase waits for its position to be written.
    WritingPosition(Fill),
    /// A purchase waits for the user whom something is refunded to.
    ReadingRefunded(Decimal, Timestamp),
    /// A sale waits for the user whom the proceeds go to.
    ReadingSeller(Decimal, Timestamp),
    /// The user is being written.
    WritingUser,
}

#[verifier::ext_equal]
pub enum FillingView {
    WritingOrder(FillView),
    ReadingPositions(FillView),
    WritingPosition(FillView),
    ReadingRefunded(DecimalView, TimestampView),
    ReadingSeller(DecimalView, TimestampView),
    WritingUser,
}

impl View for Filling {
    type V = FillingView;

    open spec fn view(&self) -> FillingView {
        match self {
            Filling::WritingOrder(fill) => FillingView::WritingOrder(fill@),
            Filling::ReadingPositions(fill) => FillingView::ReadingPositions(fill@),
            Filling::WritingPosition(fill) => FillingView::WritingPosition(fill@),
            Filling::ReadingRefunded(amount, now) => FillingView::ReadingRefunded(amount@, now@),
            Filling::ReadingSeller(amount, now) => FillingView::ReadingSeller(amount@, now@),
            Filling::WritingUser => FillingView::WritingUser,
        }
    }
}

/// The filling of a pending order begins: the order is written as filled.
pub open spec fn filling(
    pending: PendingLimitOrderView,
    exec_price: DecimalView,
    now: TimestampView,
) -> ProgressView<FillingView, ()> {
    match decimal_product(exec_price, pending.amount) {
        None => overflowed(),
        Some(product) => {
            let total_usdc = rounded(product);
            ProgressView::Ask(
                StoreRequestView::InsertOrder(
                    with_fill(open_order(pending, now), exec_price, total_usdc, now),
                ),
                FillingView::WritingOrder(FillView { pending, exec_price, total_usdc, now }),
            )
        },
    }
}

/// The user is credited and written, or is not there.
pub open spec fn crediting(
    user: Option<UserView>,
    amount: DecimalView,
    now: TimestampView,
    missing: Seq<char>,
) -> ProgressView<FillingView, ()> {
    match user {
        None => ProgressView::Finished(Err(AppErrorView::NotFound(missing))),
        Some(user) => match credited(user, amount, now) {
            None => overflowed(),
            Some(user) => ProgressView::Ask(
                StoreRequestView::InsertUser(user),
                FillingView::WritingUser,
            ),
        },
    }
}

impl FillingView {
    /// Whether a reply is one to what the store was asked last.
    pub open spec fn expects(self, reply: StoreReplyView) -> bool {
        reply is Failed || match self {
            FillingView::WritingOrder(_) => reply is Inserted,
            FillingView::ReadingPositions(_) => reply is Positions,
            FillingView::WritingPosition(_) => reply is Inserted,
            FillingView::ReadingRefunded(_, _) => reply is User,
            FillingView::ReadingSeller(_, _) => reply is User,
            FillingView::WritingUser => reply is Inserted,
        }
    }

    /// How the fill goes on from a reply. A purchase credits the position and then refunds what
    /// was locked too much; a sale credits the proceeds.
    pub open spec fn next(self, reply: StoreReplyView) -> ProgressView<FillingView, ()> {
        match (self, reply) {
            (_, StoreReplyView::Failed(text)) => store_failed(text),
            (FillingView::WritingOrder(fill), _) => match fill.pending.side {
                Side::Buy => ProgressView::Ask(
                    StoreRequestView::GetPositionsForUser(fill.pending.user_id),
                    FillingView::ReadingPositions(fill),
                ),
                Side::Sell => ProgressView::Ask(
                    StoreRequestView::GetUserById(fill.pending.user_id),
                    FillingView::ReadingSeller(fill.total_usdc, fill.now),
                ),
            },
            (FillingView::ReadingPositions(fill), StoreReplyView::Positions(positions)) => {
                match position_after_buy(
                    find_position(positions, fill.pending.symbol),
                    fill.pending.user_id,
                    fill.pending.symbol,
                    fill.exec_price,
                    fill.pending.amount,
                    fill.now,
                ) {
                    None => overflowed(),
                    Some(position) => ProgressView::Ask(
                        StoreRequestView::UpsertPosition(position),
                        FillingView::WritingPosition(fill),
                    ),
                }
            },
            (FillingView::WritingPosition(fill), _) => match refund(
                fill.pending.locked_usdc,
                fill.total_usdc,
            ) {
                None => overflowed(),
                Some(amount) => if amount.mantissa > 0 {
                    ProgressView::Ask(
                        StoreRequestView::GetUserById(fill.pending.user_id),
                        FillingView::ReadingRefunded(amount, fill.now),
                    )
                } else {
                    ProgressView::Finished(Ok(()))
                },
            },
            (FillingView::ReadingRefunded(amount, now), StoreReplyView::User(user)) => crediting(
                user,
                amount,
                now,
                "User not found during fill refund"@,
            ),
            (FillingView::ReadingSeller(amount, now), StoreReplyView::User(user)) => crediting(
                user,
                amount,
                now,
                "User not found during fill"@,
            ),
            (FillingView::WritingUser, _) => ProgressView::Finished(Ok(())),
            _ => overflowed(),
        }
    }
}

fn credit(user: Option<User>, amount: Decimal, now: Timestamp, missing: &str) -> (r: Progress<
    Filling,
    (),
>)
    ensures
        r@ == crediting(user.deep_view(), amount@, now@, missing@),
{
    match user {
        None => Progress::Finished(Err(AppError::NotFound(missing.to_owned()))),
        Some(user) => match credit_user(user, amount, now) {
            None => Progress::Finished(Err(AppError::Overflow)),
            Some(user) => Progress::Ask(StoreRequest::InsertUser(user), Filling::WritingUser),
        },
    }
}

impl Filling {
    /// Goes on with the store's reply.
    pub fn resume(self, reply: StoreReply) -> (r: Progress<Filling, ()>)
        requires
            self@.expects(reply@),
        ensures
            r@ == self@.next(reply@),
    {
        match self {
            Filling::WritingOrder(fill) => match reply.into_inserted() {
                Err(e) => Progress::Finished(Err(e)),
                Ok(_) => match fill.pending.side {
                    Side::Buy => Progress::Ask(
                        StoreRequest::GetPositionsForUser(fill.pending.user_id.clone()),
                        Filling::ReadingPositions(fill),
                    ),
                    Side::Sell => Progress::Ask(
                        StoreRequest::GetUserById(fill.pending.user_id),
                        Filling::ReadingSeller(fill.total_usdc, fill.now),
                    ),
                },
            },
            Filling::ReadingPositions(fill) => match reply.into_positions() {
                Err(e) => Progress::Finished(Err(e)),
                Ok(positions) => {
                    let existing = position_in(&positions, &fill.pending.symbol);
                    match update_position_buy(
                        existing,
                        &fill.pending.user_id,
                        &fill.pending.symbol,
                        fill.exec_price,
                        fill.pending.amount,
                        fill.now,
                    ) {
                        None => Progress::Finished(Err(AppError::Overflow)),
                        Some(position) => Progress::Ask(
                            StoreRequest::UpsertPosition(position),
                            Filling::WritingPosition(fill),
                        ),
                    }
                },
            },
            Filling::WritingPosition(fill) => match reply.into_inserted() {
                Err(e) => Progress::Finished(Err(e)),
                Ok(_) => match fill.pending.locked_usdc.minus(&fill.total_usdc) {
                    None => Progress::Finished(Err(AppError::Overflow)),
                    Some(rest) => {
                        let amount = rest.max(Decimal::zero());
                        if amount.is_positive() {
                            Progress::Ask(
                                StoreRequest::GetUserById(fill.pending.user_id),
                                Filling::ReadingRefunded(amount, fill.now),
                            )
                        } else {
                            Progress::Finished(Ok(()))
                        }
                    },
                },
            },
            Filling::ReadingRefunded(amount, now) => match reply.into_user() {
                Err(e) => Progress::Finished(Err(e)),
                Ok(user) => credit(user, amount, now, "User not found during fill refund"),
            },
            Filling::ReadingSeller(amount, now) => match reply.into_user() {
                Err(e) => Progress::Finished(Err(e)),
                Ok(user) => credit(user, amount, now, "User not found during fill"),
            },
            Filling::WritingUser => match reply.into_inserted() {
                Err(e) => Progress::Finished(Err(e)),
                Ok(_) => Progress::Finished(Ok(())),
            },
        }
    }
}

/// Begins to fill a pending order at a given time.
pub fn fill_order_at(pending: PendingLimitOrder, exec_price: Decimal, now: Timestamp) -> (r:
    Progress<Filling, ()>)
    ensures
        r@ == filling(pending@, exec_price@, now@),
{
    let total_usdc = match exec_price.times(&pending.amount) {
        Some(product) => product.rounded(),
        None => return Progress::Finished(Err(AppError::Overflow)),
    };
    let open = Order {
        id: pending.order_id.clone(),
        user_id: pending.user_id.clone(),
        symbol: pending.symbol.clone(),
        side: pending.side,
        order_type: OrderType::Limit,
        limit_price: Some(pending.limit_price),
        price: Decimal::zero(),
        amount: pending.amount,
        total_usdc: Decimal::zero(),
        status: OrderStatus::Pending,
        reject_reason: None,
        created_at: pending.created_at,
        updated_at: now,
    };
    let filled = update_order_fill(open, exec_price, total_usdc, now);
    Progress::Ask(
        StoreRequest::InsertOrder(filled),
        Filling::WritingOrder(Fill { pending, exec_price, total_usdc, now }),
    )
}

/// Begins to fill a pending order.
pub fn fill_order(pending: PendingLimitOrder, exec_price: Decimal) -> (r: Progress<Filling, ()>)
    ensures
        exists|now: TimestampView|
            is_clock_reading(now) && r@ == #[trigger] filling(pending@, exec_price@, now),
{
    let now = Timestamp::now();
    fill_order_at(pending, exec_price, now)
}

/// The orders alone, of orders with their prices.
pub open spec fn without_prices(fillable: Seq<(PendingLimitOrderView, DecimalView)>) -> Seq<
    PendingLimitOrderView,
> {
    fillable.map_values(|f: (PendingLimitOrderView, DecimalView)| f.0)
}

/// Draining parts the book: each order stays or is taken out, none is lost or made up. What is
/// taken out can be filled at its price, and what stays cannot be filled.
pub proof fn law_drain_parts_the_book(
    book: Seq<PendingLimitOrderView>,
    quotes: Map<Seq<char>, QuoteView>,
)
    ensures
        book.to_multiset() == kept_orders(book, quotes).to_multiset().add(
            without_prices(fillable_orders(book, quotes)).to_multiset(),
        ),
        forall|i: int|
            0 <= i < kept_orders(book, quotes).len() ==> fill_price(
                quotes,
                #[trigger] kept_orders(book, quotes)[i],
            ) is None,
        forall|i: int|
            0 <= i < fillable_orders(book, quotes).len() ==> fill_price(
                quotes,
                (#[trigger] fillable_orders(book, quotes)[i]).0,
            ) == Some(fillable_orders(book, quotes)[i].1),
    decreases book.len(),
{
    broadcast use vstd::seq_lib::group_to_multiset_ensures;

    if book.len() > 0 {
        let rest = book.drop_last();
        let last = book.last();
        law_drain_parts_the_book(rest, quotes);
        assert(book =~= rest.push(last));
        match fill_price(quotes, last) {
            Some(price) => {
                let before = fillable_orders(rest, quotes);
                assert(without_prices(before.push((last, price))) =~= without_prices(before).push(
                    last,
                ));
            },
            None => {},
        }
        assert(book.to_multiset() =~= kept_orders(book, quotes).to_multiset().add(
            without_prices(fillable_orders(book, quotes)).to_multiset(),
        ));
    } else {
        assert(without_prices(fillable_orders(book, quotes)) =~= Seq::<
            PendingLimitOrderView,
        >::empty());
        assert(book =~= Seq::<PendingLimitOrderView>::empty());
        assert(book.to_multiset() =~= kept_orders(book, quotes).to_multiset().add(
            without_prices(fillable_orders(book, quotes)).to_multiset(),
        ));
    }
}

/// Draining again at the same prices takes nothing out.
pub proof fn law_drain_is_complete(
    book: Seq<PendingLimitOrderView>,
    quotes: Map<Seq<char>, QuoteView>,
)
    ensures
        kept_orders(kept_orders(book, quotes), quotes) == kept_orders(book, quotes),
        fillable_orders(kept_orders(book, quotes), quotes) == Seq::<
            (PendingLimitOrderView, DecimalView),
        >::empty(),
    decreases book.len(),
{
    if book.len() > 0 {
        let rest = kept_orders(book.drop_last(), quotes);
        law_drain_is_complete(book.drop_last(), quotes);
        assert(rest.push(book.last()).drop_last() =~= rest);
    }
}

/// A buy fills when the market price is no higher than its limit, a sell when it is no lower, at
/// the market price; without a live price nothing fills.
pub proof fn law_fills_within_limit(
    quotes: Map<Seq<char>, QuoteView>,
    order: PendingLimitOrderView,
    quote: QuoteView,
    market_price: DecimalView,
)
    requires
        lookup(quotes, order.symbol) == Some(quote),
        quote.price == Some(market_price),
    ensures
        order.side == Side::Buy ==> fill_price(quotes, order) == (if order.limit_price.less(
            market_price,
        ) {
            None
        } else {
            Some(market_price)
        }),
        order.side == Side::Sell ==> fill_price(quotes, order) == (if market_price.less(
            order.limit_price,
        ) {
            None
        } else {
            Some(market_price)
        }),
        fill_price(quotes.remove(order.symbol), order) is None,
{
}

/// Every order id in the book is there once.
pub open spec fn ids_unique(book: Seq<PendingLimitOrderView>) -> bool {
    forall|i: int, j: int|
        0 <= i < j < book.len() ==> (#[trigger] book[i]).order_id != (#[trigger] book[j]).order_id
}

/// Where an order stands in the book, if anywhere, it has that id, and none before it has.
pub proof fn lemma_place(book: Seq<PendingLimitOrderView>, order_id: Seq<char>)
    ensures
        ({
            let place = place_in_book(book, order_id);
            &&& 0 <= place <= book.len()
            &&& place < book.len() ==> book[place].order_id == order_id
            &&& forall|i: int| 0 <= i < place ==> (#[trigger] book[i]).order_id != order_id
        }),
    decreases book.len(),
{
    if book.len() > 0 && book[0].order_id != order_id {
        let rest = book.drop_first();
        lemma_place(rest, order_id);
        assert forall|i: int| 0 <= i < place_in_book(book, order_id) implies (
        #[trigger] book[i]).order_id != order_id by {
            if i > 0 {
                assert(rest[i - 1].order_id != order_id);
            }
        }
    }
}

/// An order that was added to a book in which its id is not, is what removing that id gives back,
/// and the book is then as it was; no other id is found elsewhere for it.
pub proof fn law_add_then_remove(
    book: Seq<PendingLimitOrderView>,
    order: PendingLimitOrderView,
    other: Seq<char>,
)
    requires
        place_in_book(book, order.order_id) == book.len(),
    ensures
        ({
            let place = place_in_book(book.push(order), order.order_id);
            &&& place == book.len()
            &&& book.push(order)[place] == order
            &&& book.push(order).remove(place) == book
        }),
        ids_unique(book) ==> ids_unique(book.push(order)),
        other != order.order_id && place_in_book(book, other) < book.len() ==> place_in_book(
            book.push(order),
            other,
        ) == place_in_book(book, other),
{
    let longer = book.push(order);
    lemma_place(book, order.order_id);
    lemma_place(longer, order.order_id);
    lemma_place(book, other);
    lemma_place(longer, other);
    let place = place_in_book(longer, order.order_id);
    assert(longer[book.len() as int] == order);
    assert(place == book.len()) by {
        if place < book.len() {
            assert(longer[place] == book[place]);
        }
    }
    assert(longer.remove(place) =~= book);
    if other != order.order_id && place_in_book(book, other) < book.len() {
        let a = place_in_book(book, other);
        let b = place_in_book(longer, other);
        assert(longer[a] == book[a]);
        if b < a {
            assert(longer[b] == book[b]);
        }
    }
}

} // verus!
