//! Placing, listing and canceling orders.

use vstd::prelude::*;

use crate::auth::{claims_result, Claims, ClaimsView};
use crate::db::{update_order_status, with_status};
use crate::decimal::{decimal_sum, decimal_zero, Decimal, DecimalView};
use crate::engine::{
    find_position, held_quantity, placement, position_in, Engine, Placed, PlacedView, Placing,
    PlacingView,
};
use crate::error::{AppError, AppErrorView};
use crate::models::{
    is_random_uuid, new_id, Order, OrderStatus, OrderView, PlaceOrderRequest, PlaceOrderRequestView,
    Position, PositionView, Side, User, UserView,
};
use crate::order_book::{
    credit_user, credited, lemma_place, place_in_book, OrderBook, PendingLimitOrder,
    PendingLimitOrderView,
};
use crate::store::{
    overflowed, store_failed, Progress, ProgressView, StoreReply, StoreReplyView, StoreRequest,
    StoreRequestView,
};
use crate::text::{join2, join3, same_text, texts};
use crate::timestamp::{is_clock_reading, Timestamp, TimestampView};
use crate::ws_client::{quotes_in, QuoteView};

verus! {

#[derive(Debug)]
pub struct LimitQuery {
    pub limit: Option<u32>,
}

#[verifier::ext_equal]
pub struct LimitQueryView {
    pub limit: Option<u32>,
}

impl View for LimitQuery {
    type V = LimitQueryView;

    open spec fn view(&self) -> LimitQueryView {
        LimitQueryView {
            limit: self.limit,
        }
    }
}

impl DeepView for LimitQuery {
    type V = LimitQueryView;

    open spec fn deep_view(&self) -> LimitQueryView {
        self@
    }
}

/// A limit on the length of a list: the default where none is given, and never more than the
/// largest.
pub open spec fn bounded_limit(limit: Option<u32>, default: u32, largest: u32) -> u32 {
    let wanted = match limit {
        Some(n) => n,
        None => default,
    };
    if wanted < largest {
        wanted
    } else {
        largest
    }
}

pub fn limit_or(limit: Option<u32>, default: u32, largest: u32) -> (r: u32)
    ensures
        r == bounded_limit(limit, default, largest),
{
    let wanted: u32 = match limit {
        Some(n) => n,
        None => default,
    };
    if wanted < largest {
        wanted
    } else {
        largest
    }
}

/// A request for an order on its way: what is known, and what the store was asked last.
#[derive(Debug)]
pub enum Submitting {
    /// The user is being read.
    ReadingUser(PlaceOrderRequest),
    /// The order is being placed.
    Placing(Placing),
}

#[verifier::ext_equal]
pub enum SubmittingView {
    ReadingUser(PlaceOrderRequestView),
    Placing(PlacingView),
}

impl View for Submitting {
    type V = SubmittingView;

    open spec fn view(&self) -> SubmittingView {
        match self {
            Submitting::ReadingUser(body) => SubmittingView::ReadingUser(body@),
            Submitting::Placing(placing) => SubmittingView::Placing(placing@),
        }
    }
}

/// The book with the entry of an order that was placed at its limit.
pub open spec fn booked(
    book: Seq<PendingLimitOrderView>,
    placing: ProgressView<PlacingView, PlacedView>,
) -> Seq<PendingLimitOrderView> {
    match placing {
        ProgressView::Finished(Ok((_, Some(pending)))) => book.push(pending),
        _ => book,
    }
}

/// What the client of a request for an order gets of it: the order.
pub open spec fn submitted(placing: ProgressView<PlacingView, PlacedView>) -> ProgressView<
    SubmittingView,
    OrderView,
> {
    match placing {
        ProgressView::Ask(request, state) => ProgressView::Ask(
            request,
            SubmittingView::Placing(state),
        ),
        ProgressView::Finished(Ok((order, _))) => ProgressView::Finished(Ok(order)),
        ProgressView::Finished(Err(e)) => ProgressView::Finished(Err(e)),
    }
}

/// A request for an order begins.
pub open spec fn submission(
    session: Result<ClaimsView, AppErrorView>,
    body: PlaceOrderRequestView,
) -> ProgressView<SubmittingView, OrderView> {
    match session {
        Err(e) => ProgressView::Finished(Err(e)),
        Ok(claims) => ProgressView::Ask(
            StoreRequestView::GetUserById(claims.sub),
            SubmittingView::ReadingUser(body),
        ),
    }
}

impl SubmittingView {
    /// Whether a reply is one to what the store was asked last.
    pub open spec fn expects(self, reply: StoreReplyView) -> bool {
        match self {
            SubmittingView::ReadingUser(_) => reply is User || reply is Failed,
            SubmittingView::Placing(placing) => placing.expects(reply),
        }
    }

    pub open spec fn valid(self) -> bool {
        match self {
            SubmittingView::ReadingUser(_) => true,
            SubmittingView::Placing(placing) => placing.valid(),
        }
    }

    /// How the order is placed from a reply on.
    pub open spec fn next(
        self,
        reply: StoreReplyView,
        symbols: Seq<Seq<char>>,
        quotes: Map<Seq<char>, QuoteView>,
        id: Seq<char>,
        now: TimestampView,
    ) -> ProgressView<PlacingView, PlacedView> {
        match (self, reply) {
            (_, StoreReplyView::Failed(text)) => store_failed(text),
            (SubmittingView::ReadingUser(body), StoreReplyView::User(Some(user))) => placement(
                symbols,
                quotes,
                user,
                body.symbol,
                body.side,
                body.amount,
                body.order_type,
                body.limit_price,
                id,
                now,
            ),
            (SubmittingView::ReadingUser(_), _) => ProgressView::Finished(
                Err(AppErrorView::NotFound("User not found"@)),
            ),
            (SubmittingView::Placing(placing), _) => placing.next(reply),
        }
    }
}

fn submit(placing: Progress<Placing, Placed>, book: &mut OrderBook) -> (r: Progress<
    Submitting,
    Order,
>)
    ensures
        r@ == submitted(placing@),
        final(book)@ == booked(old(book)@, placing@),
{
    match placing {
        Progress::Ask(request, state) => Progress::Ask(request, Submitting::Placing(state)),
        Progress::Finished(Ok((order, pending))) => {
            match pending {
                Some(pending) => book.add(pending),
                None => {},
            }
            Progress::Finished(Ok(order))
        },
        Progress::Finished(Err(e)) => Progress::Finished(Err(e)),
    }
}

impl Submitting {
    /// Goes on with the store's reply; an order that is placed here gets a given id, at a given
    /// time. A limit order that is pending goes into the book.
    pub fn resume_as(
        self,
        reply: StoreReply,
        engine: &Engine,
        book: &mut OrderBook,
        id: String,
        now: Timestamp,
    ) -> (r: Progress<Submitting, Order>)
        requires
            self@.valid(),
            self@.expects(reply@),
        ensures
            ({
                let placing = self@.next(
                    reply@,
                    texts(engine.symbols@),
                    quotes_in(*engine.prices),
                    id@,
                    now@,
                );
                &&& r@ == submitted(placing)
                &&& final(book)@ == booked(old(book)@, placing)
            }),
            r@ matches ProgressView::Ask(_, state) ==> state.valid(),
    {
        let placing = match self {
            Submitting::ReadingUser(body) => match reply.into_user() {
                Err(e) => Progress::Finished(Err(e)),
                Ok(None) => Progress::Finished(
                    Err(AppError::NotFound("User not found".to_owned())),
                ),
                Ok(Some(user)) => engine.place_order_as(
                    user,
                    &body.symbol,
                    body.side,
                    body.amount,
                    body.order_type,
                    body.limit_price,
                    id,
                    now,
                ),
            },
            Submitting::Placing(placing) => placing.resume(reply),
        };
        submit(placing, book)
    }

    /// Goes on with the store's reply.
    pub fn resume(self, reply: StoreReply, engine: &Engine, book: &mut OrderBook) -> (r: Progress<
        Submitting,
        Order,
    >)
        requires
            self@.valid(),
            self@.expects(reply@),
        ensures
            exists|id: Seq<char>, now: TimestampView|
                {
                    let placing = #[trigger] self@.next(
                        reply@,
                        texts(engine.symbols@),
                        quotes_in(*engine.prices),
                        id,
                        now,
                    );
                    &&& is_random_uuid(id)
                    &&& is_clock_reading(now)
                    &&& r@ == submitted(placing)
                    &&& final(book)@ == booked(old(book)@, placing)
                },
            r@ matches ProgressView::Ask(_, state) ==> state.valid(),
    {
        let id = new_id();
        let now = Timestamp::now();
        self.resume_as(reply, engine, book, id, now)
    }
}

/// Places a market or limit order. What comes of it in the end is the order.
pub fn place_order(session: Result<Claims, AppError>, body: PlaceOrderRequest) -> (r: Progress<
    Submitting,
    Order,
>)
    ensures
        r@ == submission(claims_result(session), body@),
        r@ matches ProgressView::Ask(_, state) ==> state.valid(),
{
    match session {
        Err(e) => Progress::Finished(Err(e)),
        Ok(claims) => Progress::Ask(
            StoreRequest::GetUserById(claims.sub),
            Submitting::ReadingUser(body),
        ),
    }
}

/// The HTTP status of the response to a request for an order.
pub fn placed_status(order: &Order) -> (r: u16)
    ensures
        r == (if order@.status is Filled {
            201u16
        } else {
            200u16
        }),
{
    match order.status {
        OrderStatus::Filled => 201,
        _ => 200,
    }
}

/// The list of orders is being read.
#[derive(Debug)]
pub struct ListingOrders;

impl View for ListingOrders {
    type V = ListingOrders;

    open spec fn view(&self) -> ListingOrders {
        *self
    }
}

/// The user's orders are listed, at most five hundred, and fifty where no limit is given.
pub open spec fn order_listing(
    session: Result<ClaimsView, AppErrorView>,
    query: LimitQueryView,
) -> ProgressView<ListingOrders, Seq<OrderView>> {
    match session {
        Err(e) => ProgressView::Finished(Err(e)),
        Ok(claims) => ProgressView::Ask(
            StoreRequestView::ListOrdersForUser(claims.sub, bounded_limit(query.limit, 50, 500)),
            ListingOrders,
        ),
    }
}

/// What a list of orders comes to.
pub open spec fn orders_listed(reply: StoreReplyView) -> ProgressView<
    ListingOrders,
    Seq<OrderView>,
> {
    match reply {
        StoreReplyView::Orders(orders) => ProgressView::Finished(Ok(orders)),
        StoreReplyView::Failed(text) => store_failed(text),
        _ => overflowed(),
    }
}

impl ListingOrders {
    pub fn resume(self, reply: StoreReply) -> (r: Progress<ListingOrders, Vec<Order>>)
        requires
            reply@ is Orders || reply@ is Failed,
        ensures
            r@ == orders_listed(reply@),
    {
        Progress::Finished(reply.into_orders())
    }
}

/// Lists the user's order history.
pub fn list_orders(session: Result<Claims, AppError>, query: LimitQuery) -> (r: Progress<
    ListingOrders,
    Vec<Order>,
>)
    ensures
        r@ == order_listing(claims_result(session), query@),
{
    match session {
        Err(e) => Progress::Finished(Err(e)),
        Ok(claims) => Progress::Ask(
            StoreRequest::ListOrdersForUser(claims.sub, limit_or(query.limit, 50, 500)),
            ListingOrders,
        ),
    }
}

/// A position after a locked quantity has come back: its average price stays as it was.
pub open spec fn position_after_unlock(
    existing: Option<PositionView>,
    user_id: Seq<char>,
    symbol: Seq<char>,
    locked_qty: DecimalView,
    now: TimestampView,
) -> Option<PositionView> {
    match decimal_sum(held_quantity(existing), locked_qty) {
        Some(quantity) => Some(
            PositionView {
                user_id,
                symbol,
                quantity,
                avg_buy_price: match existing {
                    Some(p) => p.avg_buy_price,
                    None => decimal_zero(),
                },
                updated_at: now,
            },
        ),
        None => None,
    }
}

fn unlock_position(
    existing: Option<&Position>,
    user_id: String,
    symbol: String,
    locked_qty: Decimal,
    now: Timestamp,
) -> (r: Option<Position>)
    ensures
        r.deep_view() == position_after_unlock(
            match existing {
                Some(p) => Some(p@),
                None => None,
            },
            user_id@,
            symbol@,
            locked_qty@,
            now@,
        ),
{
    let (held, avg_buy_price) = match existing {
        Some(p) => (p.quantity, p.avg_buy_price),
        None => (Decimal::zero(), Decimal::zero()),
    };
    let quantity = held.plus(&locked_qty)?;
    Some(Position { user_id, symbol, quantity, avg_buy_price, updated_at: now })
}

/// A cancellation on its way: what is known, and what the store was asked last.
#[derive(Debug)]
pub enum Canceling {
    /// The order is not in the book; what it is, the store says.
    NotInBook { order_id: String, caller: String },
    /// The order is out of the book, and its record is being read.
    ReadingOrder { pending: PendingLimitOrder },
    /// The user whom the locked funds go back to is being read.
    ReadingUser { pending: PendingLimitOrder, order: Order },
    /// The user's positions are being read.
    ReadingPositions { pending: PendingLimitOrder, order: Order, holder: String },
    /// The locked funds go back.
    ReturningFunds { order_id: String, order: Order },
    /// The order is being written as canceled.
    WritingOrder { order_id: String },
}

#[verifier::ext_equal]
pub enum CancelingView {
    NotInBook { order_id: Seq<char>, caller: Seq<char> },
    ReadingOrder { pending: PendingLimitOrderView },
    ReadingUser { pending: PendingLimitOrderView, order: OrderView },
    ReadingPositions { pending: PendingLimitOrderView, order: OrderView, holder: Seq<char> },
    ReturningFunds { order_id: Seq<char>, order: OrderView },
    WritingOrder { order_id: Seq<char> },
}

impl View for Canceling {
    type V = CancelingView;

    open spec fn view(&self) -> CancelingView {
        match self {
            Canceling::NotInBook { order_id, caller } => CancelingView::NotInBook {
                order_id: order_id@,
                caller: caller@,
            },
            Canceling::ReadingOrder { pending } => CancelingView::ReadingOrder {
                pending: pending@,
            },
            Canceling::ReadingUser { pending, order } => CancelingView::ReadingUser {
                pending: pending@,
                order: order@,
            },
            Canceling::ReadingPositions { pending, order, holder } => {
                CancelingView::ReadingPositions {
                    pending: pending@,
                    order: order@,
                    holder: holder@,
                }
            },
            Canceling::ReturningFunds { order_id, order } => CancelingView::ReturningFunds {
                order_id: order_id@,
                order: order@,
            },
            Canceling::WritingOrder { order_id } => CancelingView::WritingOrder {
                order_id: order_id@,
            },
        }
    }
}

/// The book without the order that is to be canceled. An order of someone else goes back to the
/// end.
pub open spec fn book_after_cancel(
    session: Result<ClaimsView, AppErrorView>,
    order_id: Seq<char>,
    book: Seq<PendingLimitOrderView>,
) -> Seq<PendingLimitOrderView> {
    let place = place_in_book(book, order_id);
    match session {
        Err(_) => book,
        Ok(claims) => if place == book.len() {
            book
        } else if book[place].user_id != claims.sub {
            book.remove(place).push(book[place])
        } else {
            book.remove(place)
        },
    }
}

/// A cancellation begins: only the user who placed an order can cancel it.
pub open spec fn cancellation(
    session: Result<ClaimsView, AppErrorView>,
    order_id: Seq<char>,
    book: Seq<PendingLimitOrderView>,
) -> ProgressView<CancelingView, Seq<char>> {
    let place = place_in_book(book, order_id);
    match session {
        Err(e) => ProgressView::Finished(Err(e)),
        Ok(claims) => if place == book.len() {
            ProgressView::Ask(
                StoreRequestView::GetOrderById(order_id),
                CancelingView::NotInBook { order_id, caller: claims.sub },
            )
        } else if book[place].user_id != claims.sub {
            ProgressView::Finished(Err(AppErrorView::Forbidden("Order does not belong to you"@)))
        } else {
            ProgressView::Ask(
                StoreRequestView::GetOrderById(order_id),
                CancelingView::ReadingOrder { pending: book[place] },
            )
        },
    }
}

/// Why an order that is not in the book is not canceled.
pub open spec fn cancel_refused(
    order_id: Seq<char>,
    caller: Seq<char>,
    order: Option<OrderView>,
) -> AppErrorView {
    match order {
        None => AppErrorView::NotFound("Order "@ + order_id + " not found"@),
        Some(order) => if order.user_id != caller {
            AppErrorView::Forbidden("Order does not belong to you"@)
        } else {
            AppErrorView::BadRequest("Order cannot be canceled: status is "@ + order.status.name())
        },
    }
}

/// The funds that were locked for an order go back: USDC of a purchase to the balance; for the
/// quantity of a sale, the positions are read first.
pub open spec fn returning(
    pending: PendingLimitOrderView,
    order: OrderView,
    user: UserView,
    now: TimestampView,
) -> ProgressView<CancelingView, Seq<char>> {
    match pending.side {
        Side::Buy => match credited(user, pending.locked_usdc, now) {
            None => overflowed(),
            Some(user) => ProgressView::Ask(
                StoreRequestView::InsertUser(user),
                CancelingView::ReturningFunds { order_id: pending.order_id, order },
            ),
        },
        Side::Sell => ProgressView::Ask(
            StoreRequestView::GetPositionsForUser(user.id),
            CancelingView::ReadingPositions { pending, order, holder: user.id },
        ),
    }
}

impl CancelingView {
    /// Whether a reply is one to what the store was asked last.
    pub open spec fn expects(self, reply: StoreReplyView) -> bool {
        reply is Failed || match self {
            CancelingView::NotInBook { .. } => reply is Order,
            CancelingView::ReadingOrder { .. } => reply is Order,
            CancelingView::ReadingUser { .. } => reply is User,
            CancelingView::ReadingPositions { .. } => reply is Positions,
            CancelingView::ReturningFunds { .. } => reply is Inserted,
            CancelingView::WritingOrder { .. } => reply is Inserted,
        }
    }

    /// How the cancellation goes on from a reply. The locked funds are returned before the order
    /// is marked as canceled.
    pub open spec fn next(self, reply: StoreReplyView, now: TimestampView) -> ProgressView<
        CancelingView,
        Seq<char>,
    > {
        match (self, reply) {
            (_, StoreReplyView::Failed(text)) => store_failed(text),
            (CancelingView::NotInBook { order_id, caller }, StoreReplyView::Order(order)) => {
                ProgressView::Finished(Err(cancel_refused(order_id, caller, order)))
            },
            (CancelingView::ReadingOrder { pending }, StoreReplyView::Order(None)) => {
                ProgressView::Finished(
                    Err(
                        AppErrorView::NotFound(
                            "Order "@ + pending.order_id + " not found in DB"@,
                        ),
                    ),
                )
            },
            (CancelingView::ReadingOrder { pending }, StoreReplyView::Order(Some(order))) => {
                ProgressView::Ask(
                    StoreRequestView::GetUserById(pending.user_id),
                    CancelingView::ReadingUser { pending, order },
                )
            },
            (CancelingView::ReadingUser { .. }, StoreReplyView::User(None)) => {
                ProgressView::Finished(Err(AppErrorView::NotFound("User not found"@)))
            },
            (CancelingView::ReadingUser { pending, order }, StoreReplyView::User(Some(user))) => {
                returning(pending, order, user, now)
            },
            (
                CancelingView::ReadingPositions { pending, order, holder },
                StoreReplyView::Positions(positions),
            ) => match position_after_unlock(
                find_position(positions, pending.symbol),
                holder,
                pending.symbol,
                pending.locked_qty,
                now,
            ) {
                None => overflowed(),
                Some(position) => ProgressView::Ask(
                    StoreRequestView::UpsertPosition(position),
                    CancelingView::ReturningFunds { order_id: pending.order_id, order },
                ),
            },
            (CancelingView::ReturningFunds { order_id, order }, _) => ProgressView::Ask(
                StoreRequestView::InsertOrder(with_status(order, OrderStatus::Canceled, now)),
                CancelingView::WritingOrder { order_id },
            ),
            (CancelingView::WritingOrder { order_id }, _) => ProgressView::Finished(Ok(order_id)),
            _ => overflowed(),
        }
    }
}

fn refuse_cancel(order_id: &str, caller: &str, order: Option<Order>) -> (r: AppError)
    ensures
        r@ == cancel_refused(order_id@, caller@, order.deep_view()),
{
    match order {
        None => AppError::NotFound(join3("Order ", order_id, " not found")),
        Some(order) => {
            if !same_text(&order.user_id, caller) {
                AppError::Forbidden("Order does not belong to you".to_owned())
            } else {
                AppError::BadRequest(
                    join2("Order cannot be canceled: status is ", order.status.as_str()),
                )
            }
        },
    }
}

fn return_funds(pending: PendingLimitOrder, order: Order, user: User, now: Timestamp) -> (r:
    Progress<Canceling, String>)
    ensures
        r@ == returning(pending@, order@, user@, now@),
{
    match pending.side {
        Side::Buy => match credit_user(user, pending.locked_usdc, now) {
            None => Progress::Finished(Err(AppError::Overflow)),
            Some(user) => Progress::Ask(
                StoreRequest::InsertUser(user),
                Canceling::ReturningFunds { order_id: pending.order_id, order },
            ),
        },
        Side::Sell => Progress::Ask(
            StoreRequest::GetPositionsForUser(user.id.clone()),
            Canceling::ReadingPositions { pending, order, holder: user.id },
        ),
    }
}

impl Canceling {
    /// Goes on with the store's reply at a given time.
    pub fn resume_at(self, reply: StoreReply, now: Timestamp) -> (r: Progress<Canceling, String>)
        requires
            self@.expects(reply@),
        ensures
            r@ == self@.next(reply@, now@),
    {
        match self {
            Canceling::NotInBook { order_id, caller } => match reply.into_order() {
                Err(e) => Progress::Finished(Err(e)),
                Ok(order) => Progress::Finished(Err(refuse_cancel(&order_id, &caller, order))),
            },
            Canceling::ReadingOrder { pending } => match reply.into_order() {
                Err(e) => Progress::Finished(Err(e)),
                Ok(None) => Progress::Finished(
                    Err(AppError::NotFound(join3("Order ", &pending.order_id, " not found in DB"))),
                ),
                Ok(Some(order)) => Progress::Ask(
                    StoreRequest::GetUserById(pending.user_id.clone()),
                    Canceling::ReadingUser { pending, order },
                ),
            },
            Canceling::ReadingUser { pending, order } => match reply.into_user() {
                Err(e) => Progress::Finished(Err(e)),
                Ok(None) => Progress::Finished(
                    Err(AppError::NotFound("User not found".to_owned())),
                ),
                Ok(Some(user)) => return_funds(pending, order, user, now),
            },
            Canceling::ReadingPositions { pending, order, holder } => {
                match reply.into_positions() {
                    Err(e) => Progress::Finished(Err(e)),
                    Ok(positions) => {
                        let existing = position_in(&positions, &pending.symbol);
                        match unlock_position(
                            existing,
                            holder,
                            pending.symbol.clone(),
                            pending.locked_qty,
                            now,
                        ) {
                            None => Progress::Finished(Err(AppError::Overflow)),
                            Some(position) => Progress::Ask(
                                StoreRequest::UpsertPosition(position),
                                Canceling::ReturningFunds { order_id: pending.order_id, order },
                            ),
                        }
                    },
                }
            },
            Canceling::ReturningFunds { order_id, order } => match reply.into_inserted() {
                Err(e) => Progress::Finished(Err(e)),
                Ok(_) => Progress::Ask(
                    StoreRequest::InsertOrder(
                        update_order_status(order, OrderStatus::Canceled, now),
                    ),
                    Canceling::WritingOrder { order_id },
                ),
            },
            Canceling::WritingOrder { order_id } => match reply.into_inserted() {
                Err(e) => Progress::Finished(Err(e)),
                Ok(_) => Progress::Finished(Ok(order_id)),
            },
        }
    }

    /// Goes on with the store's reply.
    pub fn resume(self, reply: StoreReply) -> (r: Progress<Canceling, String>)
        requires
            self@.expects(reply@),
        ensures
            exists|now: TimestampView|
                is_clock_reading(now) && r@ == #[trigger] self@.next(reply@, now),
    {
        let now = Timestamp::now();
        self.resume_at(reply, now)
    }
}

/// Cancels a pending limit order: takes it out of the book, and begins to return what was locked
/// for it. What comes of it in the end is the order's id.
pub fn cancel_order(
    session: Result<Claims, AppError>,
    order_id: String,
    book: &mut OrderBook,
) -> (r: Progress<Canceling, String>)
    ensures
        r@ == cancellation(claims_result(session), order_id@, old(book)@),
        final(book)@ == book_after_cancel(claims_result(session), order_id@, old(book)@),
{
    let claims = match session {
        Ok(claims) => claims,
        Err(e) => return Progress::Finished(Err(e)),
    };
    match book.remove(&order_id) {
        None => Progress::Ask(
            StoreRequest::GetOrderById(order_id.clone()),
            Canceling::NotInBook { order_id, caller: claims.sub },
        ),
        Some(pending) => {
            if !same_text(&pending.user_id, &claims.sub) {
                book.add(pending);
                Progress::Finished(
                    Err(AppError::Forbidden("Order does not belong to you".to_owned())),
                )
            } else {
                Progress::Ask(
                    StoreRequest::GetOrderById(order_id),
                    Canceling::ReadingOrder { pending },
                )
            }
        },
    }
}

/// Without a valid session nothing is asked of the store, the book stays as it is, and the answer
/// is why the session is not valid.
pub proof fn law_no_session_no_order(
    refused: AppErrorView,
    body: PlaceOrderRequestView,
    query: LimitQueryView,
    order_id: Seq<char>,
    book: Seq<PendingLimitOrderView>,
)
    ensures
        submission(Err(refused), body) == ProgressView::<SubmittingView, OrderView>::Finished(
            Err(refused),
        ),
        order_listing(Err(refused), query) == ProgressView::<
            ListingOrders,
            Seq<OrderView>,
        >::Finished(Err(refused)),
        cancellation(Err(refused), order_id, book) == ProgressView::<
            CancelingView,
            Seq<char>,
        >::Finished(Err(refused)),
        book_after_cancel(Err(refused), order_id, book) == book,
{
}

/// Only who placed an order takes it out of the book: a cancellation by anyone else is forbidden,
/// and the book holds the same orders as before.
pub proof fn law_others_cannot_cancel(
    claims: ClaimsView,
    order_id: Seq<char>,
    book: Seq<PendingLimitOrderView>,
)
    requires
        place_in_book(book, order_id) < book.len(),
        book[place_in_book(book, order_id)].user_id != claims.sub,
    ensures
        cancellation(Ok(claims), order_id, book) == ProgressView::<
            CancelingView,
            Seq<char>,
        >::Finished(Err(AppErrorView::Forbidden("Order does not belong to you"@))),
        book_after_cancel(Ok(claims), order_id, book).to_multiset() == book.to_multiset(),
{
    broadcast use vstd::seq_lib::group_to_multiset_ensures;

    lemma_place(book, order_id);
    let place = place_in_book(book, order_id);
    let rest = book.remove(place);
    assert(book.to_multiset() =~= rest.push(book[place]).to_multiset());
}

/// No list is longer than its largest limit.
pub proof fn law_lists_are_bounded(limit: Option<u32>, default: u32, largest: u32)
    ensures
        bounded_limit(limit, default, largest) <= largest,
        limit matches Some(n) ==> (n <= largest ==> bounded_limit(limit, default, largest) == n),
        limit is None && default <= largest ==> bounded_limit(limit, default, largest) == default,
{
}

} // verus!
