//! What the exchange asks of its store, what the store replies, and how a request that needs the
//! store goes on from one reply to the next.
//!
//! The store itself is outside: whoever runs a request performs each question in turn and hands
//! the reply back.

use vstd::prelude::*;

use crate::error::{AppError, AppErrorView};
use crate::models::{Order, OrderView, Position, PositionView, User, UserView};

verus! {

/// One query or one insertion.
#[derive(Debug)]
pub enum StoreRequest {
    GetUserByUsername(String),
    GetUserById(String),
    ListUsers,
    InsertUser(User),
    GetOrderById(String),
    InsertOrder(Order),
    ListOrdersForUser(String, u32),
    ListAllOrders(u32),
    UpsertPosition(Position),
    GetPositionsForUser(String),
}

#[verifier::ext_equal]
pub enum StoreRequestView {
    GetUserByUsername(Seq<char>),
    GetUserById(Seq<char>),
    ListUsers,
    InsertUser(UserView),
    GetOrderById(Seq<char>),
    InsertOrder(OrderView),
    ListOrdersForUser(Seq<char>, u32),
    ListAllOrders(u32),
    UpsertPosition(PositionView),
    GetPositionsForUser(Seq<char>),
}

impl View for StoreRequest {
    type V = StoreRequestView;

    open spec fn view(&self) -> StoreRequestView {
        match self {
            StoreRequest::GetUserByUsername(name) => StoreRequestView::GetUserByUsername(name@),
            StoreRequest::GetUserById(id) => StoreRequestView::GetUserById(id@),
            StoreRequest::ListUsers => StoreRequestView::ListUsers,
            StoreRequest::InsertUser(user) => StoreRequestView::InsertUser(user@),
            StoreRequest::GetOrderById(id) => StoreRequestView::GetOrderById(id@),
            StoreRequest::InsertOrder(order) => StoreRequestView::InsertOrder(order@),
            StoreRequest::ListOrdersForUser(id, limit) => StoreRequestView::ListOrdersForUser(
                id@,
                *limit,
            ),
            StoreRequest::ListAllOrders(limit) => StoreRequestView::ListAllOrders(*limit),
            StoreRequest::UpsertPosition(position) => StoreRequestView::UpsertPosition(position@),
            StoreRequest::GetPositionsForUser(id) => StoreRequestView::GetPositionsForUser(id@),
        }
    }
}

#[derive(Debug)]
pub enum StoreReply {
    User(Option<User>),
    Users(Vec<User>),
    Order(Option<Order>),
    Orders(Vec<Order>),
    Positions(Vec<Position>),
    /// What was to be inserted is inserted.
    Inserted,
    /// The store failed, with its message.
    Failed(String),
}

#[verifier::ext_equal]
pub enum StoreReplyView {
    User(Option<UserView>),
    Users(Seq<UserView>),
    Order(Option<OrderView>),
    Orders(Seq<OrderView>),
    Positions(Seq<PositionView>),
    Inserted,
    Failed(Seq<char>),
}

impl View for StoreReply {
    type V = StoreReplyView;

    open spec fn view(&self) -> StoreReplyView {
        match self {
            StoreReply::User(user) => StoreReplyView::User(user.deep_view()),
            StoreReply::Users(users) => StoreReplyView::Users(users.deep_view()),
            StoreReply::Order(order) => StoreReplyView::Order(order.deep_view()),
            StoreReply::Orders(orders) => StoreReplyView::Orders(orders.deep_view()),
            StoreReply::Positions(positions) => StoreReplyView::Positions(positions.deep_view()),
            StoreReply::Inserted => StoreReplyView::Inserted,
            StoreReply::Failed(text) => StoreReplyView::Failed(text@),
        }
    }
}

impl StoreRequestView {
    /// Whether a reply is one to this request.
    pub open spec fn answered_by(self, reply: StoreReplyView) -> bool {
        reply is Failed || match self {
            StoreRequestView::GetUserByUsername(_) => reply is User,
            StoreRequestView::GetUserById(_) => reply is User,
            StoreRequestView::ListUsers => reply is Users,
            StoreRequestView::InsertUser(_) => reply is Inserted,
            StoreRequestView::GetOrderById(_) => reply is Order,
            StoreRequestView::InsertOrder(_) => reply is Inserted,
            StoreRequestView::ListOrdersForUser(_, _) => reply is Orders,
            StoreRequestView::ListAllOrders(_) => reply is Orders,
            StoreRequestView::UpsertPosition(_) => reply is Inserted,
            StoreRequestView::GetPositionsForUser(_) => reply is Positions,
        }
    }
}

impl StoreRequest {
    /// Checks that a reply is one to this request.
    pub fn accepts(&self, reply: &StoreReply) -> (r: bool)
        ensures
            r == self@.answered_by(reply@),
    {
        match reply {
            StoreReply::Failed(_) => return true,
            _ => {},
        }
        match self {
            StoreRequest::GetUserByUsername(_) | StoreRequest::GetUserById(_) => matches!(
                reply,
                StoreReply::User(_)
            ),
            StoreRequest::ListUsers => matches!(reply, StoreReply::Users(_)),
            StoreRequest::GetOrderById(_) => matches!(reply, StoreReply::Order(_)),
            StoreRequest::ListOrdersForUser(_, _) | StoreRequest::ListAllOrders(_) => matches!(
                reply,
                StoreReply::Orders(_)
            ),
            StoreRequest::GetPositionsForUser(_) => matches!(reply, StoreReply::Positions(_)),
            StoreRequest::InsertUser(_) | StoreRequest::InsertOrder(_)
            | StoreRequest::UpsertPosition(_) => matches!(reply, StoreReply::Inserted),
        }
    }
}

impl StoreReply {
    /// Nothing, from the reply to an insertion.
    pub fn into_inserted(self) -> (r: Result<(), AppError>)
        requires
            self@ is Inserted || self@ is Failed,
        ensures
            match r {
                Ok(_) => self@ is Inserted,
                Err(e) => self@ is Failed && e@ == AppErrorView::Clickhouse(self@->Failed_0),
            },
    {
        match self {
            StoreReply::Failed(text) => Err(AppError::Clickhouse(text)),
            _ => Ok(()),
        }
    }

    pub fn into_user(self) -> (r: Result<Option<User>, AppError>)
        requires
            self@ is User || self@ is Failed,
        ensures
            match r {
                Ok(user) => self@ == StoreReplyView::User(user.deep_view()),
                Err(e) => self@ is Failed && e@ == AppErrorView::Clickhouse(self@->Failed_0),
            },
    {
        match self {
            StoreReply::User(user) => Ok(user),
            StoreReply::Failed(text) => Err(AppError::Clickhouse(text)),
            _ => Ok(None),
        }
    }

    pub fn into_users(self) -> (r: Result<Vec<User>, AppError>)
        requires
            self@ is Users || self@ is Failed,
        ensures
            match r {
                Ok(users) => self@ == StoreReplyView::Users(users.deep_view()),
                Err(e) => self@ is Failed && e@ == AppErrorView::Clickhouse(self@->Failed_0),
            },
    {
        match self {
            StoreReply::Users(users) => Ok(users),
            StoreReply::Failed(text) => Err(AppError::Clickhouse(text)),
            _ => Ok(Vec::new()),
        }
    }

    pub fn into_order(self) -> (r: Result<Option<Order>, AppError>)
        requires
            self@ is Order || self@ is Failed,
        ensures
            match r {
                Ok(order) => self@ == StoreReplyView::Order(order.deep_view()),
                Err(e) => self@ is Failed && e@ == AppErrorView::Clickhouse(self@->Failed_0),
            },
    {
        match self {
            StoreReply::Order(order) => Ok(order),
            StoreReply::Failed(text) => Err(AppError::Clickhouse(text)),
            _ => Ok(None),
        }
    }

    pub fn into_orders(self) -> (r: Result<Vec<Order>, AppError>)
        requires
            self@ is Orders || self@ is Failed,
        ensures
            match r {
                Ok(orders) => self@ == StoreReplyView::Orders(orders.deep_view()),
                Err(e) => self@ is Failed && e@ == AppErrorView::Clickhouse(self@->Failed_0),
            },
    {
        match self {
            StoreReply::Orders(orders) => Ok(orders),
            StoreReply::Failed(text) => Err(AppError::Clickhouse(text)),
            _ => Ok(Vec::new()),
        }
    }

    pub fn into_positions(self) -> (r: Result<Vec<Position>, AppError>)
        requires
            self@ is Positions || self@ is Failed,
        ensures
            match r {
                Ok(positions) => self@ == StoreReplyView::Positions(positions.deep_view()),
                Err(e) => self@ is Failed && e@ == AppErrorView::Clickhouse(self@->Failed_0),
            },
    {
        match self {
            StoreReply::Positions(positions) => Ok(positions),
            StoreReply::Failed(text) => Err(AppError::Clickhouse(text)),
            _ => Ok(Vec::new()),
        }
    }
}

/// How far a request has come: it asks the store and waits in a state, or it is finished.
#[derive(Debug)]
pub enum Progress<S, T> {
    Ask(StoreRequest, S),
    Finished(Result<T, AppError>),
}

#[verifier::ext_equal]
pub enum ProgressView<S, T> {
    Ask(StoreRequestView, S),
    Finished(Result<T, AppErrorView>),
}

impl<S: View, T: DeepView> View for Progress<S, T> {
    type V = ProgressView<S::V, T::V>;

    open spec fn view(&self) -> ProgressView<S::V, T::V> {
        match self {
            Progress::Ask(request, state) => ProgressView::Ask(request@, state@),
            Progress::Finished(Ok(value)) => ProgressView::Finished(Ok(value.deep_view())),
            Progress::Finished(Err(error)) => ProgressView::Finished(Err(error@)),
        }
    }
}

/// A request that the store failed is answered with the store's message.
pub open spec fn store_failed<S, T>(text: Seq<char>) -> ProgressView<S, T> {
    ProgressView::Finished(Err(AppErrorView::Clickhouse(text)))
}

/// A request that left the range of its numbers.
pub open spec fn overflowed<S, T>() -> ProgressView<S, T> {
    ProgressView::Finished(Err(AppErrorView::Overflow))
}

} // verus!
