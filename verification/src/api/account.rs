//! The account of the caller: balance, positions, profit and loss.

use vstd::prelude::*;

use crate::auth::{claims_result, Claims, ClaimsView};
use crate::error::{AppError, AppErrorView};
use crate::models::{
    AccountResponse, AccountResponseView, Order, OrderView, PnlStats, PnlStatsView, PositionView,
    User, UserView,
};
use crate::pnl::{pnl_of, pnl_stats};
use crate::store::{
    overflowed, store_failed, Progress, ProgressView, StoreReply, StoreReplyView, StoreRequest,
    StoreRequestView,
};
use crate::ws_client::{quotes_in, PriceCache, QuoteView};

verus! {

/// How many orders the profit and loss is computed from, at most: as many as can be asked for.
pub const PNL_ORDERS: u32 = 4_294_967_295;

/// A request for the account on its way.
#[derive(Debug)]
pub enum ReadingAccount {
    /// The user is being read.
    User,
    /// The user's positions are being read.
    Positions(User),
}

#[verifier::ext_equal]
pub enum ReadingAccountView {
    User,
    Positions(UserView),
}

impl View for ReadingAccount {
    type V = ReadingAccountView;

    open spec fn view(&self) -> ReadingAccountView {
        match self {
            ReadingAccount::User => ReadingAccountView::User,
            ReadingAccount::Positions(user) => ReadingAccountView::Positions(user@),
        }
    }
}

/// A request for the account begins.
pub open spec fn account_request(session: Result<ClaimsView, AppErrorView>) -> ProgressView<
    ReadingAccountView,
    AccountResponseView,
> {
    match session {
        Err(e) => ProgressView::Finished(Err(e)),
        Ok(claims) => ProgressView::Ask(
            StoreRequestView::GetUserById(claims.sub),
            ReadingAccountView::User,
        ),
    }
}

/// What a client sees of an account.
pub open spec fn account_of(user: UserView, positions: Seq<PositionView>) -> AccountResponseView {
    AccountResponseView {
        user_id: user.id,
        username: user.username,
        role: user.role,
        balance_usdc: user.balance_usdc,
        positions,
    }
}

impl ReadingAccountView {
    /// Whether a reply is one to what the store was asked last.
    pub open spec fn expects(self, reply: StoreReplyView) -> bool {
        reply is Failed || match self {
            ReadingAccountView::User => reply is User,
            ReadingAccountView::Positions(_) => reply is Positions,
        }
    }

    /// How the request goes on from a reply.
    pub open spec fn next(self, reply: StoreReplyView) -> ProgressView<
        ReadingAccountView,
        AccountResponseView,
    > {
        match (self, reply) {
            (_, StoreReplyView::Failed(text)) => store_failed(text),
            (ReadingAccountView::User, StoreReplyView::User(Some(user))) => ProgressView::Ask(
                StoreRequestView::GetPositionsForUser(user.id),
                ReadingAccountView::Positions(user),
            ),
            (ReadingAccountView::User, _) => ProgressView::Finished(
                Err(AppErrorView::NotFound("User not found"@)),
            ),
            (ReadingAccountView::Positions(user), StoreReplyView::Positions(positions)) => {
                ProgressView::Finished(Ok(account_of(user, positions)))
            },
            _ => overflowed(),
        }
    }
}

impl ReadingAccount {
    /// Goes on with the store's reply.
    pub fn resume(self, reply: StoreReply) -> (r: Progress<ReadingAccount, AccountResponse>)
        requires
            self@.expects(reply@),
        ensures
            r@ == self@.next(reply@),
    {
        match self {
            ReadingAccount::User => match reply.into_user() {
                Err(e) => Progress::Finished(Err(e)),
                Ok(None) => Progress::Finished(
                    Err(AppError::NotFound("User not found".to_owned())),
                ),
                Ok(Some(user)) => Progress::Ask(
                    StoreRequest::GetPositionsForUser(user.id.clone()),
                    ReadingAccount::Positions(user),
                ),
            },
            ReadingAccount::Positions(user) => match reply.into_positions() {
                Err(e) => Progress::Finished(Err(e)),
                Ok(positions) => Progress::Finished(
                    Ok(
                        AccountResponse {
                            user_id: user.id,
                            username: user.username,
                            role: user.role,
                            balance_usdc: user.balance_usdc,
                            positions,
                        },
                    ),
                ),
            },
        }
    }
}

/// Returns the caller's balance and open positions.
pub fn get_account(session: Result<Claims, AppError>) -> (r: Progress<
    ReadingAccount,
    AccountResponse,
>)
    ensures
        r@ == account_request(claims_result(session)),
{
    match session {
        Err(e) => Progress::Finished(Err(e)),
        Ok(claims) => Progress::Ask(StoreRequest::GetUserById(claims.sub), ReadingAccount::User),
    }
}

/// A request for the profit and loss on its way.
#[derive(Debug)]
pub enum ReadingPnl {
    /// The user's orders are being read.
    Orders(String),
    /// The user's positions are being read.
    Positions(Vec<Order>),
}

#[verifier::ext_equal]
pub enum ReadingPnlView {
    Orders(Seq<char>),
    Positions(Seq<OrderView>),
}

impl View for ReadingPnl {
    type V = ReadingPnlView;

    open spec fn view(&self) -> ReadingPnlView {
        match self {
            ReadingPnl::Orders(user_id) => ReadingPnlView::Orders(user_id@),
            ReadingPnl::Positions(orders) => ReadingPnlView::Positions(orders.deep_view()),
        }
    }
}

/// A request for the profit and loss begins.
pub open spec fn pnl_request(session: Result<ClaimsView, AppErrorView>) -> ProgressView<
    ReadingPnlView,
    PnlStatsView,
> {
    match session {
        Err(e) => ProgressView::Finished(Err(e)),
        Ok(claims) => ProgressView::Ask(
            StoreRequestView::ListOrdersForUser(claims.sub, PNL_ORDERS),
            ReadingPnlView::Orders(claims.sub),
        ),
    }
}

impl ReadingPnlView {
    /// Whether a reply is one to what the store was asked last.
    pub open spec fn expects(self, reply: StoreReplyView) -> bool {
        reply is Failed || match self {
            ReadingPnlView::Orders(_) => reply is Orders,
            ReadingPnlView::Positions(_) => reply is Positions,
        }
    }

    /// How the request goes on from a reply.
    pub open spec fn next(
        self,
        reply: StoreReplyView,
        quotes: Map<Seq<char>, QuoteView>,
    ) -> ProgressView<ReadingPnlView, PnlStatsView> {
        match (self, reply) {
            (_, StoreReplyView::Failed(text)) => store_failed(text),
            (ReadingPnlView::Orders(user_id), StoreReplyView::Orders(orders)) => ProgressView::Ask(
                StoreRequestView::GetPositionsForUser(user_id),
                ReadingPnlView::Positions(orders),
            ),
            (ReadingPnlView::Positions(orders), StoreReplyView::Positions(positions)) => {
                match pnl_of(orders, positions, quotes) {
                    Some(stats) => ProgressView::Finished(Ok(stats)),
                    None => overflowed(),
                }
            },
            _ => overflowed(),
        }
    }
}

impl ReadingPnl {
    /// Goes on with the store's reply, at the live prices.
    pub fn resume(self, reply: StoreReply, prices: &PriceCache) -> (r: Progress<
        ReadingPnl,
        PnlStats,
    >)
        requires
            self@.expects(reply@),
        ensures
            r@ == self@.next(reply@, quotes_in(*prices)),
    {
        match self {
            ReadingPnl::Orders(user_id) => match reply.into_orders() {
                Err(e) => Progress::Finished(Err(e)),
                Ok(orders) => Progress::Ask(
                    StoreRequest::GetPositionsForUser(user_id),
                    ReadingPnl::Positions(orders),
                ),
            },
            ReadingPnl::Positions(orders) => match reply.into_positions() {
                Err(e) => Progress::Finished(Err(e)),
                Ok(positions) => match pnl_stats(&orders, &positions, prices) {
                    Some(stats) => Progress::Finished(Ok(stats)),
                    None => Progress::Finished(Err(AppError::Overflow)),
                },
            },
        }
    }
}

/// Returns realized and unrealized profit and loss of the caller.
pub fn get_pnl(session: Result<Claims, AppError>) -> (r: Progress<ReadingPnl, PnlStats>)
    ensures
        r@ == pnl_request(claims_result(session)),
{
    match session {
        Err(e) => Progress::Finished(Err(e)),
        Ok(claims) => Progress::Ask(
            StoreRequest::ListOrdersForUser(claims.sub.clone(), PNL_ORDERS),
            ReadingPnl::Orders(claims.sub),
        ),
    }
}

} // verus!
