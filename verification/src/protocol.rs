//! A request is always ready for the store's reply: whatever it asks, it can go on from every
//! reply to that question.

use vstd::prelude::*;

use crate::api::account::{account_request, pnl_request, ReadingAccountView, ReadingPnlView};
use crate::api::admin::{
    balance_update, user_creation, CreatedUserView, CreatingUserView, UpdatedBalanceView,
    UpdatingBalanceView,
};
use crate::api::auth::{registration, RegisterRequestView, RegisteringView};
use crate::api::orders::{cancellation, submission, submitted, CancelingView, SubmittingView};
use crate::auth::ClaimsView;
use crate::decimal::DecimalView;
use crate::engine::{placement, PlacedView, PlacingView};
use crate::error::AppErrorView;
use crate::models::{
    AccountResponseView, CreateUserRequestView, LoginResponseView, OrderType, PlaceOrderRequestView,
    PnlStatsView, Side, UpdateBalanceRequestView, UserView,
};
use crate::order_book::{filling, FillingView, PendingLimitOrderView};
use crate::store::{store_failed, ProgressView, StoreReplyView};
use crate::timestamp::TimestampView;
use crate::ws_client::QuoteView;

verus! {

/// Whether a request that asks the store can go on from every reply.
pub open spec fn ready<S, T>(
    progress: ProgressView<S, T>,
    expects: spec_fn(S, StoreReplyView) -> bool,
) -> bool {
    progress matches ProgressView::Ask(request, state) ==> forall|reply: StoreReplyView| #[trigger]
        request.answered_by(reply) ==> expects(state, reply)
}

pub open spec fn placing_ready(progress: ProgressView<PlacingView, PlacedView>) -> bool {
    ready(progress, |state: PlacingView, reply: StoreReplyView| state.expects(reply))
}

/// Placing an order, from its beginning and from every reply on.
pub proof fn law_placing_is_ready(
    symbols: Seq<Seq<char>>,
    quotes: Map<Seq<char>, QuoteView>,
    user: UserView,
    raw_symbol: Seq<char>,
    side: Side,
    amount: DecimalView,
    order_type: OrderType,
    limit_price: Option<DecimalView>,
    id: Seq<char>,
    now: TimestampView,
    state: PlacingView,
    reply: StoreReplyView,
)
    ensures
        placing_ready(
            placement(
                symbols,
                quotes,
                user,
                raw_symbol,
                side,
                amount,
                order_type,
                limit_price,
                id,
                now,
            ),
        ),
        state.expects(reply) ==> placing_ready(state.next(reply)),
{
}

/// Filling a pending order, from its beginning and from every reply on.
pub proof fn law_filling_is_ready(
    pending: PendingLimitOrderView,
    exec_price: DecimalView,
    now: TimestampView,
    state: FillingView,
    reply: StoreReplyView,
)
    ensures
        ready(
            filling(pending, exec_price, now),
            |state: FillingView, reply: StoreReplyView| state.expects(reply),
        ),
        state.expects(reply) ==> ready(
            state.next(reply),
            |state: FillingView, reply: StoreReplyView| state.expects(reply),
        ),
{
}

/// Canceling an order, from its beginning and from every reply on.
pub proof fn law_canceling_is_ready(
    session: Result<ClaimsView, AppErrorView>,
    order_id: Seq<char>,
    book: Seq<PendingLimitOrderView>,
    now: TimestampView,
    state: CancelingView,
    reply: StoreReplyView,
)
    ensures
        ready(
            cancellation(session, order_id, book),
            |state: CancelingView, reply: StoreReplyView| state.expects(reply),
        ),
        state.expects(reply) ==> ready(
            state.next(reply, now),
            |state: CancelingView, reply: StoreReplyView| state.expects(reply),
        ),
{
}

/// A request for an order, from its beginning and from every reply on.
pub proof fn law_submitting_is_ready(
    session: Result<ClaimsView, AppErrorView>,
    body: PlaceOrderRequestView,
    symbols: Seq<Seq<char>>,
    quotes: Map<Seq<char>, QuoteView>,
    id: Seq<char>,
    now: TimestampView,
    state: SubmittingView,
    reply: StoreReplyView,
)
    ensures
        ready(
            submission(session, body),
            |state: SubmittingView, reply: StoreReplyView| state.expects(reply),
        ),
        state.expects(reply) ==> ready(
            submitted(state.next(reply, symbols, quotes, id, now)),
            |state: SubmittingView, reply: StoreReplyView| state.expects(reply),
        ),
{
}

/// The requests for the account and for the profit and loss, from their beginning and from every
/// reply on.
pub proof fn law_account_is_ready(
    session: Result<ClaimsView, AppErrorView>,
    account: ReadingAccountView,
    pnl: ReadingPnlView,
    quotes: Map<Seq<char>, QuoteView>,
    reply: StoreReplyView,
)
    ensures
        ready(
            account_request(session),
            |state: ReadingAccountView, reply: StoreReplyView| state.expects(reply),
        ),
        account.expects(reply) ==> ready(
            account.next(reply),
            |state: ReadingAccountView, reply: StoreReplyView| state.expects(reply),
        ),
        ready(
            pnl_request(session),
            |state: ReadingPnlView, reply: StoreReplyView| state.expects(reply),
        ),
        pnl.expects(reply) ==> ready(
            pnl.next(reply, quotes),
            |state: ReadingPnlView, reply: StoreReplyView| state.expects(reply),
        ),
{
}

/// A registration, from its beginning and from every reply on.
pub proof fn law_registering_is_ready(
    body: RegisterRequestView,
    hashed: Result<Seq<char>, Seq<char>>,
    state: RegisteringView,
    reply: StoreReplyView,
    secret: Seq<char>,
    expiry_hours: u64,
    id: Seq<char>,
    now: TimestampView,
)
    ensures
        ready(
            registration(body, hashed),
            |state: RegisteringView, reply: StoreReplyView| state.expects(reply),
        ),
        state.expects(reply) ==> ready(
            state.next(reply, secret, expiry_hours, id, now),
            |state: RegisteringView, reply: StoreReplyView| state.expects(reply),
        ),
{
}

/// The creation of a user and the change of a balance, from their beginning and from every reply
/// on.
pub proof fn law_administration_is_ready(
    session: Result<ClaimsView, AppErrorView>,
    body: CreateUserRequestView,
    hashed: Result<Seq<char>, Seq<char>>,
    user_id: Seq<char>,
    balance: UpdateBalanceRequestView,
    creating: CreatingUserView,
    updating: UpdatingBalanceView,
    reply: StoreReplyView,
    id: Seq<char>,
    now: TimestampView,
)
    ensures
        ready(
            user_creation(session, body, hashed),
            |state: CreatingUserView, reply: StoreReplyView| state.expects(reply),
        ),
        creating.expects(reply) ==> ready(
            creating.next(reply, id, now),
            |state: CreatingUserView, reply: StoreReplyView| state.expects(reply),
        ),
        ready(
            balance_update(session, user_id, balance),
            |state: UpdatingBalanceView, reply: StoreReplyView| state.expects(reply),
        ),
        updating.expects(reply) ==> ready(
            updating.next(reply, now),
            |state: UpdatingBalanceView, reply: StoreReplyView| state.expects(reply),
        ),
{
}

/// Whatever a request was waiting for, when the store fails the answer is the store's message.
pub proof fn law_failures_are_reported(
    text: Seq<char>,
    placing: PlacingView,
    filling: FillingView,
    canceling: CancelingView,
    account: ReadingAccountView,
    pnl: ReadingPnlView,
    registering: RegisteringView,
    creating: CreatingUserView,
    updating: UpdatingBalanceView,
    quotes: Map<Seq<char>, QuoteView>,
    secret: Seq<char>,
    expiry_hours: u64,
    id: Seq<char>,
    now: TimestampView,
)
    ensures
        ({
            let failed = StoreReplyView::Failed(text);
            &&& placing.next(failed) == store_failed::<PlacingView, PlacedView>(text)
            &&& filling.next(failed) == store_failed::<FillingView, ()>(text)
            &&& canceling.next(failed, now) == store_failed::<CancelingView, Seq<char>>(text)
            &&& account.next(failed) == store_failed::<ReadingAccountView, AccountResponseView>(
                text,
            )
            &&& pnl.next(failed, quotes) == store_failed::<ReadingPnlView, PnlStatsView>(text)
            &&& registering.next(failed, secret, expiry_hours, id, now) == store_failed::<
                RegisteringView,
                LoginResponseView,
            >(text)
            &&& creating.next(failed, id, now) == store_failed::<CreatingUserView, CreatedUserView>(
                text,
            )
            &&& updating.next(failed, now) == store_failed::<
                UpdatingBalanceView,
                UpdatedBalanceView,
            >(text)
        }),
{
}

} // verus!
