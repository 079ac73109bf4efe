//! The single steps that orders are made of: what each does to a position, a balance, an entry in
//! the book.

use vstd::prelude::*;

use crate::api::orders::{
    book_after_cancel, cancellation, position_after_unlock, CancelingView,
};
use crate::auth::ClaimsView;
use crate::decimal::{
    decimal_difference, decimal_sum, decimal_zero, lemma_zero_less, DecimalView,
};
use crate::engine::{
    find_position, limit_payment, limit_sell, market_payment, market_sell, position_after_sell,
    PlacedView, PlacingView, TicketView,
};
use crate::models::{OrderStatus, OrderType, OrderView, PositionView, UserView};
use crate::order_book::{
    credited, fill_price, filling, lemma_place, open_order, pending_of, place_in_book, refund,
    FillingView, PendingLimitOrderView,
};
use crate::order_laws::{quantity_of, same_person};
use crate::store::{ProgressView, StoreReplyView, StoreRequestView};
use crate::timestamp::TimestampView;
use crate::ws_client::{lookup, QuoteView};

verus! {

/// A sale takes the amount out of a position, but no more than is there. What is left keeps its
/// average price, and where nothing is left there is none.
pub proof fn law_position_after_sell(
    p: PositionView,
    symbol: Seq<char>,
    amount: DecimalView,
    now: TimestampView,
)
    ensures
        match (
            position_after_sell(p, symbol, amount, now),
            decimal_difference(p.quantity, amount),
        ) {
            (Some(after), Some(rest)) => {
                &&& after.user_id == p.user_id
                &&& after.symbol == symbol
                &&& after.updated_at == now
                &&& rest.mantissa > 0 ==> after.quantity == rest && after.avg_buy_price
                    == p.avg_buy_price
                &&& rest.mantissa <= 0 ==> after.quantity.mantissa == 0 && after.avg_buy_price
                    == decimal_zero()
            },
            (after, rest) => after is None && rest is None,
        },
{
    if let Some(rest) = decimal_difference(p.quantity, amount) {
        lemma_zero_less(rest);
    }
}

/// What was locked joins the position again, whose average price stays, whatever it is; where
/// there is no position any more, it makes one that nothing was paid for.
pub proof fn law_position_after_unlock(
    existing: Option<PositionView>,
    user_id: Seq<char>,
    symbol: Seq<char>,
    locked_qty: DecimalView,
    now: TimestampView,
)
    ensures
        match position_after_unlock(existing, user_id, symbol, locked_qty, now) {
            Some(after) => {
                &&& after.user_id == user_id
                &&& after.symbol == symbol
                &&& after.updated_at == now
                &&& decimal_sum(quantity_of(existing), locked_qty) == Some(after.quantity)
                &&& existing matches Some(p) ==> after.avg_buy_price == p.avg_buy_price
                &&& existing is None ==> after.avg_buy_price == decimal_zero()
            },
            None => decimal_sum(quantity_of(existing), locked_qty) is None,
        },
{
}

/// The position that is found is the first of its symbol, and one is found wherever there is any.
pub proof fn law_position_is_found(positions: Seq<PositionView>, symbol: Seq<char>)
    ensures
        match find_position(positions, symbol) {
            Some(p) => exists|i: int|
                0 <= i < positions.len() && #[trigger] positions[i] == p && p.symbol == symbol && (
                forall|k: int| 0 <= k < i ==> (#[trigger] positions[k]).symbol != symbol),
            None => forall|i: int|
                0 <= i < positions.len() ==> (#[trigger] positions[i]).symbol != symbol,
        },
    decreases positions.len(),
{
    if positions.len() > 0 && positions[0].symbol != symbol {
        let rest = positions.drop_first();
        law_position_is_found(rest, symbol);
        match find_position(positions, symbol) {
            Some(p) => {
                let i = choose|i: int|
                    0 <= i < rest.len() && #[trigger] rest[i] == p && p.symbol == symbol && (forall|
                        k: int,
                    |
                        0 <= k < i ==> (#[trigger] rest[k]).symbol != symbol);
                assert(positions[i + 1] == p);
                assert forall|k: int| 0 <= k < i + 1 implies (#[trigger] positions[k]).symbol
                    != symbol by {
                    if k > 0 {
                        assert(rest[k - 1].symbol != symbol);
                    }
                }
            },
            None => {
                assert forall|i: int| 0 <= i < positions.len() implies (
                #[trigger] positions[i]).symbol != symbol by {
                    if i > 0 {
                        assert(rest[i - 1].symbol != symbol);
                    }
                }
            },
        }
    } else if positions.len() > 0 {
        assert(positions[0].symbol == symbol);
    }
}

/// An order waits in the book as what it is, with what was locked for it.
pub proof fn law_entry_of_order(
    order: OrderView,
    locked_usdc: DecimalView,
    locked_qty: DecimalView,
)
    ensures
        ({
            let entry = pending_of(order, locked_usdc, locked_qty);
            &&& entry.order_id == order.id
            &&& entry.user_id == order.user_id
            &&& entry.symbol == order.symbol
            &&& entry.side == order.side
            &&& entry.amount == order.amount
            &&& entry.created_at == order.created_at
            &&& entry.locked_usdc == locked_usdc
            &&& entry.locked_qty == locked_qty
            &&& order.limit_price matches Some(price) ==> entry.limit_price == price
            &&& order.limit_price is None ==> entry.limit_price == decimal_zero()
        }),
{
}

/// What an entry in the book stands for is the limit order that it was made of, still pending.
pub proof fn law_order_of_entry(
    order: OrderView,
    limit_price: DecimalView,
    locked_usdc: DecimalView,
    locked_qty: DecimalView,
    now: TimestampView,
)
    requires
        order.limit_price == Some(limit_price),
    ensures
        ({
            let again = open_order(pending_of(order, locked_usdc, locked_qty), now);
            &&& again.id == order.id
            &&& again.user_id == order.user_id
            &&& again.symbol == order.symbol
            &&& again.side == order.side
            &&& again.amount == order.amount
            &&& again.limit_price == order.limit_price
            &&& again.created_at == order.created_at
            &&& again.updated_at == now
            &&& again.order_type == OrderType::Limit
            &&& again.status == OrderStatus::Pending
            &&& again.price == decimal_zero()
            &&& again.total_usdc == decimal_zero()
            &&& again.reject_reason is None
        }),
{
}

/// An entry is filled at the live price of its symbol, and at no other: a buy where the price is
/// at most its limit, a sell where it is at least that.
pub proof fn law_fill_price(
    quotes: Map<Seq<char>, QuoteView>,
    entry: PendingLimitOrderView,
    quote: QuoteView,
)
    ensures
        lookup(quotes, entry.symbol) is None ==> fill_price(quotes, entry) is None,
        lookup(quotes, entry.symbol) == Some(quote) ==> match quote.price {
            None => fill_price(quotes, entry) is None,
            Some(price) => {
                &&& fill_price(quotes, entry) matches Some(at) ==> at == price
                &&& entry.side is Buy ==> (fill_price(quotes, entry) is None <==>
                    entry.limit_price.less(price))
                &&& entry.side is Sell ==> (fill_price(quotes, entry) is None <==> price.less(
                    entry.limit_price,
                ))
            },
        },
{
}

/// What was locked for a buy and not spent comes back; where more was spent than was locked,
/// nothing does.
pub proof fn law_refund(locked_usdc: DecimalView, total_usdc: DecimalView)
    ensures
        match (refund(locked_usdc, total_usdc), decimal_difference(locked_usdc, total_usdc)) {
            (Some(back), Some(rest)) => {
                &&& rest.mantissa > 0 ==> back == rest
                &&& rest.mantissa <= 0 ==> back.mantissa == 0
            },
            (back, rest) => back is None && rest is None,
        },
{
    if let Some(rest) = decimal_difference(locked_usdc, total_usdc) {
        lemma_zero_less(rest);
    }
}

/// A credit makes the balance of a user larger by its amount and leaves the user the same.
pub proof fn law_credit(user: UserView, amount: DecimalView, now: TimestampView)
    ensures
        match credited(user, amount, now) {
            Some(after) => same_person(user, after, now) && decimal_sum(user.balance_usdc, amount)
                == Some(after.balance_usdc),
            None => decimal_sum(user.balance_usdc, amount) is None,
        },
{
}

/// Whoever tries to cancel the order of someone else sends it to the end of the book; the other
/// orders keep theirs. Whoever is not logged in changes nothing.
pub proof fn law_refused_cancellation_in_book(
    book: Seq<PendingLimitOrderView>,
    claims: ClaimsView,
    place: int,
)
    requires
        0 <= place < book.len(),
        forall|i: int| 0 <= i < place ==> (#[trigger] book[i]).order_id != book[place].order_id,
        book[place].user_id != claims.sub,
    ensures
        ({
            let after = book_after_cancel(Ok(claims), book[place].order_id, book);
            &&& after.len() == book.len()
            &&& after.last() == book[place]
            &&& forall|i: int| 0 <= i < place ==> #[trigger] after[i] == book[i]
            &&& forall|i: int| place <= i < book.len() - 1 ==> #[trigger] after[i] == book[i + 1]
        }),
{
    lemma_place(book, book[place].order_id);
    let found = place_in_book(book, book[place].order_id);
    assert(found == place) by {
        if found < place {
            assert(book[found].order_id == book[place].order_id);
        } else if place < found {
            assert(book[place].order_id == book[place].order_id);
        }
    }
}

/// Whether a request writes nothing.
pub open spec fn only_reads(request: StoreRequestView) -> bool {
    !(request is InsertUser || request is InsertOrder || request is UpsertPosition)
}

/// The writes of an order that is placed come in this order: the position, the order, the user.
/// What was asked for is answered once all of them are done.
pub proof fn law_order_of_placing(state: PlacingView, reply: StoreReplyView)
    requires
        state.expects(reply),
    ensures
        match state.next(reply) {
            ProgressView::Ask(request, next) => {
                &&& request is UpsertPosition ==> next is WritingPosition && !(
                state is WritingPosition || state is WritingOrder || state is WritingUser)
                &&& request is InsertOrder ==> next is WritingOrder && !(state is WritingOrder
                    || state is WritingUser)
                &&& request is InsertUser ==> next is WritingUser && state is WritingOrder
                &&& !only_reads(request)
            },
            ProgressView::Finished(Ok(_)) => state is WritingOrder || state is WritingUser,
            ProgressView::Finished(Err(_)) => true,
        },
{
}

/// Whether a refused order is recorded as such next and then, where a user is given, that user is
/// written, and nothing else.
pub open spec fn records_refusal(
    progress: ProgressView<PlacingView, PlacedView>,
    user: Option<UserView>,
    reply: StoreReplyView,
) -> bool {
    progress matches ProgressView::Ask(StoreRequestView::InsertOrder(order), state) && {
        let done = ProgressView::<PlacingView, PlacedView>::Finished(Ok((order, None)));
        &&& order.status is Rejected
        &&& match user {
            None => state.next(reply) == done,
            Some(user) => state.next(reply) matches ProgressView::Ask(
                StoreRequestView::InsertUser(written),
                last,
            ) && written == user && last.next(reply) == done,
        }
    }
}

/// For a market order that is rejected the order is written, and the user again as before; for a
/// limit order that is rejected, the order alone.
pub proof fn law_writes_of_rejection(
    ticket: TicketView,
    price: DecimalView,
    total_usdc: DecimalView,
    positions: Seq<PositionView>,
    reply: StoreReplyView,
)
    requires
        reply is Inserted,
    ensures
        ticket.user.balance_usdc.less(total_usdc) ==> {
            &&& records_refusal(
                market_payment(ticket, price, total_usdc),
                Some(ticket.user),
                reply,
            )
            &&& records_refusal(limit_payment(ticket, price, total_usdc), None, reply)
        },
        quantity_of(find_position(positions, ticket.symbol)).less(ticket.amount) ==> {
            &&& records_refusal(
                market_sell(ticket, price, total_usdc, positions),
                Some(ticket.user),
                reply,
            )
            &&& records_refusal(limit_sell(ticket, price, positions), None, reply)
        },
{
}

/// A fill is recorded before it moves anything: first the order is written, then the position of
/// a buy, and last the user.
pub proof fn law_order_of_filling(
    entry: PendingLimitOrderView,
    price: DecimalView,
    now: TimestampView,
    state: FillingView,
    reply: StoreReplyView,
)
    requires
        state.expects(reply),
    ensures
        filling(entry, price, now) matches ProgressView::Ask(request, next) ==> request
            is InsertOrder && next is WritingOrder,
        match state.next(reply) {
            ProgressView::Ask(request, next) => {
                &&& !(request is InsertOrder) && !(next is WritingOrder)
                &&& request is UpsertPosition ==> next is WritingPosition && state
                    is ReadingPositions
                &&& next is ReadingPositions ==> state is WritingOrder
                &&& request is InsertUser ==> next is WritingUser && (state is ReadingRefunded
                    || state is ReadingSeller)
                &&& next is ReadingRefunded ==> state is WritingPosition
                &&& next is ReadingSeller ==> state is WritingOrder
            },
            ProgressView::Finished(Ok(_)) => state is WritingPosition || state is WritingUser,
            ProgressView::Finished(Err(_)) => true,
        },
{
}

/// What was locked goes back before an order is marked as canceled, and nothing is written before
/// the order and its user are known.
pub proof fn law_order_of_canceling(
    claims: ClaimsView,
    order_id: Seq<char>,
    book: Seq<PendingLimitOrderView>,
    state: CancelingView,
    reply: StoreReplyView,
    now: TimestampView,
)
    requires
        state.expects(reply),
    ensures
        cancellation(Ok(claims), order_id, book) matches ProgressView::Ask(request, next)
            ==> request == StoreRequestView::GetOrderById(order_id) && (next is NotInBook || next
            is ReadingOrder),
        match state.next(reply, now) {
            ProgressView::Ask(request, next) => {
                &&& request is InsertOrder <==> state is ReturningFunds
                &&& request is InsertOrder <==> next is WritingOrder
                &&& next is ReturningFunds <==> request is InsertUser || request is UpsertPosition
                &&& request is InsertUser ==> state is ReadingUser
                &&& request is UpsertPosition ==> state is ReadingPositions
                &&& next is ReadingPositions ==> state is ReadingUser
                &&& next is ReadingUser ==> state is ReadingOrder
            },
            ProgressView::Finished(Ok(_)) => state is WritingOrder,
            ProgressView::Finished(Err(_)) => true,
        },
{
}

} // verus!
