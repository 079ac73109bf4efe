//! What the profit and loss is of: which orders and positions count, and for how much.

use vstd::prelude::*;

use crate::api::account::{account_request, pnl_request, ReadingAccountView, ReadingPnlView};
use crate::auth::ClaimsView;
use crate::decimal::{
    adds_exactly, decimal_difference, decimal_product, decimal_quotient, decimal_sum,
    decimal_zero, is_quotient, lemma_quotient_found, lemma_rounded_same, lemma_units_difference,
    lemma_units_product, lemma_units_sign, lemma_units_sum, multiplies_exactly, pow10, rounded,
    subtracts_exactly, units, DecimalView, MAX_SCALE,
};
use crate::error::AppErrorView;
use crate::models::{
    AccountResponseView, OrderStatus, OrderType, OrderView, PnlStatsView, PositionView,
    RealizedPnlDetailView, Side, UnrealizedPositionPnlView, UserView,
};
use crate::pnl::{
    added, average_price, averages_in_range, bought_cost, bought_quantity, by_symbol, details,
    entries_total, entry_place, is_fill, key_before, law_details_in_order, lemma_key_order, pnl_of,
    realized, sales_result, sold_keys, type_total, unrealized, with_entry, with_key, SaleKey,
};
use crate::pnl_laws::{
    any_entry, detail_term, earns_exactly, entry_term, law_symbols_once, lemma_entry_place,
    lemma_entry_sums, lemma_type_sums, of_type, summed,
};
use crate::store::{ProgressView, StoreReplyView, StoreRequestView};
use crate::ws_client::QuoteView;

verus! {

/// Whether an order is a filled sell.
pub open spec fn sold(order: OrderView) -> bool {
    order.status == OrderStatus::Filled && order.side == Side::Sell
}

/// Whether an order is a filled buy.
pub open spec fn bought(order: OrderView) -> bool {
    order.status == OrderStatus::Filled && order.side == Side::Buy
}

/// Whether two orders trade the same: the symbol, the side, the order type, the price, the amount
/// and the status.
pub open spec fn same_trade(a: OrderView, b: OrderView) -> bool {
    &&& a.symbol == b.symbol
    &&& a.side == b.side
    &&& a.order_type == b.order_type
    &&& a.price == b.price
    &&& a.amount == b.amount
    &&& a.status == b.status
}

/// Whether two histories trade the same, order by order.
pub open spec fn same_trades(a: Seq<OrderView>, b: Seq<OrderView>) -> bool {
    a.len() == b.len() && forall|i: int| 0 <= i < a.len() ==> same_trade(#[trigger] a[i], b[i])
}

proof fn lemma_same_sums(
    a: Seq<OrderView>,
    b: Seq<OrderView>,
    key: SaleKey,
    average: DecimalView,
)
    requires
        same_trades(a, b),
    ensures
        bought_cost(a, key.0) == bought_cost(b, key.0),
        bought_quantity(a, key.0) == bought_quantity(b, key.0),
        sales_result(a, key, average) == sales_result(b, key, average),
        sold_keys(a) == sold_keys(b),
    decreases a.len(),
{
    if a.len() > 0 {
        let p = a.drop_last();
        let q = b.drop_last();
        assert(same_trades(p, q)) by {
            assert forall|i: int| 0 <= i < p.len() implies same_trade(#[trigger] p[i], q[i]) by {
                assert(same_trade(a[i], b[i]));
            }
        }
        lemma_same_sums(p, q, key, average);
        assert(same_trade(a[a.len() - 1], b[b.len() - 1]));
    }
}

proof fn lemma_same_averages(a: Seq<OrderView>, b: Seq<OrderView>)
    requires
        same_trades(a, b),
        averages_in_range(a),
        forall|symbol: Seq<char>| #[trigger] average_price(a, symbol) == average_price(b, symbol),
    ensures
        averages_in_range(b),
{
    assert forall|i: int|
        0 <= i < b.len() && is_fill(#[trigger] b[i], Side::Buy) implies average_price(
        b,
        b[i].symbol,
    ) is Some by {
        assert(same_trade(a[i], b[i]));
        assert(is_fill(a[i], Side::Buy));
        assert(average_price(a, a[i].symbol) is Some);
    }
}

proof fn lemma_same_details(a: Seq<OrderView>, b: Seq<OrderView>, keys: Seq<SaleKey>)
    requires
        forall|key: SaleKey| #[trigger] realized(a, key) == realized(b, key),
    ensures
        details(a, keys) == details(b, keys),
    decreases keys.len(),
{
    if keys.len() > 0 {
        lemma_same_details(a, b, keys.drop_last());
        assert(realized(a, keys.last()) == realized(b, keys.last()));
    }
}

/// Of an order only what was traded counts, and whether it was: two histories that trade the same
/// have the same profit and loss, whatever the limits, totals, ids, users, times and reasons in
/// them are.
pub proof fn law_only_trades_count(
    a: Seq<OrderView>,
    b: Seq<OrderView>,
    positions: Seq<PositionView>,
    quotes: Map<Seq<char>, QuoteView>,
)
    requires
        same_trades(a, b),
    ensures
        pnl_of(a, positions, quotes) == pnl_of(b, positions, quotes),
{
    assert forall|symbol: Seq<char>| #[trigger]
        average_price(a, symbol) == average_price(b, symbol) by {
        lemma_same_sums(a, b, (symbol, OrderType::Market), decimal_zero());
    }
    assert forall|key: SaleKey| #[trigger] realized(a, key) == realized(b, key) by {
        assert(average_price(a, key.0) == average_price(b, key.0));
        if average_price(a, key.0) is Some {
            lemma_same_sums(a, b, key, average_price(a, key.0)->0);
        }
    }
    lemma_same_sums(a, b, (Seq::empty(), OrderType::Market), decimal_zero());
    lemma_same_details(a, b, sold_keys(a));
    if averages_in_range(a) {
        lemma_same_averages(a, b);
    }
    if averages_in_range(b) {
        assert(same_trades(b, a)) by {
            assert forall|i: int| 0 <= i < b.len() implies same_trade(#[trigger] b[i], a[i]) by {
                assert(same_trade(a[i], b[i]));
            }
        }
        lemma_same_averages(b, a);
    }
}

/// One more filled sell leaves every average as it is. It adds its price less the average, times
/// its amount, to the result of its symbol and order type, and leaves all other results as they
/// are. This holds of every order type, and with rounding as without.
pub proof fn law_one_more_sale(orders: Seq<OrderView>, order: OrderView, key: SaleKey)
    requires
        sold(order),
    ensures
        average_price(orders.push(order), key.0) == average_price(orders, key.0),
        key != (order.symbol, order.order_type) ==> realized(orders.push(order), key) == realized(
            orders,
            key,
        ),
        key == (order.symbol, order.order_type) ==> realized(orders.push(order), key) == match (
            average_price(orders, order.symbol),
            realized(orders, key),
        ) {
            (Some(average), Some(before)) => match decimal_difference(order.price, average) {
                Some(gain) => match decimal_product(gain, order.amount) {
                    Some(earned) => decimal_sum(before, earned),
                    None => None,
                },
                None => None,
            },
            _ => None,
        },
{
    let more = orders.push(order);
    assert(more.drop_last() =~= orders);
    assert(more.last() == order);
}

/// Nothing is realized before anything is sold, and no average is there before anything is bought.
pub proof fn law_nothing_traded(key: SaleKey)
    ensures
        average_price(Seq::empty(), key.0) == Some(decimal_zero()),
        realized(Seq::empty(), key) == Some(decimal_zero()),
{
}

/// One more order that is no filled buy or sell changes nothing; one more filled buy changes the
/// average of its symbol alone.
pub proof fn law_one_more_order(orders: Seq<OrderView>, order: OrderView, key: SaleKey)
    ensures
        order.status != OrderStatus::Filled ==> average_price(orders.push(order), key.0)
            == average_price(orders, key.0) && realized(orders.push(order), key) == realized(
            orders,
            key,
        ),
        bought(order) && order.symbol != key.0 ==> average_price(orders.push(order), key.0)
            == average_price(orders, key.0) && realized(orders.push(order), key) == realized(
            orders,
            key,
        ),
        sold_keys(orders.push(order)) == if sold(order) {
            with_key(sold_keys(orders), (order.symbol, order.order_type))
        } else {
            sold_keys(orders)
        },
{
    let more = orders.push(order);
    assert(more.drop_last() =~= orders);
    assert(more.last() == order);
}

/// In numbers, where nothing is rounded: one more filled sell earns its price less the average
/// buy price of its symbol, times its amount.
pub proof fn law_sale_in_numbers(orders: Seq<OrderView>, order: OrderView, average: DecimalView)
    requires
        sold(order),
        average_price(orders, order.symbol) == Some(average),
        earns_exactly(order, average),
        realized(orders, (order.symbol, order.order_type)) matches Some(before) && before.valid()
            && (decimal_difference(order.price, average) matches Some(gain) && (decimal_product(
            gain,
            order.amount,
        ) matches Some(earned) && adds_exactly(before, earned))),
    ensures
        ({
            let key = (order.symbol, order.order_type);
            let one = pow10(MAX_SCALE as nat) as int;
            realized(orders.push(order), key) matches Some(after) && units(after) * one == units(
                realized(orders, key)->0,
            ) * one + (units(order.price) - units(average)) * units(order.amount)
        }),
{
    let key = (order.symbol, order.order_type);
    law_one_more_sale(orders, order, key);
    let before = realized(orders, key)->0;
    let gain = decimal_difference(order.price, average)->0;
    let earned = decimal_product(gain, order.amount)->0;
    lemma_units_difference(order.price, average);
    lemma_units_product(gain, order.amount);
    lemma_units_sum(before, earned);
    let x = units(before);
    let y = units(earned);
    let one = pow10(MAX_SCALE as nat) as int;
    assert((x + y) * one == x * one + y * one) by (nonlinear_arith);
}

/// What the filled sells of a symbol and order type brought: the sum of price times amount, in
/// units of units.
pub open spec fn proceeds(orders: Seq<OrderView>, key: SaleKey) -> int
    decreases orders.len(),
{
    if orders.len() == 0 {
        0
    } else {
        let o = orders.last();
        proceeds(orders.drop_last(), key) + if sold(o) && (o.symbol, o.order_type) == key {
            units(o.price) * units(o.amount)
        } else {
            0
        }
    }
}

/// How much the filled sells of a symbol and order type sold, in units.
pub open spec fn quantity_sold(orders: Seq<OrderView>, key: SaleKey) -> int
    decreases orders.len(),
{
    if orders.len() == 0 {
        0
    } else {
        let o = orders.last();
        quantity_sold(orders.drop_last(), key) + if sold(o) && (o.symbol, o.order_type) == key {
            units(o.amount)
        } else {
            0
        }
    }
}

/// Whether no computation on the way to the result of a symbol and order type loses anything.
pub open spec fn sales_exact(orders: Seq<OrderView>, key: SaleKey, average: DecimalView) -> bool
    decreases orders.len(),
{
    orders.len() == 0 || {
        let o = orders.last();
        let rest = orders.drop_last();
        &&& sales_exact(rest, key, average)
        &&& sold(o) && (o.symbol, o.order_type) == key ==> earns_exactly(o, average) && (
        sales_result(rest, key, average) matches Some(before) && (decimal_difference(
            o.price,
            average,
        ) matches Some(gain) && (decimal_product(gain, o.amount) matches Some(earned)
            && adds_exactly(before, earned))))
    }
}

proof fn lemma_sales_in_numbers(orders: Seq<OrderView>, key: SaleKey, average: DecimalView)
    requires
        sales_exact(orders, key, average),
    ensures
        sales_result(orders, key, average) matches Some(result) && result.valid() && units(result)
            * pow10(MAX_SCALE as nat) == proceeds(orders, key) - units(average) * quantity_sold(
            orders,
            key,
        ),
    decreases orders.len(),
{
    let one = pow10(MAX_SCALE as nat) as int;
    let a = units(average);
    if orders.len() == 0 {
        lemma_units_sign(decimal_zero());
        assert(a * 0 == 0 && 0 * one == 0) by (nonlinear_arith);
    } else {
        let rest = orders.drop_last();
        let o = orders.last();
        lemma_sales_in_numbers(rest, key, average);
        if sold(o) && (o.symbol, o.order_type) == key {
            let before = sales_result(rest, key, average)->0;
            let gain = decimal_difference(o.price, average)->0;
            let earned = decimal_product(gain, o.amount)->0;
            lemma_units_difference(o.price, average);
            lemma_units_product(gain, o.amount);
            lemma_units_sum(before, earned);
            let x = units(before);
            let y = units(earned);
            let p = units(o.price);
            let n = units(o.amount);
            let q = quantity_sold(rest, key);
            assert((x + y) * one == x * one + y * one) by (nonlinear_arith);
            assert((p - a) * n == p * n - a * n && a * (q + n) == a * q + a * n) by (
            nonlinear_arith);
        }
    }
}

/// The realized result of a symbol and order type is what its sells brought, less the average buy
/// price times the quantity sold, where nothing is rounded.
pub proof fn law_realized_in_numbers(orders: Seq<OrderView>, key: SaleKey, average: DecimalView)
    requires
        average_price(orders, key.0) == Some(average),
        sales_exact(orders, key, average),
    ensures
        realized(orders, key) matches Some(result) && units(result) * pow10(MAX_SCALE as nat)
            == proceeds(orders, key) - units(average) * quantity_sold(orders, key),
{
    lemma_sales_in_numbers(orders, key, average);
}

/// What the filled buys of a symbol cost: their prices times their amounts, added up.
pub open spec fn spent(orders: Seq<OrderView>, symbol: Seq<char>) -> Option<DecimalView>
    decreases orders.len(),
{
    if orders.len() == 0 {
        Some(decimal_zero())
    } else {
        let o = orders.last();
        let before = spent(orders.drop_last(), symbol);
        if bought(o) && o.symbol == symbol {
            match (before, decimal_product(o.price, o.amount)) {
                (Some(before), Some(cost)) => decimal_sum(before, cost),
                _ => None,
            }
        } else {
            before
        }
    }
}

/// How much the filled buys of a symbol bought: their amounts, added up.
pub open spec fn amassed(orders: Seq<OrderView>, symbol: Seq<char>) -> Option<DecimalView>
    decreases orders.len(),
{
    if orders.len() == 0 {
        Some(decimal_zero())
    } else {
        let o = orders.last();
        let before = amassed(orders.drop_last(), symbol);
        if bought(o) && o.symbol == symbol {
            match before {
                Some(before) => decimal_sum(before, o.amount),
                None => None,
            }
        } else {
            before
        }
    }
}

proof fn lemma_spent(orders: Seq<OrderView>, symbol: Seq<char>)
    ensures
        bought_cost(orders, symbol) == spent(orders, symbol),
        bought_quantity(orders, symbol) == amassed(orders, symbol),
    decreases orders.len(),
{
    if orders.len() > 0 {
        lemma_spent(orders.drop_last(), symbol);
    }
}

/// The average buy price of a symbol is what all its filled buys cost over how much they bought,
/// rounded, and zero where they bought nothing.
pub proof fn law_average_price(orders: Seq<OrderView>, symbol: Seq<char>)
    ensures
        average_price(orders, symbol) == match (spent(orders, symbol), amassed(orders, symbol)) {
            (Some(cost), Some(quantity)) => if quantity.mantissa == 0 {
                Some(decimal_zero())
            } else {
                match decimal_quotient(cost, quantity) {
                    Some(average) => Some(rounded(average)),
                    None => None,
                }
            },
            _ => None,
        },
{
    lemma_spent(orders, symbol);
}

/// The price times the amount of the filled buys of a symbol, in units of units.
pub open spec fn paid(orders: Seq<OrderView>, symbol: Seq<char>) -> int
    decreases orders.len(),
{
    if orders.len() == 0 {
        0
    } else {
        let o = orders.last();
        paid(orders.drop_last(), symbol) + if bought(o) && o.symbol == symbol {
            units(o.price) * units(o.amount)
        } else {
            0
        }
    }
}

/// The amounts of the filled buys of a symbol, in units.
pub open spec fn quantity_bought(orders: Seq<OrderView>, symbol: Seq<char>) -> int
    decreases orders.len(),
{
    if orders.len() == 0 {
        0
    } else {
        let o = orders.last();
        quantity_bought(orders.drop_last(), symbol) + if bought(o) && o.symbol == symbol {
            units(o.amount)
        } else {
            0
        }
    }
}

/// Whether no computation on the way to what was spent and bought loses anything.
pub open spec fn buys_exact(orders: Seq<OrderView>, symbol: Seq<char>) -> bool
    decreases orders.len(),
{
    orders.len() == 0 || {
        let o = orders.last();
        let rest = orders.drop_last();
        &&& buys_exact(rest, symbol)
        &&& bought(o) && o.symbol == symbol ==> {
            &&& o.price.valid() && o.amount.valid()
            &&& multiplies_exactly(o.price, o.amount)
            &&& spent(rest, symbol) matches Some(before) && (decimal_product(
                o.price,
                o.amount,
            ) matches Some(cost) && adds_exactly(before, cost))
            &&& amassed(rest, symbol) matches Some(before) && adds_exactly(before, o.amount)
        }
    }
}

proof fn lemma_spent_in_numbers(orders: Seq<OrderView>, symbol: Seq<char>)
    requires
        buys_exact(orders, symbol),
    ensures
        spent(orders, symbol) matches Some(cost) && cost.valid() && units(cost) * pow10(
            MAX_SCALE as nat,
        ) == paid(orders, symbol),
        amassed(orders, symbol) matches Some(quantity) && quantity.valid() && units(quantity)
            == quantity_bought(orders, symbol),
    decreases orders.len(),
{
    let one = pow10(MAX_SCALE as nat) as int;
    if orders.len() == 0 {
        lemma_units_sign(decimal_zero());
        assert(0 * one == 0) by (nonlinear_arith);
    } else {
        let rest = orders.drop_last();
        let o = orders.last();
        lemma_spent_in_numbers(rest, symbol);
        if bought(o) && o.symbol == symbol {
            let before = spent(rest, symbol)->0;
            let cost = decimal_product(o.price, o.amount)->0;
            lemma_units_product(o.price, o.amount);
            lemma_units_sum(before, cost);
            lemma_units_sum(amassed(rest, symbol)->0, o.amount);
            let x = units(before);
            let y = units(cost);
            assert((x + y) * one == x * one + y * one) by (nonlinear_arith);
        }
    }
}

/// In numbers, where no sum is rounded: the average buy price times the quantity bought is what
/// was paid, as near as the rounding of the average lets it be.
pub proof fn law_average_in_numbers(
    orders: Seq<OrderView>,
    symbol: Seq<char>,
    average: DecimalView,
)
    requires
        buys_exact(orders, symbol),
        quantity_bought(orders, symbol) != 0,
        average.valid(),
        units(average) * quantity_bought(orders, symbol) == paid(orders, symbol),
        (spent(orders, symbol), amassed(orders, symbol)) matches (Some(cost), Some(quantity)) && (
        decimal_quotient(cost, quantity) matches Some(quotient) ==> quotient.valid()),
    ensures
        average_price(orders, symbol) matches Some(r) && units(r) == units(rounded(average)),
{
    law_average_price(orders, symbol);
    lemma_spent_in_numbers(orders, symbol);
    let cost = spent(orders, symbol)->0;
    let quantity = amassed(orders, symbol)->0;
    lemma_units_sign(cost);
    lemma_units_sign(quantity);
    assert(is_quotient(average, cost, quantity));
    let e = units(average);
    let n = units(quantity);
    if cost.mantissa == 0 {
        lemma_units_sign(decimal_zero());
        let one = pow10(MAX_SCALE as nat) as int;
        assert(e == 0) by (nonlinear_arith)
            requires
                e * n == 0 * one,
                n != 0,
        ;
    } else {
        lemma_quotient_found(cost, quantity);
        let u = units(decimal_quotient(cost, quantity)->0);
        assert(u == e) by (nonlinear_arith)
            requires
                u * n == e * n,
                n != 0,
        ;
    }
    lemma_rounded_same(decimal_quotient(cost, quantity)->0, average);
}

/// The details of a symbol.
pub open spec fn of_symbol(symbol: Seq<char>) -> spec_fn(RealizedPnlDetailView) -> bool {
    |d: RealizedPnlDetailView| d.symbol == symbol
}

proof fn lemma_by_symbol(details: Seq<RealizedPnlDetailView>, symbol: Seq<char>)
    requires
        by_symbol(details) is Some,
    ensures
        ({
            let entries = by_symbol(details)->0;
            let place = entry_place(entries, symbol);
            &&& place < entries.len() ==> summed(details, of_symbol(symbol), detail_term()) == Some(
                entries[place].1,
            )
            &&& place == entries.len() ==> forall|i: int|
                0 <= i < details.len() ==> (#[trigger] details[i]).symbol != symbol
            &&& place == entries.len() ==> summed(details, of_symbol(symbol), detail_term())
                == Some(decimal_zero())
        }),
    decreases details.len(),
{
    if details.len() > 0 {
        let rest = details.drop_last();
        let d = details.last();
        lemma_by_symbol(rest, symbol);
        let before = by_symbol(rest)->0;
        let after = by_symbol(details)->0;
        lemma_entry_place(before, symbol);
        lemma_entry_place(after, symbol);
        lemma_entry_place(before, d.symbol);
        lemma_place_kept(before, after, d.symbol, symbol);
        if entry_place(after, symbol) == after.len() {
            assert forall|i: int| 0 <= i < details.len() implies (#[trigger] details[i]).symbol
                != symbol by {
                if i < rest.len() {
                    assert(rest[i] == details[i]);
                }
            }
        }
    }
}

proof fn lemma_place_of_first<T>(entries: Seq<(Seq<char>, T)>, name: Seq<char>, place: int)
    requires
        0 <= place <= entries.len(),
        forall|i: int| 0 <= i < place ==> (#[trigger] entries[i]).0 != name,
        place < entries.len() ==> entries[place].0 == name,
    ensures
        entry_place(entries, name) == place,
    decreases entries.len(),
{
    if entries.len() > 0 && place > 0 {
        let rest = entries.drop_first();
        assert(entries[0].0 != name);
        assert forall|i: int| 0 <= i < place - 1 implies (#[trigger] rest[i]).0 != name by {
            assert(entries[i + 1].0 != name);
        }
        lemma_place_of_first(rest, name, place - 1);
    }
}

proof fn lemma_first_place<T>(entries: Seq<(Seq<char>, T)>, name: Seq<char>)
    ensures
        forall|i: int|
            0 <= i < entry_place(entries, name) ==> (#[trigger] entries[i]).0 != name,
    decreases entries.len(),
{
    if entries.len() > 0 && entries[0].0 != name {
        let rest = entries.drop_first();
        lemma_first_place(rest, name);
        lemma_entry_place(rest, name);
        assert forall|i: int| 0 <= i < entry_place(entries, name) implies (
        #[trigger] entries[i]).0 != name by {
            if i > 0 {
                assert(rest[i - 1] == entries[i]);
            }
        }
    }
}

proof fn lemma_place_kept(
    before: Seq<(Seq<char>, DecimalView)>,
    after: Seq<(Seq<char>, DecimalView)>,
    name: Seq<char>,
    other: Seq<char>,
)
    requires
        exists|value: DecimalView| after == #[trigger] with_entry(before, name, value),
    ensures
        other != name ==> (entry_place(before, other) < before.len()) == (entry_place(after, other)
            < after.len()),
        other != name && entry_place(before, other) < before.len() ==> entry_place(after, other)
            == entry_place(before, other) && after[entry_place(before, other)]
            == before[entry_place(before, other)],
        entry_place(after, name) == entry_place(before, name) < after.len(),
{
    lemma_entry_place(before, name);
    lemma_entry_place(before, other);
    lemma_first_place(before, name);
    lemma_first_place(before, other);
    lemma_place_of_first(after, name, entry_place(before, name));
    if other != name {
        if entry_place(before, other) < before.len() {
            lemma_place_of_first(after, other, entry_place(before, other));
        } else {
            lemma_place_of_first(after, other, after.len() as int);
        }
    }
}

/// How the realized results are broken down: the result of a symbol is the sum of the details of
/// that symbol and of no other; the result of an order type that of the details of that type and
/// of no other; the total that of the results per symbol. Every symbol with a detail has a result.
pub proof fn law_breakdown(
    orders: Seq<OrderView>,
    positions: Seq<PositionView>,
    quotes: Map<Seq<char>, QuoteView>,
    symbol: Seq<char>,
)
    requires
        pnl_of(orders, positions, quotes) is Some,
    ensures
        ({
            let stats = pnl_of(orders, positions, quotes)->0;
            let all = stats.realized_details;
            let types = stats.realized_by_order_type;
            let entries = stats.realized_by_symbol;
            let amount = |d: RealizedPnlDetailView| Some(d.pnl);
            &&& forall|i: int|
                0 <= i < entries.len() && (#[trigger] entries[i]).0 == symbol ==> Some(entries[i].1)
                    == summed(all, |d: RealizedPnlDetailView| d.symbol == symbol, amount)
            &&& (exists|i: int| 0 <= i < all.len() && (#[trigger] all[i]).symbol == symbol) ==> (
            exists|i: int| 0 <= i < entries.len() && (#[trigger] entries[i]).0 == symbol)
            &&& Some(types.market) == summed(
                all,
                |d: RealizedPnlDetailView| d.order_type == OrderType::Market,
                amount,
            )
            &&& Some(types.limit) == summed(
                all,
                |d: RealizedPnlDetailView| d.order_type == OrderType::Limit,
                amount,
            )
            &&& Some(types.stop_limit) == summed(
                all,
                |d: RealizedPnlDetailView| d.order_type == OrderType::StopLimit,
                amount,
            )
            &&& Some(stats.realized_total) == summed(
                entries,
                |e: (Seq<char>, DecimalView)| true,
                |e: (Seq<char>, DecimalView)| Some(e.1),
            )
            &&& unrealized(quotes, positions) == Some(
                (stats.unrealized_total, stats.unrealized_by_symbol),
            )
            &&& details(orders, sold_keys(orders)) == Some(all)
        }),
{
    let stats = pnl_of(orders, positions, quotes)->0;
    let all = stats.realized_details;
    let entries = stats.realized_by_symbol;
    assert(of_symbol(symbol) =~= (|d: RealizedPnlDetailView| d.symbol == symbol));
    assert(detail_term() =~= (|d: RealizedPnlDetailView| Some(d.pnl)));
    assert(of_type(OrderType::Market) =~= (|d: RealizedPnlDetailView|
        d.order_type == OrderType::Market));
    assert(of_type(OrderType::Limit) =~= (|d: RealizedPnlDetailView|
        d.order_type == OrderType::Limit));
    assert(of_type(OrderType::StopLimit) =~= (|d: RealizedPnlDetailView|
        d.order_type == OrderType::StopLimit));
    assert(any_entry() =~= (|e: (Seq<char>, DecimalView)| true));
    assert(entry_term() =~= (|e: (Seq<char>, DecimalView)| Some(e.1)));
    lemma_type_sums(all, OrderType::Market);
    lemma_type_sums(all, OrderType::Limit);
    lemma_type_sums(all, OrderType::StopLimit);
    lemma_entry_sums(entries);
    lemma_by_symbol(all, symbol);
    lemma_entry_place(entries, symbol);
    law_symbols_once(orders, positions, quotes);
    let place = entry_place(entries, symbol);
    assert forall|i: int| 0 <= i < entries.len() && (#[trigger] entries[i]).0 == symbol implies i
        == place by {
        assert(entries[place].0 == symbol);
    }
}

/// The live price of a symbol, rounded; zero where there is none that is a number.
pub open spec fn live_price(quotes: Map<Seq<char>, QuoteView>, symbol: Seq<char>) -> DecimalView {
    if quotes.dom().contains(symbol) && quotes[symbol].price is Some {
        rounded(quotes[symbol].price->0)
    } else {
        decimal_zero()
    }
}

/// One more open position adds the live price less its average price, times its quantity, to the
/// unrealized total, and has a result of its own that shows these; a position that holds nothing
/// adds nothing.
pub proof fn law_one_more_position(
    quotes: Map<Seq<char>, QuoteView>,
    positions: Seq<PositionView>,
    position: PositionView,
)
    requires
        forall|i: int|
            0 <= i < positions.len() ==> (#[trigger] positions[i]).symbol != position.symbol,
    ensures
        unrealized(quotes, positions.push(position)) == match unrealized(quotes, positions) {
            None => None,
            Some((total, entries)) => if position.quantity.mantissa == 0 {
                Some((total, entries))
            } else {
                let price = live_price(quotes, position.symbol);
                match decimal_difference(price, position.avg_buy_price) {
                    None => None,
                    Some(gain) => match decimal_product(gain, position.quantity) {
                        None => None,
                        Some(pnl) => match decimal_sum(total, pnl) {
                            None => None,
                            Some(sum) => Some(
                                (
                                    sum,
                                    entries.push(
                                        (
                                            position.symbol,
                                            UnrealizedPositionPnlView {
                                                pnl,
                                                quantity: position.quantity,
                                                avg_buy_price: position.avg_buy_price,
                                                current_price: price,
                                            },
                                        ),
                                    ),
                                ),
                            ),
                        },
                    },
                }
            },
        },
        unrealized(quotes, Seq::empty()) == Some(
            (decimal_zero(), Seq::<(Seq<char>, UnrealizedPositionPnlView)>::empty()),
        ),
{
    let more = positions.push(position);
    assert(more.drop_last() =~= positions);
    assert(more.last() == position);
    lemma_rounded_zero();
    lemma_unrealized_symbols(quotes, positions, position.symbol);
    if unrealized(quotes, positions) is Some {
        let (_, entries) = unrealized(quotes, positions)->0;
        lemma_place_of_first(entries, position.symbol, entries.len() as int);
    }
}

proof fn lemma_rounded_zero()
    ensures
        rounded(decimal_zero()) == decimal_zero(),
{
}

proof fn lemma_unrealized_symbols(
    quotes: Map<Seq<char>, QuoteView>,
    positions: Seq<PositionView>,
    symbol: Seq<char>,
)
    requires
        forall|i: int| 0 <= i < positions.len() ==> (#[trigger] positions[i]).symbol != symbol,
    ensures
        unrealized(quotes, positions) matches Some((_, entries)) ==> forall|i: int|
            0 <= i < entries.len() ==> (#[trigger] entries[i]).0 != symbol,
    decreases positions.len(),
{
    if positions.len() > 0 {
        let rest = positions.drop_last();
        let p = positions.last();
        assert forall|i: int| 0 <= i < rest.len() implies (#[trigger] rest[i]).symbol != symbol by {
            assert(positions[i].symbol != symbol);
        }
        assert(positions[positions.len() - 1].symbol != symbol);
        lemma_unrealized_symbols(quotes, rest, symbol);
        match unrealized(quotes, rest) {
            Some((_, entries)) => lemma_entry_place(entries, p.symbol),
            None => {},
        }
    }
}

/// In numbers, where nothing is rounded: an open position would earn the live price less its
/// average price, times its quantity.
pub proof fn law_open_position_in_numbers(
    quotes: Map<Seq<char>, QuoteView>,
    position: PositionView,
)
    requires
        position.quantity.mantissa != 0,
        position.quantity.valid(),
        position.avg_buy_price.valid(),
        live_price(quotes, position.symbol).valid(),
        subtracts_exactly(live_price(quotes, position.symbol), position.avg_buy_price),
        decimal_difference(
            live_price(quotes, position.symbol),
            position.avg_buy_price,
        ) matches Some(gain) && multiplies_exactly(gain, position.quantity),
    ensures
        unrealized(quotes, seq![position]) matches Some((total, entries)) && entries.len() == 1
            && entries[0].0 == position.symbol && entries[0].1.pnl == total && units(total) * pow10(
            MAX_SCALE as nat,
        ) == (units(live_price(quotes, position.symbol)) - units(position.avg_buy_price)) * units(
            position.quantity,
        ),
{
    law_one_more_position(quotes, Seq::empty(), position);
    assert(Seq::<PositionView>::empty().push(position) =~= seq![position]);
    let price = live_price(quotes, position.symbol);
    lemma_units_difference(price, position.avg_buy_price);
    lemma_units_product(
        decimal_difference(price, position.avg_buy_price)->0,
        position.quantity,
    );
}

proof fn lemma_details_known(orders: Seq<OrderView>, keys: Seq<SaleKey>)
    ensures
        (details(orders, keys) is None) == (exists|i: int|
            0 <= i < keys.len() && realized(orders, #[trigger] keys[i]) is None),
    decreases keys.len(),
{
    if keys.len() > 0 {
        let rest = keys.drop_last();
        lemma_details_known(orders, rest);
        if exists|i: int| 0 <= i < rest.len() && realized(orders, #[trigger] rest[i]) is None {
            let i = choose|i: int|
                0 <= i < rest.len() && realized(orders, #[trigger] rest[i]) is None;
            assert(keys[i] == rest[i]);
        }
        if exists|i: int| 0 <= i < keys.len() && realized(orders, #[trigger] keys[i]) is None {
            let i = choose|i: int|
                0 <= i < keys.len() && realized(orders, #[trigger] keys[i]) is None;
            if i < rest.len() {
                assert(rest[i] == keys[i]);
            }
        }
        if realized(orders, keys.last()) is None {
            assert(keys[keys.len() - 1] == keys.last());
        }
    }
}

/// Where the profit and loss is known, so is the average price of everything that was bought, sold
/// again or not, and so is what the open positions would earn.
pub proof fn law_known_profit(
    orders: Seq<OrderView>,
    positions: Seq<PositionView>,
    quotes: Map<Seq<char>, QuoteView>,
)
    requires
        pnl_of(orders, positions, quotes) is Some,
    ensures
        forall|i: int|
            0 <= i < orders.len() && bought(#[trigger] orders[i]) ==> average_price(
                orders,
                orders[i].symbol,
            ) is Some,
        unrealized(quotes, positions) is Some,
{
    assert forall|i: int|
        0 <= i < orders.len() && bought(#[trigger] orders[i]) implies average_price(
        orders,
        orders[i].symbol,
    ) is Some by {
        assert(is_fill(orders[i], Side::Buy));
    }
}

/// The profit and loss is known unless a number leaves its range: an average of something bought,
/// the result of something sold, an open position, or a sum of these.
pub proof fn law_profit_is_known(
    orders: Seq<OrderView>,
    positions: Seq<PositionView>,
    quotes: Map<Seq<char>, QuoteView>,
)
    requires
        forall|i: int|
            0 <= i < orders.len() && bought(#[trigger] orders[i]) ==> average_price(
                orders,
                orders[i].symbol,
            ) is Some,
        forall|i: int|
            0 <= i < orders.len() && sold(#[trigger] orders[i]) ==> realized(
                orders,
                (orders[i].symbol, orders[i].order_type),
            ) is Some,
        unrealized(quotes, positions) is Some,
    ensures
        details(orders, sold_keys(orders)) matches Some(all) && ((by_symbol(all) matches Some(
            entries,
        ) && entries_total(entries) is Some && type_total(all, OrderType::Market) is Some
            && type_total(all, OrderType::Limit) is Some && type_total(
            all,
            OrderType::StopLimit,
        ) is Some) ==> pnl_of(orders, positions, quotes) is Some),
{
    assert forall|i: int|
        0 <= i < orders.len() && is_fill(#[trigger] orders[i], Side::Buy) implies average_price(
        orders,
        orders[i].symbol,
    ) is Some by {
        assert(bought(orders[i]));
    }
    let keys = sold_keys(orders);
    law_details_in_order(orders);
    lemma_details_known(orders, keys);
    assert forall|k: int| 0 <= k < keys.len() implies realized(orders, #[trigger] keys[k])
        is Some by {
        assert(keys.contains(keys[k]));
        let i = choose|i: int|
            0 <= i < orders.len() && is_fill(#[trigger] orders[i], Side::Sell) && (
            orders[i].symbol,
            orders[i].order_type,
        ) == keys[k];
        assert(sold(orders[i]));
    }
}

/// Whether a detail is of the symbol and the order type of a filled sell.
pub open spec fn is_of_sale(detail: RealizedPnlDetailView, order: OrderView) -> bool {
    sold(order) && order.symbol == detail.symbol && order.order_type == detail.order_type
}

/// Whether one of the orders is a filled sell that a detail is of.
pub open spec fn is_of_some_sale(detail: RealizedPnlDetailView, orders: Seq<OrderView>) -> bool {
    exists|i: int| 0 <= i < orders.len() && is_of_sale(detail, #[trigger] orders[i])
}

/// Whether one of the details is of a filled sell.
pub open spec fn is_detailed(order: OrderView, all: Seq<RealizedPnlDetailView>) -> bool {
    exists|k: int| 0 <= k < all.len() && is_of_sale(#[trigger] all[k], order)
}

proof fn lemma_key_of_detail(
    orders: Seq<OrderView>,
    all: Seq<RealizedPnlDetailView>,
    k: int,
) -> (i: int)
    requires
        details(orders, sold_keys(orders)) == Some(all),
        0 <= k < all.len(),
    ensures
        0 <= i < orders.len(),
        is_of_sale(all[k], orders[i]),
        realized(orders, (all[k].symbol, all[k].order_type)) == Some(all[k].pnl),
{
    law_details_in_order(orders);
    let keys = sold_keys(orders);
    assert((all[k].symbol, all[k].order_type) == keys[k]);
    assert(keys.contains(keys[k]));
    choose|i: int|
        0 <= i < orders.len() && is_fill(#[trigger] orders[i], Side::Sell) && (
        orders[i].symbol,
        orders[i].order_type,
    ) == keys[k]
}

proof fn lemma_detail_of_sale(
    orders: Seq<OrderView>,
    all: Seq<RealizedPnlDetailView>,
    i: int,
) -> (k: int)
    requires
        details(orders, sold_keys(orders)) == Some(all),
        0 <= i < orders.len(),
        sold(orders[i]),
    ensures
        0 <= k < all.len(),
        is_of_sale(all[k], orders[i]),
{
    law_details_in_order(orders);
    let keys = sold_keys(orders);
    let key = (orders[i].symbol, orders[i].order_type);
    assert(is_fill(orders[i], Side::Sell));
    assert(keys.contains(key));
    let k = choose|k: int| 0 <= k < keys.len() && keys[k] == key;
    assert((all[k].symbol, all[k].order_type) == keys[k]);
    k
}

proof fn lemma_details_differ(
    orders: Seq<OrderView>,
    all: Seq<RealizedPnlDetailView>,
    k: int,
    l: int,
)
    requires
        details(orders, sold_keys(orders)) == Some(all),
        0 <= k < l < all.len(),
    ensures
        all[k].symbol != all[l].symbol || all[k].order_type != all[l].order_type,
{
    law_details_in_order(orders);
    let keys = sold_keys(orders);
    assert((all[k].symbol, all[k].order_type) == keys[k]);
    assert((all[l].symbol, all[l].order_type) == keys[l]);
    assert(key_before(keys[k], keys[l]));
    lemma_key_order(keys[k], keys[l]);
}

/// There is one detail for each symbol and order type that was sold, and for nothing else, and it
/// shows the result of that.
pub proof fn law_details_are_of_sales(
    orders: Seq<OrderView>,
    positions: Seq<PositionView>,
    quotes: Map<Seq<char>, QuoteView>,
    all: Seq<RealizedPnlDetailView>,
)
    requires
        pnl_of(orders, positions, quotes) matches Some(stats) && all == stats.realized_details,
    ensures
        forall|k: int|
            0 <= k < all.len() ==> realized(
                orders,
                ((#[trigger] all[k]).symbol, all[k].order_type),
            ) == Some(all[k].pnl),
        forall|k: int| 0 <= k < all.len() ==> is_of_some_sale(#[trigger] all[k], orders),
        forall|i: int|
            0 <= i < orders.len() && sold(#[trigger] orders[i]) ==> is_detailed(orders[i], all),
        forall|k: int, l: int|
            0 <= k < l < all.len() ==> (#[trigger] all[k]).symbol != (#[trigger] all[l]).symbol
                || all[k].order_type != all[l].order_type,
{
    assert forall|k: int| 0 <= k < all.len() implies realized(
        orders,
        ((#[trigger] all[k]).symbol, all[k].order_type),
    ) == Some(all[k].pnl) by {
        let i = lemma_key_of_detail(orders, all, k);
    }
    assert forall|k: int| 0 <= k < all.len() implies is_of_some_sale(#[trigger] all[k], orders) by {
        let i = lemma_key_of_detail(orders, all, k);
        assert(is_of_sale(all[k], orders[i]));
    }
    assert forall|i: int| 0 <= i < orders.len() && sold(#[trigger] orders[i]) implies is_detailed(
        orders[i],
        all,
    ) by {
        let k = lemma_detail_of_sale(orders, all, i);
        assert(is_of_sale(all[k], orders[i]));
    }
    assert forall|k: int, l: int| 0 <= k < l < all.len() implies (#[trigger] all[k]).symbol != (
    #[trigger] all[l]).symbol || all[k].order_type != all[l].order_type by {
        lemma_details_differ(orders, all, k, l);
    }
}

/// A request for the profit and loss is answered from all of the caller's own orders and open
/// positions; one for the account with the caller's own data, balance and open positions. A user
/// who is not there has no account, and without a valid session nothing is asked.
pub proof fn law_reports_are_of_the_caller(
    claims: ClaimsView,
    refused: AppErrorView,
    user: UserView,
    orders: Seq<OrderView>,
    positions: Seq<PositionView>,
    quotes: Map<Seq<char>, QuoteView>,
)
    ensures
        pnl_request(Err(refused)) == ProgressView::<ReadingPnlView, PnlStatsView>::Finished(
            Err(refused),
        ),
        pnl_request(Ok(claims)) matches ProgressView::Ask(request, state) && request
            == StoreRequestView::ListOrdersForUser(claims.sub, u32::MAX) && (state.next(
            StoreReplyView::Orders(orders),
            quotes,
        ) matches ProgressView::Ask(request, state) && request
            == StoreRequestView::GetPositionsForUser(claims.sub) && state.next(
            StoreReplyView::Positions(positions),
            quotes,
        ) == ProgressView::<ReadingPnlView, PnlStatsView>::Finished(
            match pnl_of(orders, positions, quotes) {
                Some(stats) => Ok(stats),
                None => Err(AppErrorView::Overflow),
            },
        )),
        account_request(Err(refused)) == ProgressView::<
            ReadingAccountView,
            AccountResponseView,
        >::Finished(Err(refused)),
        account_request(Ok(claims)) matches ProgressView::Ask(request, state) && request
            == StoreRequestView::GetUserById(claims.sub) && state.next(StoreReplyView::User(None))
            == ProgressView::<ReadingAccountView, AccountResponseView>::Finished(
            Err(AppErrorView::NotFound("User not found"@)),
        ) && (state.next(StoreReplyView::User(Some(user))) matches ProgressView::Ask(request, state)
            && request == StoreRequestView::GetPositionsForUser(user.id) && (state.next(
            StoreReplyView::Positions(positions),
        ) matches ProgressView::Finished(Ok(account)) && account.user_id == user.id
            && account.username == user.username && account.role == user.role
            && account.balance_usdc == user.balance_usdc && account.positions == positions)),
{
}

} // verus!
