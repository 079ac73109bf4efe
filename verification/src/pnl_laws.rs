//! What holds of the profit and loss as a whole.
//!
//! The sums are those of `crate::pnl`; here they are compared as numbers, in the units of the
//! smallest decimal place, wherever no addition on the way loses a digit.

use vstd::prelude::*;

use crate::decimal::{
    adds_exactly, decimal_difference, decimal_product, decimal_quotient, decimal_sum, decimal_zero,
    lemma_product_not_negative, lemma_product_numbers, lemma_quotient_numbers, lemma_rounded_same,
    lemma_units_difference, lemma_units_equal, lemma_units_sign, lemma_units_sum,
    multiplies_exactly, subtracts_exactly, units, DecimalView,
};
use crate::models::{
    OrderStatus, OrderType, OrderView, PnlStatsView, PositionView, RealizedPnlDetailView, Side,
};
use crate::pnl::{
    added, ascending, average_price, averages_in_range, bought_cost, bought_quantity, by_symbol,
    details, entries_total, entry_place, is_fill, key_before, law_details_in_order,
    lemma_key_order, open_result, pnl_of, realized, sale_result, sales_result, sold_keys,
    type_total, unrealized, with_entry, SaleKey,
};
use crate::ws_client::QuoteView;

verus! {

/// The sum of the terms of the items that are picked, added from the first to the last.
pub open spec fn summed<T>(
    items: Seq<T>,
    picks: spec_fn(T) -> bool,
    term: spec_fn(T) -> Option<DecimalView>,
) -> Option<DecimalView>
    decreases items.len(),
{
    if items.len() == 0 {
        Some(decimal_zero())
    } else {
        let before = summed(items.drop_last(), picks, term);
        if picks(items.last()) {
            added(before, term(items.last()))
        } else {
            before
        }
    }
}

/// Whether two numbers are there, and adding them loses nothing.
pub open spec fn joins(a: Option<DecimalView>, b: Option<DecimalView>) -> bool {
    a is Some && b is Some && a->0.valid() && b->0.valid() && adds_exactly(a->0, b->0)
}

/// Whether no addition on the way to the sum loses anything.
pub open spec fn exact<T>(
    items: Seq<T>,
    picks: spec_fn(T) -> bool,
    term: spec_fn(T) -> Option<DecimalView>,
) -> bool
    decreases items.len(),
{
    items.len() == 0 || (exact(items.drop_last(), picks, term) && (picks(items.last()) ==> joins(
        summed(items.drop_last(), picks, term),
        term(items.last()),
    )))
}

/// The units of the terms of the items that are picked.
pub open spec fn units_of<T>(
    items: Seq<T>,
    picks: spec_fn(T) -> bool,
    term: spec_fn(T) -> Option<DecimalView>,
) -> int
    decreases items.len(),
{
    if items.len() == 0 {
        0
    } else {
        let before = units_of(items.drop_last(), picks, term);
        if picks(items.last()) {
            before + units(term(items.last())->0)
        } else {
            before
        }
    }
}

pub(crate) proof fn lemma_summed<T>(
    items: Seq<T>,
    picks: spec_fn(T) -> bool,
    term: spec_fn(T) -> Option<DecimalView>,
)
    requires
        exact(items, picks, term),
    ensures
        summed(items, picks, term) matches Some(total) && total.valid() && units(total) == units_of(
            items,
            picks,
            term,
        ),
        forall|i: int|
            0 <= i < items.len() && picks(#[trigger] items[i]) ==> term(items[i]) is Some,
    decreases items.len(),
{
    if items.len() > 0 {
        let rest = items.drop_last();
        lemma_summed(rest, picks, term);
        if picks(items.last()) {
            lemma_units_sum(summed(rest, picks, term)->0, term(items.last())->0);
        }
        assert forall|i: int| 0 <= i < items.len() && picks(#[trigger] items[i]) implies term(
            items[i],
        ) is Some by {
            if i < rest.len() {
                assert(rest[i] == items[i]);
            }
        }
    } else {
        lemma_units_sign(decimal_zero());
    }
}

/// A sum of terms that are not negative has the most decimal places that a term has.
proof fn lemma_summed_scale<T>(
    items: Seq<T>,
    picks: spec_fn(T) -> bool,
    term: spec_fn(T) -> Option<DecimalView>,
)
    requires
        exact(items, picks, term),
        forall|i: int|
            0 <= i < items.len() && picks(#[trigger] items[i]) ==> term(items[i])->0.mantissa >= 0,
    ensures
        summed(items, picks, term)->0.mantissa >= 0,
        forall|i: int|
            0 <= i < items.len() && picks(#[trigger] items[i]) && term(items[i])->0.mantissa > 0
                ==> term(items[i])->0.scale <= summed(items, picks, term)->0.scale && summed(
                items,
                picks,
                term,
            )->0.mantissa > 0,
        summed(items, picks, term)->0.mantissa > 0 ==> exists|i: int|
            0 <= i < items.len() && picks(#[trigger] items[i]) && term(items[i])->0.mantissa > 0
                && term(items[i])->0.scale == summed(items, picks, term)->0.scale,
    decreases items.len(),
{
    lemma_summed(items, picks, term);
    if items.len() > 0 {
        let rest = items.drop_last();
        let last = items.last();
        assert forall|i: int| 0 <= i < rest.len() && picks(#[trigger] rest[i]) implies term(
            rest[i],
        )->0.mantissa >= 0 by {
            assert(rest[i] == items[i]);
        }
        lemma_summed_scale(rest, picks, term);
        lemma_summed(rest, picks, term);
        let before = summed(rest, picks, term)->0;
        let total = summed(items, picks, term)->0;
        assert(items[items.len() - 1] == last);
        if picks(last) {
            let t = term(last)->0;
            lemma_units_sum(before, t);
            lemma_units_sign(before);
            lemma_units_sign(t);
            lemma_units_sign(total);
        }
        assert forall|i: int|
            0 <= i < items.len() && picks(#[trigger] items[i]) && term(items[i])->0.mantissa
                > 0 implies term(items[i])->0.scale <= total.scale && total.mantissa > 0 by {
            if i < rest.len() {
                assert(rest[i] == items[i]);
            }
        }
        if total.mantissa > 0 {
            if before.mantissa > 0 && total.scale == before.scale {
                let i = choose|i: int|
                    0 <= i < rest.len() && picks(#[trigger] rest[i]) && term(rest[i])->0.mantissa
                        > 0 && term(rest[i])->0.scale == before.scale;
                assert(items[i] == rest[i]);
            } else {
                assert(picks(items[items.len() - 1]));
            }
        }
    }
}

proof fn lemma_units_without<T>(
    items: Seq<T>,
    picks: spec_fn(T) -> bool,
    term: spec_fn(T) -> Option<DecimalView>,
    i: int,
)
    requires
        0 <= i < items.len(),
    ensures
        units_of(items, picks, term) == units_of(items.remove(i), picks, term) + (if picks(
            items[i],
        ) {
            units(term(items[i])->0)
        } else {
            0
        }),
    decreases items.len(),
{
    let rest = items.drop_last();
    if i == items.len() - 1 {
        assert(items.remove(i) =~= rest);
    } else {
        lemma_units_without(rest, picks, term, i);
        assert(items.remove(i).drop_last() =~= rest.remove(i));
        assert(items.remove(i).last() == items.last());
    }
}

/// The same terms in another order have the same units.
proof fn lemma_units_permuted<T>(
    a: Seq<T>,
    b: Seq<T>,
    picks: spec_fn(T) -> bool,
    term: spec_fn(T) -> Option<DecimalView>,
)
    requires
        a.to_multiset() == b.to_multiset(),
    ensures
        units_of(a, picks, term) == units_of(b, picks, term),
    decreases b.len(),
{
    a.to_multiset_ensures();
    b.to_multiset_ensures();
    if b.len() > 0 {
        let last = b.last();
        assert(b.to_multiset().count(last) > 0) by {
            assert(b[b.len() - 1] == last);
            assert(b.contains(last));
        }
        assert(a.contains(last));
        let i = choose|i: int| 0 <= i < a.len() && a[i] == last;
        lemma_units_without(a, picks, term, i);
        assert(b.drop_last() =~= b.remove(b.len() - 1));
        lemma_units_permuted(a.remove(i), b.drop_last(), picks, term);
    }
}

proof fn lemma_same_members<T>(a: Seq<T>, b: Seq<T>)
    requires
        a.to_multiset() == b.to_multiset(),
    ensures
        forall|x: T| a.contains(x) == b.contains(x),
{
    a.to_multiset_ensures();
    b.to_multiset_ensures();
    assert forall|x: T| a.contains(x) == b.contains(x) by {
        assert(a.contains(x) == (a.to_multiset().count(x) > 0));
        assert(b.contains(x) == (b.to_multiset().count(x) > 0));
    }
}

/// Terms that are not negative have the same sum in every order, to the last decimal place.
proof fn lemma_summed_permuted<T>(
    a: Seq<T>,
    b: Seq<T>,
    picks: spec_fn(T) -> bool,
    term: spec_fn(T) -> Option<DecimalView>,
)
    requires
        a.to_multiset() == b.to_multiset(),
        exact(a, picks, term),
        exact(b, picks, term),
        forall|i: int| 0 <= i < a.len() && picks(#[trigger] a[i]) ==> term(a[i])->0.mantissa >= 0,
    ensures
        summed(a, picks, term)->0.mantissa > 0 ==> summed(a, picks, term) == summed(b, picks, term),
        summed(a, picks, term)->0.mantissa == 0 ==> summed(b, picks, term)->0.mantissa == 0,
        summed(a, picks, term)->0.mantissa >= 0,
{
    lemma_same_members(a, b);
    assert forall|i: int| 0 <= i < b.len() && picks(#[trigger] b[i]) implies term(b[i])->0.mantissa
        >= 0 by {
        assert(b.contains(b[i]));
        let j = choose|j: int| 0 <= j < a.len() && a[j] == b[i];
        assert(picks(a[j]));
    }
    lemma_summed(a, picks, term);
    lemma_summed(b, picks, term);
    lemma_summed_scale(a, picks, term);
    lemma_summed_scale(b, picks, term);
    lemma_units_permuted(a, b, picks, term);
    let x = summed(a, picks, term)->0;
    let y = summed(b, picks, term)->0;
    lemma_units_sign(x);
    lemma_units_sign(y);
    if x.mantissa > 0 {
        let i = choose|i: int|
            0 <= i < a.len() && picks(#[trigger] a[i]) && term(a[i])->0.mantissa > 0 && term(
                a[i],
            )->0.scale == x.scale;
        assert(a.contains(a[i]));
        let k = choose|k: int| 0 <= k < b.len() && b[k] == a[i];
        assert(picks(b[k]));
        let j = choose|j: int|
            0 <= j < b.len() && picks(#[trigger] b[j]) && term(b[j])->0.mantissa > 0 && term(
                b[j],
            )->0.scale == y.scale;
        assert(b.contains(b[j]));
        let m = choose|m: int| 0 <= m < a.len() && a[m] == b[j];
        assert(picks(a[m]));
        lemma_units_equal(x, y);
    }
}

/// The filled buys of a symbol.
pub open spec fn buys_of(symbol: Seq<char>) -> spec_fn(OrderView) -> bool {
    |o: OrderView| is_fill(o, Side::Buy) && o.symbol == symbol
}

/// The filled sells of a symbol with an order type.
pub open spec fn sells_of(key: SaleKey) -> spec_fn(OrderView) -> bool {
    |o: OrderView| is_fill(o, Side::Sell) && o.symbol == key.0 && o.order_type == key.1
}

/// What an order cost.
pub open spec fn cost_term() -> spec_fn(OrderView) -> Option<DecimalView> {
    |o: OrderView| decimal_product(o.price, o.amount)
}

/// How much an order traded.
pub open spec fn amount_term() -> spec_fn(OrderView) -> Option<DecimalView> {
    |o: OrderView| Some(o.amount)
}

/// What a sell earned against an average price.
pub open spec fn gain_term(average: DecimalView) -> spec_fn(OrderView) -> Option<DecimalView> {
    |o: OrderView| sale_result(o, average)
}

pub(crate) proof fn lemma_order_sums(orders: Seq<OrderView>, key: SaleKey, average: DecimalView)
    ensures
        bought_cost(orders, key.0) == summed(orders, buys_of(key.0), cost_term()),
        bought_quantity(orders, key.0) == summed(orders, buys_of(key.0), amount_term()),
        sales_result(orders, key, average) == summed(orders, sells_of(key), gain_term(average)),
    decreases orders.len(),
{
    if orders.len() > 0 {
        lemma_order_sums(orders.drop_last(), key, average);
    }
}

/// Whether no addition on the way to the average price of a symbol loses anything, and the
/// average, where there is one, is in range.
pub open spec fn buys_add_up(orders: Seq<OrderView>, symbol: Seq<char>) -> bool {
    &&& exact(orders, buys_of(symbol), cost_term())
    &&& exact(orders, buys_of(symbol), amount_term())
    &&& (bought_cost(orders, symbol), bought_quantity(orders, symbol)) matches (
        Some(cost),
        Some(quantity),
    ) ==> (decimal_quotient(cost, quantity) matches Some(average) ==> average.valid())
}

/// Whether no addition on the way to the realized result of a symbol and order type loses
/// anything.
pub open spec fn sells_add_up(orders: Seq<OrderView>, key: SaleKey) -> bool {
    average_price(orders, key.0) matches Some(average) ==> exact(
        orders,
        sells_of(key),
        gain_term(average),
    )
}

/// The details of an order type.
pub open spec fn of_type(order_type: OrderType) -> spec_fn(RealizedPnlDetailView) -> bool {
    |d: RealizedPnlDetailView| d.order_type == order_type
}

/// All details.
pub open spec fn any_detail() -> spec_fn(RealizedPnlDetailView) -> bool {
    |d: RealizedPnlDetailView| true
}

/// The result in a detail.
pub open spec fn detail_term() -> spec_fn(RealizedPnlDetailView) -> Option<DecimalView> {
    |d: RealizedPnlDetailView| Some(d.pnl)
}

/// All entries.
pub open spec fn any_entry() -> spec_fn((Seq<char>, DecimalView)) -> bool {
    |entry: (Seq<char>, DecimalView)| true
}

/// The number in an entry.
pub open spec fn entry_term() -> spec_fn((Seq<char>, DecimalView)) -> Option<DecimalView> {
    |entry: (Seq<char>, DecimalView)| Some(entry.1)
}

/// Whether no addition on the way to the results per symbol loses anything.
pub open spec fn symbols_add_up(details: Seq<RealizedPnlDetailView>) -> bool
    decreases details.len(),
{
    details.len() == 0 || {
        let d = details.last();
        &&& symbols_add_up(details.drop_last())
        &&& by_symbol(details.drop_last()) matches Some(entries) && {
            let place = entry_place(entries, d.symbol);
            joins(
                Some(
                    if place < entries.len() {
                        entries[place].1
                    } else {
                        decimal_zero()
                    },
                ),
                Some(d.pnl),
            )
        }
    }
}

/// Whether no addition on the way from the details to the totals loses anything.
pub open spec fn details_add_up(details: Seq<RealizedPnlDetailView>) -> bool {
    &&& symbols_add_up(details)
    &&& by_symbol(details) matches Some(entries) && exact(entries, any_entry(), entry_term())
    &&& exact(details, of_type(OrderType::Market), detail_term())
    &&& exact(details, of_type(OrderType::Limit), detail_term())
    &&& exact(details, of_type(OrderType::StopLimit), detail_term())
}

pub(crate) proof fn lemma_type_sums(details: Seq<RealizedPnlDetailView>, order_type: OrderType)
    ensures
        type_total(details, order_type) == summed(details, of_type(order_type), detail_term()),
    decreases details.len(),
{
    if details.len() > 0 {
        lemma_type_sums(details.drop_last(), order_type);
    }
}

pub(crate) proof fn lemma_entry_sums(entries: Seq<(Seq<char>, DecimalView)>)
    ensures
        entries_total(entries) == summed(entries, any_entry(), entry_term()),
    decreases entries.len(),
{
    if entries.len() > 0 {
        lemma_entry_sums(entries.drop_last());
    }
}

pub(crate) proof fn lemma_entry_place<T>(entries: Seq<(Seq<char>, T)>, name: Seq<char>)
    ensures
        0 <= entry_place(entries, name) <= entries.len(),
        entry_place(entries, name) < entries.len() ==> entries[entry_place(entries, name)].0
            == name,
        entry_place(entries, name) == entries.len() ==> forall|i: int|
            0 <= i < entries.len() ==> (#[trigger] entries[i]).0 != name,
    decreases entries.len(),
{
    if entries.len() > 0 && entries[0].0 != name {
        let rest = entries.drop_first();
        lemma_entry_place(rest, name);
        if entry_place(rest, name) == rest.len() {
            assert forall|i: int| 0 <= i < entries.len() implies (#[trigger] entries[i]).0
                != name by {
                if i > 0 {
                    assert(rest[i - 1] == entries[i]);
                }
            }
        }
    }
}

/// The results per symbol have the units of the details.
proof fn lemma_symbol_units(details: Seq<RealizedPnlDetailView>)
    requires
        symbols_add_up(details),
    ensures
        by_symbol(details) matches Some(entries) && units_of(entries, any_entry(), entry_term())
            == units_of(details, any_detail(), detail_term()),
    decreases details.len(),
{
    if details.len() > 0 {
        let d = details.last();
        lemma_symbol_units(details.drop_last());
        let entries = by_symbol(details.drop_last())->0;
        let place = entry_place(entries, d.symbol);
        lemma_entry_place(entries, d.symbol);
        let picks = any_entry();
        let term = entry_term();
        if place < entries.len() {
            let after = by_symbol(details)->0;
            lemma_units_sum(entries[place].1, d.pnl);
            lemma_units_without(entries, picks, term, place);
            lemma_units_without(after, picks, term, place);
            assert(entries.remove(place) =~= after.remove(place));
        } else {
            lemma_units_sum(decimal_zero(), d.pnl);
            lemma_units_sign(decimal_zero());
            let after = by_symbol(details)->0;
            assert(after.drop_last() =~= entries);
        }
    }
}

/// The results per order type have the units of the details.
proof fn lemma_type_units(details: Seq<RealizedPnlDetailView>)
    ensures
        units_of(details, any_detail(), detail_term()) == units_of(
            details,
            of_type(OrderType::Market),
            detail_term(),
        ) + units_of(details, of_type(OrderType::Limit), detail_term()) + units_of(
            details,
            of_type(OrderType::StopLimit),
            detail_term(),
        ),
    decreases details.len(),
{
    if details.len() > 0 {
        lemma_type_units(details.drop_last());
    }
}

/// The realized total is the sum of the details, of the results per symbol, and of the results
/// per order type.
pub proof fn law_totals_agree(
    orders: Seq<OrderView>,
    positions: Seq<PositionView>,
    quotes: Map<Seq<char>, QuoteView>,
)
    requires
        pnl_of(orders, positions, quotes) matches Some(stats) && details_add_up(
            stats.realized_details,
        ),
    ensures
        pnl_of(orders, positions, quotes) matches Some(stats) && {
            let total = units(stats.realized_total);
            let types = stats.realized_by_order_type;
            &&& total == units_of(stats.realized_details, any_detail(), detail_term())
            &&& total == units_of(stats.realized_by_symbol, any_entry(), entry_term())
            &&& total == units(types.market) + units(types.limit) + units(types.stop_limit)
        },
{
    let stats = pnl_of(orders, positions, quotes)->0;
    let all = stats.realized_details;
    lemma_symbol_units(all);
    lemma_type_units(all);
    lemma_entry_sums(stats.realized_by_symbol);
    lemma_summed(stats.realized_by_symbol, any_entry(), entry_term());
    lemma_type_sums(all, OrderType::Market);
    lemma_type_sums(all, OrderType::Limit);
    lemma_type_sums(all, OrderType::StopLimit);
    lemma_summed(all, of_type(OrderType::Market), detail_term());
    lemma_summed(all, of_type(OrderType::Limit), detail_term());
    lemma_summed(all, of_type(OrderType::StopLimit), detail_term());
}

/// Whether no name stands twice among entries.
pub open spec fn names_once<T>(entries: Seq<(Seq<char>, T)>) -> bool {
    forall|i: int, j: int|
        0 <= i < j < entries.len() ==> (#[trigger] entries[i]).0 != (#[trigger] entries[j]).0
}

proof fn lemma_with_entry<T>(entries: Seq<(Seq<char>, T)>, name: Seq<char>, value: T)
    requires
        names_once(entries),
    ensures
        names_once(with_entry(entries, name, value)),
{
    lemma_entry_place(entries, name);
}

proof fn lemma_realized_names(details: Seq<RealizedPnlDetailView>)
    ensures
        by_symbol(details) matches Some(entries) ==> names_once(entries),
    decreases details.len(),
{
    if details.len() > 0 && by_symbol(details) is Some {
        lemma_realized_names(details.drop_last());
        let entries = by_symbol(details.drop_last())->0;
        let d = details.last();
        let place = entry_place(entries, d.symbol);
        let before = if place < entries.len() {
            entries[place].1
        } else {
            decimal_zero()
        };
        lemma_with_entry(entries, d.symbol, decimal_sum(before, d.pnl)->0);
    }
}

proof fn lemma_unrealized_names(
    quotes: Map<Seq<char>, QuoteView>,
    positions: Seq<PositionView>,
)
    ensures
        unrealized(quotes, positions) matches Some((total, entries)) ==> names_once(entries),
    decreases positions.len(),
{
    if positions.len() > 0 && unrealized(quotes, positions) is Some {
        lemma_unrealized_names(quotes, positions.drop_last());
        let p = positions.last();
        let (_, entries) = unrealized(quotes, positions.drop_last())->0;
        if p.quantity.mantissa != 0 {
            lemma_with_entry(entries, p.symbol, open_result(quotes, p)->0);
        }
    }
}

/// Each symbol has one realized and one unrealized result.
pub proof fn law_symbols_once(
    orders: Seq<OrderView>,
    positions: Seq<PositionView>,
    quotes: Map<Seq<char>, QuoteView>,
)
    ensures
        pnl_of(orders, positions, quotes) matches Some(stats) ==> names_once(
            stats.realized_by_symbol,
        ) && names_once(stats.unrealized_by_symbol),
{
    if pnl_of(orders, positions, quotes) is Some {
        lemma_realized_names(pnl_of(orders, positions, quotes)->0.realized_details);
        lemma_unrealized_names(quotes, positions);
    }
}

/// The filled orders among orders.
pub open spec fn fills(orders: Seq<OrderView>) -> Seq<OrderView>
    decreases orders.len(),
{
    if orders.len() == 0 {
        Seq::empty()
    } else if orders.last().status == OrderStatus::Filled {
        fills(orders.drop_last()).push(orders.last())
    } else {
        fills(orders.drop_last())
    }
}

proof fn lemma_fills_members(orders: Seq<OrderView>)
    ensures
        forall|o: OrderView| #[trigger]
            fills(orders).contains(o) <==> orders.contains(o) && o.status == OrderStatus::Filled,
    decreases orders.len(),
{
    if orders.len() > 0 {
        let rest = orders.drop_last();
        let last = orders.last();
        lemma_fills_members(rest);
        assert forall|o: OrderView| #[trigger]
            fills(orders).contains(o) <==> orders.contains(o) && o.status
                == OrderStatus::Filled by {
            if orders.contains(o) {
                let i = choose|i: int| 0 <= i < orders.len() && orders[i] == o;
                if i < rest.len() {
                    assert(rest[i] == o);
                    assert(rest.contains(o));
                }
            }
            if rest.contains(o) {
                let i = choose|i: int| 0 <= i < rest.len() && rest[i] == o;
                assert(orders[i] == o);
            }
            assert(orders[orders.len() - 1] == last);
            if last.status == OrderStatus::Filled {
                let before = fills(rest);
                assert(before.push(last)[before.len() as int] == last);
                if before.contains(o) {
                    let i = choose|i: int| 0 <= i < before.len() && before[i] == o;
                    assert(before.push(last)[i] == o);
                }
                if before.push(last).contains(o) && o != last {
                    let i = choose|i: int| 0 <= i <= before.len() && before.push(last)[i] == o;
                    assert(before[i] == o);
                }
            }
        }
    }
}

proof fn lemma_fills_sums(orders: Seq<OrderView>, key: SaleKey, average: DecimalView)
    ensures
        bought_cost(fills(orders), key.0) == bought_cost(orders, key.0),
        bought_quantity(fills(orders), key.0) == bought_quantity(orders, key.0),
        sales_result(fills(orders), key, average) == sales_result(orders, key, average),
        sold_keys(fills(orders)) == sold_keys(orders),
    decreases orders.len(),
{
    if orders.len() > 0 {
        let rest = orders.drop_last();
        lemma_fills_sums(rest, key, average);
        if orders.last().status == OrderStatus::Filled {
            assert(fills(orders).drop_last() =~= fills(rest));
        }
    }
}

proof fn lemma_details_of_fills(orders: Seq<OrderView>, keys: Seq<SaleKey>)
    ensures
        details(fills(orders), keys) == details(orders, keys),
    decreases keys.len(),
{
    if keys.len() > 0 {
        let key = keys.last();
        lemma_details_of_fills(orders, keys.drop_last());
        lemma_fills_sums(orders, key, decimal_zero());
        if average_price(orders, key.0) is Some {
            lemma_fills_sums(orders, key, average_price(orders, key.0)->0);
        }
    }
}

/// Orders that are not filled do not count: the profit and loss is that of the filled orders.
pub proof fn law_only_fills_count(
    orders: Seq<OrderView>,
    positions: Seq<PositionView>,
    quotes: Map<Seq<char>, QuoteView>,
)
    ensures
        pnl_of(fills(orders), positions, quotes) == pnl_of(orders, positions, quotes),
{
    let filled = fills(orders);
    lemma_fills_members(orders);
    assert forall|symbol: Seq<char>| #[trigger]
        average_price(filled, symbol) == average_price(orders, symbol) by {
        lemma_fills_sums(orders, (symbol, OrderType::Market), decimal_zero());
    }
    if averages_in_range(orders) {
        assert forall|i: int|
            0 <= i < filled.len() && is_fill(#[trigger] filled[i], Side::Buy) implies average_price(
            filled,
            filled[i].symbol,
        ) is Some by {
            assert(filled.contains(filled[i]));
            let j = choose|j: int| 0 <= j < orders.len() && orders[j] == filled[i];
            assert(is_fill(orders[j], Side::Buy));
        }
    }
    if averages_in_range(filled) {
        assert forall|i: int|
            0 <= i < orders.len() && is_fill(#[trigger] orders[i], Side::Buy) implies average_price(
            orders,
            orders[i].symbol,
        ) is Some by {
            assert(orders.contains(orders[i]));
            assert(filled.contains(orders[i]));
            let j = choose|j: int| 0 <= j < filled.len() && filled[j] == orders[i];
            assert(is_fill(filled[j], Side::Buy));
        }
    }
    lemma_fills_sums(orders, (Seq::empty(), OrderType::Market), decimal_zero());
    lemma_details_of_fills(orders, sold_keys(orders));
}

/// Whether no addition on the way from the orders to the realized results loses anything.
pub open spec fn adds_up(orders: Seq<OrderView>) -> bool {
    &&& forall|symbol: Seq<char>| #[trigger] buys_add_up(orders, symbol)
    &&& forall|key: SaleKey| #[trigger] sells_add_up(orders, key)
    &&& details(orders, sold_keys(orders)) matches Some(all) ==> details_add_up(all)
}

/// Whether nothing was bought at a negative price or in a negative amount.
pub open spec fn sound_buys(orders: Seq<OrderView>) -> bool {
    forall|i: int|
        0 <= i < orders.len() && is_fill(#[trigger] orders[i], Side::Buy)
            ==> orders[i].price.mantissa >= 0 && orders[i].amount.mantissa >= 0
}

/// Whether what a sell earned against an average price is computed without loss.
pub open spec fn earns_exactly(order: OrderView, average: DecimalView) -> bool {
    &&& order.price.valid() && order.amount.valid() && average.valid()
    &&& subtracts_exactly(order.price, average)
    &&& decimal_difference(order.price, average) matches Some(gain) && multiplies_exactly(
        gain,
        order.amount,
    )
}

/// Whether what the filled sells earned is computed without loss.
pub open spec fn gains_exact(orders: Seq<OrderView>) -> bool {
    forall|i: int|
        0 <= i < orders.len() && is_fill(#[trigger] orders[i], Side::Sell) ==> (average_price(
            orders,
            orders[i].symbol,
        ) matches Some(average) ==> earns_exactly(orders[i], average))
}

/// The average price of a symbol is the same number in every order.
proof fn lemma_average_numbers(a: Seq<OrderView>, b: Seq<OrderView>, symbol: Seq<char>)
    requires
        a.to_multiset() == b.to_multiset(),
        buys_add_up(a, symbol),
        buys_add_up(b, symbol),
    ensures
        same_result(average_price(a, symbol), average_price(b, symbol)),
{
    let key = (symbol, OrderType::Market);
    let picks = buys_of(symbol);
    lemma_order_sums(a, key, decimal_zero());
    lemma_order_sums(b, key, decimal_zero());
    lemma_summed(a, picks, cost_term());
    lemma_summed(b, picks, cost_term());
    lemma_summed(a, picks, amount_term());
    lemma_summed(b, picks, amount_term());
    lemma_units_permuted(a, b, picks, cost_term());
    lemma_units_permuted(a, b, picks, amount_term());
    let cost = bought_cost(a, symbol)->0;
    let quantity = bought_quantity(a, symbol)->0;
    let other_cost = bought_cost(b, symbol)->0;
    let other_quantity = bought_quantity(b, symbol)->0;
    lemma_units_sign(quantity);
    lemma_units_sign(other_quantity);
    if quantity.mantissa != 0 {
        lemma_quotient_numbers(cost, quantity, other_cost, other_quantity);
        if decimal_quotient(cost, quantity) is Some {
            lemma_rounded_same(
                decimal_quotient(cost, quantity)->0,
                decimal_quotient(other_cost, other_quantity)->0,
            );
        }
    }
}

/// What a sell earned against an average price is the same number, however the average is
/// written.
proof fn lemma_gain_numbers(order: OrderView, average: DecimalView, other: DecimalView)
    requires
        units(average) == units(other),
        earns_exactly(order, average),
        earns_exactly(order, other),
    ensures
        sale_result(order, average) matches Some(x) && (sale_result(order, other) matches Some(y)
            && units(x) == units(y)),
{
    lemma_units_difference(order.price, average);
    lemma_units_difference(order.price, other);
    lemma_product_numbers(
        decimal_difference(order.price, average)->0,
        decimal_difference(order.price, other)->0,
        order.amount,
    );
}

proof fn lemma_units_termwise<T>(
    items: Seq<T>,
    picks: spec_fn(T) -> bool,
    term: spec_fn(T) -> Option<DecimalView>,
    other: spec_fn(T) -> Option<DecimalView>,
)
    requires
        forall|i: int|
            0 <= i < items.len() && picks(#[trigger] items[i]) ==> units(term(items[i])->0)
                == units(other(items[i])->0),
    ensures
        units_of(items, picks, term) == units_of(items, picks, other),
    decreases items.len(),
{
    if items.len() > 0 {
        let rest = items.drop_last();
        assert forall|i: int| 0 <= i < rest.len() && picks(#[trigger] rest[i]) implies units(
            term(rest[i])->0,
        ) == units(other(rest[i])->0) by {
            assert(rest[i] == items[i]);
        }
        lemma_units_termwise(rest, picks, term, other);
        assert(items[items.len() - 1] == items.last());
    }
}

proof fn lemma_average_permuted(a: Seq<OrderView>, b: Seq<OrderView>, symbol: Seq<char>)
    requires
        a.to_multiset() == b.to_multiset(),
        sound_buys(a),
        buys_add_up(a, symbol),
        buys_add_up(b, symbol),
    ensures
        average_price(a, symbol) == average_price(b, symbol),
{
    let key = (symbol, OrderType::Market);
    lemma_order_sums(a, key, decimal_zero());
    lemma_order_sums(b, key, decimal_zero());
    lemma_summed(a, buys_of(symbol), cost_term());
    assert forall|i: int| 0 <= i < a.len() && buys_of(symbol)(#[trigger] a[i]) implies cost_term()(
        a[i],
    )->0.mantissa >= 0 by {
        lemma_product_not_negative(a[i].price, a[i].amount);
    }
    lemma_summed_permuted(a, b, buys_of(symbol), cost_term());
    lemma_summed_permuted(a, b, buys_of(symbol), amount_term());
    lemma_summed(b, buys_of(symbol), cost_term());
    lemma_summed(a, buys_of(symbol), amount_term());
    lemma_summed(b, buys_of(symbol), amount_term());
}

/// Whether two results are both out of range, or the same number.
pub open spec fn same_result(x: Option<DecimalView>, y: Option<DecimalView>) -> bool {
    match (x, y) {
        (Some(x), Some(y)) => units(x) == units(y),
        (None, None) => true,
        _ => false,
    }
}

proof fn lemma_realized_permuted(a: Seq<OrderView>, b: Seq<OrderView>, key: SaleKey)
    requires
        a.to_multiset() == b.to_multiset(),
        same_result(average_price(a, key.0), average_price(b, key.0)),
        average_price(a, key.0) == average_price(b, key.0) || (gains_exact(a) && gains_exact(b)),
        sells_add_up(a, key),
        sells_add_up(b, key),
    ensures
        same_result(realized(a, key), realized(b, key)),
{
    if average_price(a, key.0) is Some {
        let average = average_price(a, key.0)->0;
        let other = average_price(b, key.0)->0;
        let picks = sells_of(key);
        lemma_order_sums(a, key, average);
        lemma_order_sums(b, key, other);
        lemma_summed(a, picks, gain_term(average));
        lemma_summed(b, picks, gain_term(other));
        lemma_units_permuted(a, b, picks, gain_term(average));
        if average != other {
            lemma_same_members(a, b);
            assert forall|i: int| 0 <= i < b.len() && picks(#[trigger] b[i]) implies units(
                gain_term(average)(b[i])->0,
            ) == units(gain_term(other)(b[i])->0) by {
                assert(is_fill(b[i], Side::Sell));
                assert(b.contains(b[i]));
                let j = choose|j: int| 0 <= j < a.len() && a[j] == b[i];
                assert(is_fill(a[j], Side::Sell));
                lemma_gain_numbers(b[i], average, other);
            }
            lemma_units_termwise(b, picks, gain_term(average), gain_term(other));
        }
    }
}

/// Keys in their order are determined by which they are.
proof fn lemma_keys_unique(x: Seq<SaleKey>, y: Seq<SaleKey>)
    requires
        ascending(x),
        ascending(y),
        forall|key: SaleKey| #[trigger] x.contains(key) <==> y.contains(key),
    ensures
        x == y,
    decreases x.len(),
{
    if x.len() == 0 {
        if y.len() > 0 {
            assert(y.contains(y[0]));
            assert(x.contains(y[0]));
        }
        assert(x =~= y);
    } else {
        assert(x.contains(x[0]));
        assert(y.contains(x[0]));
        let j = choose|j: int| 0 <= j < y.len() && y[j] == x[0];
        assert(y.contains(y[0]));
        assert(x.contains(y[0]));
        let i = choose|i: int| 0 <= i < x.len() && x[i] == y[0];
        if x[0] != y[0] {
            assert(key_before(y[0], y[j]));
            assert(key_before(x[0], x[i]));
            lemma_key_order(x[0], y[0]);
        }
        let p = x.drop_first();
        let q = y.drop_first();
        lemma_rest_members(x, y);
        lemma_rest_members(y, x);
        assert forall|m: int, n: int| 0 <= m < n < p.len() implies key_before(
            #[trigger] p[m],
            #[trigger] p[n],
        ) by {
            assert(key_before(x[m + 1], x[n + 1]));
        }
        assert forall|m: int, n: int| 0 <= m < n < q.len() implies key_before(
            #[trigger] q[m],
            #[trigger] q[n],
        ) by {
            assert(key_before(y[m + 1], y[n + 1]));
        }
        lemma_keys_unique(p, q);
        assert(x =~= seq![x[0]] + p);
        assert(y =~= seq![y[0]] + q);
    }
}

proof fn lemma_rest_members(x: Seq<SaleKey>, y: Seq<SaleKey>)
    requires
        ascending(x),
        x.len() > 0,
        y.len() > 0,
        x[0] == y[0],
        forall|key: SaleKey| #[trigger] x.contains(key) ==> y.contains(key),
    ensures
        forall|key: SaleKey| #[trigger]
            x.drop_first().contains(key) ==> y.drop_first().contains(key),
{
    let p = x.drop_first();
    let q = y.drop_first();
    assert forall|key: SaleKey| #[trigger] p.contains(key) implies q.contains(key) by {
        let m = choose|m: int| 0 <= m < p.len() && p[m] == key;
        assert(x[m + 1] == key);
        assert(key_before(x[0], x[m + 1]));
        lemma_key_order(x[0], key);
        assert(x.contains(key));
        let n = choose|n: int| 0 <= n < y.len() && y[n] == key;
        assert(q[n - 1] == key);
    }
}

proof fn lemma_keys_permuted(a: Seq<OrderView>, b: Seq<OrderView>)
    requires
        a.to_multiset() == b.to_multiset(),
    ensures
        sold_keys(a) == sold_keys(b),
{
    lemma_sold_keys_kept(a, b);
    lemma_sold_keys_kept(b, a);
    law_details_in_order(a);
    law_details_in_order(b);
    lemma_keys_unique(sold_keys(a), sold_keys(b));
}

proof fn lemma_sold_keys_kept(a: Seq<OrderView>, b: Seq<OrderView>)
    requires
        a.to_multiset() == b.to_multiset(),
    ensures
        forall|key: SaleKey| #[trigger] sold_keys(a).contains(key) ==> sold_keys(b).contains(key),
{
    law_details_in_order(a);
    law_details_in_order(b);
    lemma_same_members(a, b);
    assert forall|key: SaleKey| #[trigger] sold_keys(a).contains(key) implies sold_keys(
        b,
    ).contains(key) by {
        let i = choose|i: int|
            0 <= i < a.len() && is_fill(#[trigger] a[i], Side::Sell) && (
            a[i].symbol,
            a[i].order_type,
        ) == key;
        assert(a.contains(a[i]));
        let j = choose|j: int| 0 <= j < b.len() && b[j] == a[i];
        assert(is_fill(b[j], Side::Sell));
    }
}

/// Whether two lists of details have the same keys and the same numbers.
pub open spec fn same_details(
    x: Seq<RealizedPnlDetailView>,
    y: Seq<RealizedPnlDetailView>,
) -> bool {
    x.len() == y.len() && forall|i: int|
        0 <= i < x.len() ==> (#[trigger] x[i]).symbol == y[i].symbol && x[i].order_type
            == y[i].order_type && units(x[i].pnl) == units(y[i].pnl)
}

proof fn lemma_details_permuted(a: Seq<OrderView>, b: Seq<OrderView>, keys: Seq<SaleKey>)
    requires
        forall|key: SaleKey| same_result(#[trigger] realized(a, key), realized(b, key)),
    ensures
        match (details(a, keys), details(b, keys)) {
            (Some(x), Some(y)) => same_details(x, y),
            (None, None) => true,
            _ => false,
        },
    decreases keys.len(),
{
    if keys.len() > 0 {
        lemma_details_permuted(a, b, keys.drop_last());
        assert(same_result(realized(a, keys.last()), realized(b, keys.last())));
    }
}

/// Whether two lists of entries have the same names and the same numbers.
pub open spec fn same_entries(
    x: Seq<(Seq<char>, DecimalView)>,
    y: Seq<(Seq<char>, DecimalView)>,
) -> bool {
    x.len() == y.len() && forall|i: int|
        0 <= i < x.len() ==> (#[trigger] x[i]).0 == y[i].0 && units(x[i].1) == units(y[i].1)
}

proof fn lemma_same_place(
    x: Seq<(Seq<char>, DecimalView)>,
    y: Seq<(Seq<char>, DecimalView)>,
    name: Seq<char>,
)
    requires
        same_entries(x, y),
    ensures
        entry_place(x, name) == entry_place(y, name),
    decreases x.len(),
{
    if x.len() > 0 {
        let p = x.drop_first();
        let q = y.drop_first();
        assert(x[0].0 == y[0].0);
        assert forall|i: int| 0 <= i < p.len() implies (#[trigger] p[i]).0 == q[i].0 && units(
            p[i].1,
        ) == units(q[i].1) by {
            assert(x[i + 1].0 == y[i + 1].0);
        }
        lemma_same_place(p, q, name);
    }
}

proof fn lemma_same_symbols(x: Seq<RealizedPnlDetailView>, y: Seq<RealizedPnlDetailView>)
    requires
        same_details(x, y),
        symbols_add_up(x),
        symbols_add_up(y),
    ensures
        by_symbol(x) is Some,
        by_symbol(y) is Some,
        same_entries(by_symbol(x)->0, by_symbol(y)->0),
    decreases x.len(),
{
    if x.len() > 0 {
        let p = x.drop_last();
        let q = y.drop_last();
        assert(same_details(p, q)) by {
            assert forall|i: int| 0 <= i < p.len() implies (#[trigger] p[i]).symbol == q[i].symbol
                && p[i].order_type == q[i].order_type && units(p[i].pnl) == units(q[i].pnl) by {
                assert(x[i].symbol == y[i].symbol);
            }
        }
        lemma_same_symbols(p, q);
        let e = by_symbol(p)->0;
        let f = by_symbol(q)->0;
        let name = x.last().symbol;
        assert(x[x.len() - 1].symbol == y[y.len() - 1].symbol);
        lemma_same_place(e, f, name);
        lemma_entry_place(e, name);
        let place = entry_place(e, name);
        if place < e.len() {
            assert(e[place].0 == f[place].0);
            lemma_units_sum(e[place].1, x.last().pnl);
            lemma_units_sum(f[place].1, y.last().pnl);
        } else {
            lemma_units_sum(decimal_zero(), x.last().pnl);
            lemma_units_sum(decimal_zero(), y.last().pnl);
        }
    }
}

proof fn lemma_same_units(
    x: Seq<RealizedPnlDetailView>,
    y: Seq<RealizedPnlDetailView>,
    order_type: OrderType,
)
    requires
        same_details(x, y),
    ensures
        units_of(x, any_detail(), detail_term()) == units_of(y, any_detail(), detail_term()),
        units_of(x, of_type(order_type), detail_term()) == units_of(
            y,
            of_type(order_type),
            detail_term(),
        ),
    decreases x.len(),
{
    if x.len() > 0 {
        let p = x.drop_last();
        let q = y.drop_last();
        assert forall|i: int| 0 <= i < p.len() implies (#[trigger] p[i]).symbol == q[i].symbol
            && p[i].order_type == q[i].order_type && units(p[i].pnl) == units(q[i].pnl) by {
            assert(x[i].symbol == y[i].symbol);
        }
        lemma_same_units(p, q, order_type);
        assert(x[x.len() - 1].symbol == y[y.len() - 1].symbol);
    }
}

/// Whether two profits and losses are both out of range, or agree in every number.
pub open spec fn same_profit(x: Option<PnlStatsView>, y: Option<PnlStatsView>) -> bool {
    match (x, y) {
        (Some(x), Some(y)) => {
            let p = x.realized_by_order_type;
            let q = y.realized_by_order_type;
            &&& units(x.realized_total) == units(y.realized_total)
            &&& same_entries(x.realized_by_symbol, y.realized_by_symbol)
            &&& units(p.market) == units(q.market)
            &&& units(p.limit) == units(q.limit)
            &&& units(p.stop_limit) == units(q.stop_limit)
            &&& same_details(x.realized_details, y.realized_details)
            &&& x.unrealized_total == y.unrealized_total
            &&& x.unrealized_by_symbol == y.unrealized_by_symbol
        },
        (None, None) => true,
        _ => false,
    }
}

proof fn lemma_averages_permuted(a: Seq<OrderView>, b: Seq<OrderView>)
    requires
        a.to_multiset() == b.to_multiset(),
        forall|symbol: Seq<char>|
            same_result(#[trigger] average_price(a, symbol), average_price(b, symbol)),
        averages_in_range(a),
    ensures
        averages_in_range(b),
{
    lemma_same_members(a, b);
    assert forall|i: int|
        0 <= i < b.len() && is_fill(#[trigger] b[i], Side::Buy) implies average_price(
        b,
        b[i].symbol,
    ) is Some by {
        assert(b.contains(b[i]));
        let j = choose|j: int| 0 <= j < a.len() && a[j] == b[i];
        assert(is_fill(a[j], Side::Buy));
        assert(average_price(a, a[j].symbol) is Some);
    }
}

proof fn lemma_totals_permuted(x: Seq<RealizedPnlDetailView>, y: Seq<RealizedPnlDetailView>)
    requires
        same_details(x, y),
        details_add_up(x),
        details_add_up(y),
    ensures
        forall|order_type: OrderType|
            (#[trigger] type_total(x, order_type)) is Some && type_total(y, order_type) is Some
                && units(type_total(x, order_type)->0) == units(type_total(y, order_type)->0),
        by_symbol(x) is Some,
        by_symbol(y) is Some,
        same_entries(by_symbol(x)->0, by_symbol(y)->0),
        entries_total(by_symbol(x)->0) is Some,
        entries_total(by_symbol(y)->0) is Some,
        units(entries_total(by_symbol(x)->0)->0) == units(entries_total(by_symbol(y)->0)->0),
{
    assert forall|order_type: OrderType|
        (#[trigger] type_total(x, order_type)) is Some && type_total(y, order_type) is Some
            && units(type_total(x, order_type)->0) == units(type_total(y, order_type)->0) by {
        lemma_type_sums(x, order_type);
        lemma_type_sums(y, order_type);
        lemma_summed(x, of_type(order_type), detail_term());
        lemma_summed(y, of_type(order_type), detail_term());
        lemma_same_units(x, y, order_type);
    }
    lemma_same_symbols(x, y);
    lemma_symbol_units(x);
    lemma_symbol_units(y);
    lemma_same_units(x, y, OrderType::Market);
    lemma_entry_sums(by_symbol(x)->0);
    lemma_entry_sums(by_symbol(y)->0);
    lemma_summed(by_symbol(x)->0, any_entry(), entry_term());
    lemma_summed(by_symbol(y)->0, any_entry(), entry_term());
}

/// The order in which the orders stand does not matter: the same filled orders, in any order and
/// with any other orders between them, have the same profit and loss. This holds where no sum is
/// rounded, and either nothing was bought at a negative price, or what the sells earned is not
/// rounded either.
pub proof fn law_order_does_not_matter(
    a: Seq<OrderView>,
    b: Seq<OrderView>,
    positions: Seq<PositionView>,
    quotes: Map<Seq<char>, QuoteView>,
)
    requires
        fills(a).to_multiset() == fills(b).to_multiset(),
        adds_up(fills(a)),
        adds_up(fills(b)),
        sound_buys(fills(a)) || (gains_exact(fills(a)) && gains_exact(fills(b))),
    ensures
        same_profit(pnl_of(a, positions, quotes), pnl_of(b, positions, quotes)),
{
    law_only_fills_count(a, positions, quotes);
    law_only_fills_count(b, positions, quotes);
    let p = fills(a);
    let q = fills(b);
    assert forall|symbol: Seq<char>|
        same_result(#[trigger] average_price(p, symbol), average_price(q, symbol)) by {
        assert(buys_add_up(p, symbol) && buys_add_up(q, symbol));
        lemma_average_numbers(p, q, symbol);
    }
    assert forall|key: SaleKey| same_result(#[trigger] realized(p, key), realized(q, key)) by {
        assert(same_result(average_price(p, key.0), average_price(q, key.0)));
        assert(buys_add_up(p, key.0) && buys_add_up(q, key.0));
        if sound_buys(p) {
            lemma_average_permuted(p, q, key.0);
        }
        assert(sells_add_up(p, key) && sells_add_up(q, key));
        lemma_realized_permuted(p, q, key);
    }
    lemma_keys_permuted(p, q);
    lemma_details_permuted(p, q, sold_keys(p));
    if averages_in_range(p) {
        lemma_averages_permuted(p, q);
    }
    if averages_in_range(q) {
        assert forall|symbol: Seq<char>|
            same_result(#[trigger] average_price(q, symbol), average_price(p, symbol)) by {
            assert(same_result(average_price(p, symbol), average_price(q, symbol)));
        }
        lemma_averages_permuted(q, p);
    }
    if details(p, sold_keys(p)) is Some {
        lemma_totals_permuted(details(p, sold_keys(p))->0, details(q, sold_keys(q))->0);
    }
}

} // verus!
