//! Realized and unrealized profit and loss.
//!
//! Realized, per symbol, from the filled orders:
//! `avg_buy_price = Σ(buy.price × buy.amount) / Σ(buy.amount)` over all filled buys, and
//! `(sell.price − avg_buy_price) × sell.amount` for each filled sell. Unrealized, per open
//! position: `(current_price − position.avg_buy_price) × position.quantity`.

use vstd::prelude::*;

use crate::decimal::{
    decimal_difference, decimal_product, decimal_quotient, decimal_sum, decimal_zero, rounded,
    Decimal, DecimalView,
};
use crate::models::{
    law_order_type_names, Order, OrderStatus, OrderType, OrderView, PnlByOrderType,
    PnlByOrderTypeView, PnlStats, PnlStatsView, Position, PositionView, RealizedPnlDetail,
    RealizedPnlDetailView, Side, UnrealizedPositionPnl, UnrealizedPositionPnlView,
};
use crate::text::{
    is_before, lemma_text_order_total, lemma_text_order_transitive, same_text, text_before,
};
use crate::ws_client::{lookup, quote_of, quotes_in, PriceCache, QuoteView};

verus! {

/// The sum of two numbers that are in range, where it is in range too.
pub open spec fn added(a: Option<DecimalView>, b: Option<DecimalView>) -> Option<DecimalView> {
    match (a, b) {
        (Some(a), Some(b)) => decimal_sum(a, b),
        _ => None,
    }
}

fn add_to(a: Option<Decimal>, b: Option<Decimal>) -> (r: Option<Decimal>)
    ensures
        r.deep_view() == added(a.deep_view(), b.deep_view()),
{
    a?.plus(&b?)
}

/// Whether an order is filled and on the given side.
pub open spec fn is_fill(order: OrderView, side: Side) -> bool {
    order.status == OrderStatus::Filled && order.side == side
}

fn filled_on(order: &Order, side: Side) -> (r: bool)
    ensures
        r == is_fill(order@, side),
{
    order.status == OrderStatus::Filled && order.side == side
}

/// What the filled buys of a symbol cost together.
pub open spec fn bought_cost(orders: Seq<OrderView>, symbol: Seq<char>) -> Option<DecimalView>
    decreases orders.len(),
{
    if orders.len() == 0 {
        Some(decimal_zero())
    } else {
        let o = orders.last();
        let before = bought_cost(orders.drop_last(), symbol);
        if is_fill(o, Side::Buy) && o.symbol == symbol {
            added(before, decimal_product(o.price, o.amount))
        } else {
            before
        }
    }
}

/// How much the filled buys of a symbol bought together.
pub open spec fn bought_quantity(orders: Seq<OrderView>, symbol: Seq<char>) -> Option<DecimalView>
    decreases orders.len(),
{
    if orders.len() == 0 {
        Some(decimal_zero())
    } else {
        let o = orders.last();
        let before = bought_quantity(orders.drop_last(), symbol);
        if is_fill(o, Side::Buy) && o.symbol == symbol {
            added(before, Some(o.amount))
        } else {
            before
        }
    }
}

/// The average price of the filled buys of a symbol; zero where nothing was bought. `None` where
/// a number leaves its range.
pub open spec fn average_price(orders: Seq<OrderView>, symbol: Seq<char>) -> Option<DecimalView> {
    match (bought_cost(orders, symbol), bought_quantity(orders, symbol)) {
        (Some(cost), Some(quantity)) => if quantity.mantissa == 0 {
            Some(decimal_zero())
        } else {
            match decimal_quotient(cost, quantity) {
                Some(average) => Some(rounded(average)),
                None => None,
            }
        },
        _ => None,
    }
}

fn average_of(orders: &Vec<Order>, symbol: &str) -> (r: Option<Decimal>)
    ensures
        r.deep_view() == average_price(orders.deep_view(), symbol@),
{
    let ghost all = orders.deep_view();
    let mut cost = Some(Decimal::zero());
    let mut quantity = Some(Decimal::zero());
    let mut i: usize = 0;
    assert(all.take(0) =~= Seq::<OrderView>::empty());
    while i < orders.len()
        invariant
            i <= orders@.len(),
            all == orders.deep_view(),
            cost.deep_view() == bought_cost(all.take(i as int), symbol@),
            quantity.deep_view() == bought_quantity(all.take(i as int), symbol@),
        decreases orders@.len() - i,
    {
        let o = &orders[i];
        assert(all.take(i + 1).drop_last() =~= all.take(i as int));
        assert(all.take(i + 1).last() == o@);
        if filled_on(o, Side::Buy) && same_text(&o.symbol, symbol) {
            cost = add_to(cost, o.price.times(&o.amount));
            quantity = add_to(quantity, Some(o.amount));
        }
        i = i + 1;
    }
    assert(all.take(all.len() as int) =~= all);
    let quantity = quantity?;
    let cost = cost?;
    if quantity.is_zero() {
        Some(Decimal::zero())
    } else {
        let average = cost.divided_by(&quantity)?;
        Some(average.rounded())
    }
}

/// Where a name first stands among entries; their number where it does not.
pub open spec fn entry_place<T>(entries: Seq<(Seq<char>, T)>, name: Seq<char>) -> int
    decreases entries.len(),
{
    if entries.len() == 0 || entries[0].0 == name {
        0
    } else {
        1 + entry_place(entries.drop_first(), name)
    }
}

fn place_of<T: DeepView>(entries: &Vec<(String, T)>, name: &str) -> (r: usize)
    ensures
        r == entry_place(entries.deep_view(), name@),
        r <= entries@.len(),
        r < entries@.len() ==> entries.deep_view()[r as int].0 == name@,
{
    let ghost all = entries.deep_view();
    let mut i: usize = 0;
    assert(all.skip(0) =~= all);
    while i < entries.len()
        invariant
            i <= entries@.len(),
            all == entries.deep_view(),
            entry_place(all, name@) == i + entry_place(all.skip(i as int), name@),
        decreases entries@.len() - i,
    {
        assert(all.skip(i as int)[0] == entries@[i as int].deep_view());
        assert(all.skip(i as int).drop_first() =~= all.skip(i + 1));
        if same_text(&entries[i].0, name) {
            return i;
        }
        i = i + 1;
    }
    i
}

/// Entries with a value under a name: in place of the value that was there, or at the end.
pub open spec fn with_entry<T>(entries: Seq<(Seq<char>, T)>, name: Seq<char>, value: T) -> Seq<
    (Seq<char>, T),
> {
    let place = entry_place(entries, name);
    if place < entries.len() {
        entries.update(place, (name, value))
    } else {
        entries.push((name, value))
    }
}

fn put_entry<T: DeepView>(entries: &mut Vec<(String, T)>, name: String, value: T)
    ensures
        final(entries).deep_view() == with_entry(
            old(entries).deep_view(),
            name@,
            value.deep_view(),
        ),
{
    let ghost before = entries.deep_view();
    let place = place_of(entries, &name);
    if place < entries.len() {
        entries.set(place, (name, value));
        assert(entries.deep_view() =~= before.update(place as int, (name@, value.deep_view())));
    } else {
        entries.push((name, value));
        assert(entries.deep_view() =~= before.push((name@, value.deep_view())));
    }
}

/// A symbol and an order type.
pub type SaleKey = (Seq<char>, OrderType);

/// The order of the details: by symbol, then by the name of the order type.
pub open spec fn key_before(a: SaleKey, b: SaleKey) -> bool {
    text_before(a.0, b.0) || (a.0 == b.0 && text_before(a.1.name(), b.1.name()))
}

/// Keys in their order with one more among them, where it is not there yet.
pub open spec fn with_key(keys: Seq<SaleKey>, key: SaleKey) -> Seq<SaleKey>
    decreases keys.len(),
{
    if keys.len() == 0 {
        seq![key]
    } else if keys[0] == key {
        keys
    } else if key_before(keys[0], key) {
        seq![keys[0]] + with_key(keys.drop_first(), key)
    } else {
        seq![key] + keys
    }
}

/// The symbols and order types of the filled sells, each once, in their order.
pub open spec fn sold_keys(orders: Seq<OrderView>) -> Seq<SaleKey>
    decreases orders.len(),
{
    if orders.len() == 0 {
        Seq::empty()
    } else {
        let o = orders.last();
        let keys = sold_keys(orders.drop_last());
        if is_fill(o, Side::Sell) {
            with_key(keys, (o.symbol, o.order_type))
        } else {
            keys
        }
    }
}

fn put_key(keys: &mut Vec<(String, OrderType)>, symbol: &str, order_type: OrderType)
    ensures
        keys_view(final(keys)@) == with_key(keys_view(old(keys)@), (symbol@, order_type)),
{
    let ghost all = keys_view(keys@);
    let ghost key = (symbol@, order_type);
    let mut i: usize = 0;
    assert(all.skip(0) =~= all);
    assert(all.take(0) + with_key(all.skip(0), key) =~= with_key(all, key));
    while i < keys.len()
        invariant
            i <= keys@.len(),
            all == keys_view(keys@),
            *keys == *old(keys),
            with_key(all, key) == all.take(i as int) + with_key(all.skip(i as int), key),
            key == (symbol@, order_type),
        ensures
            i < keys@.len() ==> all[i as int] != key && !key_before(all[i as int], key),
        decreases keys@.len() - i,
    {
        let first = &keys[i];
        let ghost rest = all.skip(i as int);
        assert(rest[0] == (first.0@, first.1));
        assert(rest.drop_first() =~= all.skip(i + 1));
        let same_symbol = same_text(&first.0, symbol);
        if same_symbol && first.1 == order_type {
            assert(all.take(i as int) + rest =~= all);
            return;
        }
        let before = is_before(&first.0, symbol) || (same_symbol && is_before(
            first.1.as_str(),
            order_type.as_str(),
        ));
        if !before {
            break;
        }
        assert(all.take(i as int) + (seq![rest[0]] + with_key(all.skip(i + 1), key)) =~= all.take(
            i + 1,
        ) + with_key(all.skip(i + 1), key));
        i = i + 1;
    }
    let ghost rest = all.skip(i as int);
    assert(i < all.len() ==> rest[0] == all[i as int]);
    keys.insert(i, (symbol.to_owned(), order_type));
    assert(keys_view(keys@) =~= all.insert(i as int, key));
    assert(with_key(rest, key) =~= seq![key] + rest);
    assert(all.insert(i as int, key) =~= all.take(i as int) + (seq![key] + rest));
}

/// The views of keys.
pub open spec fn keys_view(keys: Seq<(String, OrderType)>) -> Seq<SaleKey> {
    keys.map_values(|key: (String, OrderType)| (key.0@, key.1))
}

fn keys_of(orders: &Vec<Order>) -> (r: Vec<(String, OrderType)>)
    ensures
        keys_view(r@) == sold_keys(orders.deep_view()),
{
    let ghost all = orders.deep_view();
    let mut keys: Vec<(String, OrderType)> = Vec::new();
    let mut i: usize = 0;
    assert(all.take(0) =~= Seq::<OrderView>::empty());
    assert(keys_view(keys@) =~= sold_keys(all.take(0)));
    while i < orders.len()
        invariant
            i <= orders@.len(),
            all == orders.deep_view(),
            keys_view(keys@) == sold_keys(all.take(i as int)),
        decreases orders@.len() - i,
    {
        let o = &orders[i];
        assert(all.take(i + 1).drop_last() =~= all.take(i as int));
        assert(all.take(i + 1).last() == o@);
        if filled_on(o, Side::Sell) {
            put_key(&mut keys, &o.symbol, o.order_type);
        }
        i = i + 1;
    }
    assert(all.take(all.len() as int) =~= all);
    keys
}

/// What a sale earned against the average price.
pub open spec fn sale_result(order: OrderView, average: DecimalView) -> Option<DecimalView> {
    match decimal_difference(order.price, average) {
        Some(gain) => decimal_product(gain, order.amount),
        None => None,
    }
}

/// What the filled sells of one symbol and order type earned together.
pub open spec fn sales_result(
    orders: Seq<OrderView>,
    key: SaleKey,
    average: DecimalView,
) -> Option<DecimalView>
    decreases orders.len(),
{
    if orders.len() == 0 {
        Some(decimal_zero())
    } else {
        let o = orders.last();
        let before = sales_result(orders.drop_last(), key, average);
        if is_fill(o, Side::Sell) && o.symbol == key.0 && o.order_type == key.1 {
            added(before, sale_result(o, average))
        } else {
            before
        }
    }
}

/// The realized result of one symbol and order type.
pub open spec fn realized(orders: Seq<OrderView>, key: SaleKey) -> Option<DecimalView> {
    match average_price(orders, key.0) {
        Some(average) => sales_result(orders, key, average),
        None => None,
    }
}

fn realized_of(orders: &Vec<Order>, symbol: &str, order_type: OrderType) -> (r: Option<Decimal>)
    ensures
        r.deep_view() == realized(orders.deep_view(), (symbol@, order_type)),
{
    let average = average_of(orders, symbol)?;
    let ghost all = orders.deep_view();
    let ghost key = (symbol@, order_type);
    let mut result = Some(Decimal::zero());
    let mut i: usize = 0;
    assert(all.take(0) =~= Seq::<OrderView>::empty());
    while i < orders.len()
        invariant
            i <= orders@.len(),
            all == orders.deep_view(),
            key == (symbol@, order_type),
            result.deep_view() == sales_result(all.take(i as int), key, average@),
        decreases orders@.len() - i,
    {
        let o = &orders[i];
        assert(all.take(i + 1).drop_last() =~= all.take(i as int));
        assert(all.take(i + 1).last() == o@);
        if filled_on(o, Side::Sell) && same_text(&o.symbol, symbol) && o.order_type == order_type {
            let earned = match o.price.minus(&average) {
                Some(gain) => gain.times(&o.amount),
                None => None,
            };
            result = add_to(result, earned);
        }
        i = i + 1;
    }
    assert(all.take(all.len() as int) =~= all);
    result
}

/// The realized results, one for each key.
pub open spec fn details(orders: Seq<OrderView>, keys: Seq<SaleKey>) -> Option<
    Seq<RealizedPnlDetailView>,
>
    decreases keys.len(),
{
    if keys.len() == 0 {
        Some(Seq::empty())
    } else {
        let key = keys.last();
        match (details(orders, keys.drop_last()), realized(orders, key)) {
            (Some(before), Some(pnl)) => Some(
                before.push(RealizedPnlDetailView { symbol: key.0, order_type: key.1, pnl }),
            ),
            _ => None,
        }
    }
}

fn details_of(orders: &Vec<Order>) -> (r: Option<Vec<RealizedPnlDetail>>)
    ensures
        r.deep_view() == details(orders.deep_view(), sold_keys(orders.deep_view())),
{
    let keys = keys_of(orders);
    let ghost all = keys_view(keys@);
    let ghost seen = orders.deep_view();
    let mut out: Vec<RealizedPnlDetail> = Vec::new();
    let mut i: usize = 0;
    assert(all.take(0) =~= Seq::<SaleKey>::empty());
    assert(out.deep_view() =~= Seq::<RealizedPnlDetailView>::empty());
    while i < keys.len()
        invariant
            i <= keys@.len(),
            all == keys_view(keys@),
            seen == orders.deep_view(),
            all == sold_keys(seen),
            details(seen, all.take(i as int)) == Some(out.deep_view()),
        decreases keys@.len() - i,
    {
        let ghost before = out.deep_view();
        assert(all.take(i + 1).drop_last() =~= all.take(i as int));
        assert(all.take(i + 1).last() == (keys@[i as int].0@, keys@[i as int].1));
        let symbol = keys[i].0.clone();
        let order_type = keys[i].1;
        match realized_of(orders, &symbol, order_type) {
            Some(pnl) => {
                out.push(RealizedPnlDetail { symbol, order_type, pnl });
                assert(out.deep_view() =~= before.push(
                    RealizedPnlDetailView { symbol: symbol@, order_type, pnl: pnl@ },
                ));
            },
            None => {
                proof {
                    lemma_details_stop(seen, all, i + 1);
                }
                return None;
            },
        }
        i = i + 1;
    }
    assert(all.take(all.len() as int) =~= all);
    Some(out)
}

/// Where the results of some keys are out of range, so are those of more keys.
proof fn lemma_details_stop(orders: Seq<OrderView>, keys: Seq<SaleKey>, upto: int)
    requires
        0 <= upto <= keys.len(),
        details(orders, keys.take(upto)) is None,
    ensures
        details(orders, keys) is None,
    decreases keys.len() - upto,
{
    if upto < keys.len() {
        assert(keys.take(upto + 1).drop_last() =~= keys.take(upto));
        lemma_details_stop(orders, keys, upto + 1);
    } else {
        assert(keys.take(upto) =~= keys);
    }
}

/// The realized results per symbol.
pub open spec fn by_symbol(details: Seq<RealizedPnlDetailView>) -> Option<
    Seq<(Seq<char>, DecimalView)>,
>
    decreases details.len(),
{
    if details.len() == 0 {
        Some(Seq::empty())
    } else {
        let d = details.last();
        match by_symbol(details.drop_last()) {
            None => None,
            Some(entries) => {
                let place = entry_place(entries, d.symbol);
                let before = if place < entries.len() {
                    entries[place].1
                } else {
                    decimal_zero()
                };
                match decimal_sum(before, d.pnl) {
                    Some(sum) => Some(with_entry(entries, d.symbol, sum)),
                    None => None,
                }
            },
        }
    }
}

proof fn lemma_by_symbol_stop(details: Seq<RealizedPnlDetailView>, upto: int)
    requires
        0 <= upto <= details.len(),
        by_symbol(details.take(upto)) is None,
    ensures
        by_symbol(details) is None,
    decreases details.len() - upto,
{
    if upto < details.len() {
        assert(details.take(upto + 1).drop_last() =~= details.take(upto));
        lemma_by_symbol_stop(details, upto + 1);
    } else {
        assert(details.take(upto) =~= details);
    }
}

fn totals_by_symbol(details: &Vec<RealizedPnlDetail>) -> (r: Option<Vec<(String, Decimal)>>)
    ensures
        r.deep_view() == by_symbol(details.deep_view()),
{
    let ghost all = details.deep_view();
    let mut entries: Vec<(String, Decimal)> = Vec::new();
    let mut i: usize = 0;
    assert(all.take(0) =~= Seq::<RealizedPnlDetailView>::empty());
    assert(entries.deep_view() =~= Seq::<(Seq<char>, DecimalView)>::empty());
    while i < details.len()
        invariant
            i <= details@.len(),
            all == details.deep_view(),
            by_symbol(all.take(i as int)) == Some(entries.deep_view()),
        decreases details@.len() - i,
    {
        let d = &details[i];
        assert(all.take(i + 1).drop_last() =~= all.take(i as int));
        assert(all.take(i + 1).last() == d@);
        let place = place_of(&entries, &d.symbol);
        let before = if place < entries.len() { entries[place].1 } else { Decimal::zero() };
        match before.plus(&d.pnl) {
            Some(sum) => put_entry(&mut entries, d.symbol.clone(), sum),
            None => {
                proof {
                    lemma_by_symbol_stop(all, i + 1);
                }
                return None;
            },
        }
        i = i + 1;
    }
    assert(all.take(all.len() as int) =~= all);
    Some(entries)
}

/// The realized result of one order type.
pub open spec fn type_total(details: Seq<RealizedPnlDetailView>, order_type: OrderType) -> Option<
    DecimalView,
>
    decreases details.len(),
{
    if details.len() == 0 {
        Some(decimal_zero())
    } else {
        let d = details.last();
        let before = type_total(details.drop_last(), order_type);
        if d.order_type == order_type {
            added(before, Some(d.pnl))
        } else {
            before
        }
    }
}

fn total_of_type(details: &Vec<RealizedPnlDetail>, order_type: OrderType) -> (r: Option<Decimal>)
    ensures
        r.deep_view() == type_total(details.deep_view(), order_type),
{
    let ghost all = details.deep_view();
    let mut total = Some(Decimal::zero());
    let mut i: usize = 0;
    assert(all.take(0) =~= Seq::<RealizedPnlDetailView>::empty());
    while i < details.len()
        invariant
            i <= details@.len(),
            all == details.deep_view(),
            total.deep_view() == type_total(all.take(i as int), order_type),
        decreases details@.len() - i,
    {
        let d = &details[i];
        assert(all.take(i + 1).drop_last() =~= all.take(i as int));
        assert(all.take(i + 1).last() == d@);
        if d.order_type == order_type {
            total = add_to(total, Some(d.pnl));
        }
        i = i + 1;
    }
    assert(all.take(all.len() as int) =~= all);
    total
}

/// The sum of the entries.
pub open spec fn entries_total(entries: Seq<(Seq<char>, DecimalView)>) -> Option<DecimalView>
    decreases entries.len(),
{
    if entries.len() == 0 {
        Some(decimal_zero())
    } else {
        added(entries_total(entries.drop_last()), Some(entries.last().1))
    }
}

fn total_of(entries: &Vec<(String, Decimal)>) -> (r: Option<Decimal>)
    ensures
        r.deep_view() == entries_total(entries.deep_view()),
{
    let ghost all = entries.deep_view();
    let mut total = Some(Decimal::zero());
    let mut i: usize = 0;
    assert(all.take(0) =~= Seq::<(Seq<char>, DecimalView)>::empty());
    while i < entries.len()
        invariant
            i <= entries@.len(),
            all == entries.deep_view(),
            total.deep_view() == entries_total(all.take(i as int)),
        decreases entries@.len() - i,
    {
        assert(all.take(i + 1).drop_last() =~= all.take(i as int));
        assert(all.take(i + 1).last() == entries@[i as int].deep_view());
        total = add_to(total, Some(entries[i].1));
        i = i + 1;
    }
    assert(all.take(all.len() as int) =~= all);
    total
}

/// The live price of a symbol; zero where there is none that is a decimal.
pub open spec fn current_price(
    quotes: Map<Seq<char>, QuoteView>,
    symbol: Seq<char>,
) -> DecimalView {
    rounded(
        match lookup(quotes, symbol) {
            Some(quote) => match quote.price {
                Some(price) => price,
                None => decimal_zero(),
            },
            None => decimal_zero(),
        },
    )
}

fn price_now(prices: &PriceCache, symbol: &str) -> (r: Decimal)
    ensures
        r@ == current_price(quotes_in(*prices), symbol@),
{
    let price = match quote_of(prices, symbol) {
        Some(quote) => match quote.price {
            Some(price) => price,
            None => Decimal::zero(),
        },
        None => Decimal::zero(),
    };
    price.rounded()
}

/// What an open position would earn at the live price.
pub open spec fn open_result(
    quotes: Map<Seq<char>, QuoteView>,
    position: PositionView,
) -> Option<UnrealizedPositionPnlView> {
    let price = current_price(quotes, position.symbol);
    match decimal_difference(price, position.avg_buy_price) {
        None => None,
        Some(gain) => match decimal_product(gain, position.quantity) {
            None => None,
            Some(pnl) => Some(
                UnrealizedPositionPnlView {
                    pnl,
                    quantity: position.quantity,
                    avg_buy_price: position.avg_buy_price,
                    current_price: price,
                },
            ),
        },
    }
}

fn result_of(prices: &PriceCache, position: &Position) -> (r: Option<UnrealizedPositionPnl>)
    ensures
        r.deep_view() == open_result(quotes_in(*prices), position@),
{
    let current_price = price_now(prices, &position.symbol);
    let gain = current_price.minus(&position.avg_buy_price)?;
    let pnl = gain.times(&position.quantity)?;
    Some(
        UnrealizedPositionPnl {
            pnl,
            quantity: position.quantity,
            avg_buy_price: position.avg_buy_price,
            current_price,
        },
    )
}

/// The unrealized results per symbol, and their sum over all open positions.
pub open spec fn unrealized(
    quotes: Map<Seq<char>, QuoteView>,
    positions: Seq<PositionView>,
) -> Option<(DecimalView, Seq<(Seq<char>, UnrealizedPositionPnlView)>)>
    decreases positions.len(),
{
    if positions.len() == 0 {
        Some((decimal_zero(), Seq::empty()))
    } else {
        let p = positions.last();
        match unrealized(quotes, positions.drop_last()) {
            None => None,
            Some((total, entries)) => if p.quantity.mantissa == 0 {
                Some((total, entries))
            } else {
                match open_result(quotes, p) {
                    None => None,
                    Some(result) => match decimal_sum(total, result.pnl) {
                        None => None,
                        Some(sum) => Some((sum, with_entry(entries, p.symbol, result))),
                    },
                }
            },
        }
    }
}

proof fn lemma_unrealized_stop(
    quotes: Map<Seq<char>, QuoteView>,
    positions: Seq<PositionView>,
    upto: int,
)
    requires
        0 <= upto <= positions.len(),
        unrealized(quotes, positions.take(upto)) is None,
    ensures
        unrealized(quotes, positions) is None,
    decreases positions.len() - upto,
{
    if upto < positions.len() {
        assert(positions.take(upto + 1).drop_last() =~= positions.take(upto));
        lemma_unrealized_stop(quotes, positions, upto + 1);
    } else {
        assert(positions.take(upto) =~= positions);
    }
}

fn unrealized_of(prices: &PriceCache, positions: &Vec<Position>) -> (r: Option<
    (Decimal, Vec<(String, UnrealizedPositionPnl)>),
>)
    ensures
        r.deep_view() == unrealized(quotes_in(*prices), positions.deep_view()),
{
    let ghost all = positions.deep_view();
    let ghost quotes = quotes_in(*prices);
    let mut total = Decimal::zero();
    let mut entries: Vec<(String, UnrealizedPositionPnl)> = Vec::new();
    let mut i: usize = 0;
    assert(all.take(0) =~= Seq::<PositionView>::empty());
    assert(entries.deep_view() =~= Seq::<(Seq<char>, UnrealizedPositionPnlView)>::empty());
    while i < positions.len()
        invariant
            i <= positions@.len(),
            all == positions.deep_view(),
            quotes == quotes_in(*prices),
            unrealized(quotes, all.take(i as int)) == Some((total@, entries.deep_view())),
        decreases positions@.len() - i,
    {
        let p = &positions[i];
        assert(all.take(i + 1).drop_last() =~= all.take(i as int));
        assert(all.take(i + 1).last() == p@);
        if !p.quantity.is_zero() {
            let result = match result_of(prices, p) {
                Some(result) => result,
                None => {
                    proof {
                        lemma_unrealized_stop(quotes, all, i + 1);
                    }
                    return None;
                },
            };
            match total.plus(&result.pnl) {
                Some(sum) => {
                    total = sum;
                    put_entry(&mut entries, p.symbol.clone(), result);
                },
                None => {
                    proof {
                        lemma_unrealized_stop(quotes, all, i + 1);
                    }
                    return None;
                },
            }
        }
        i = i + 1;
    }
    assert(all.take(all.len() as int) =~= all);
    Some((total, entries))
}

/// Whether the average price of everything that was bought is in range.
pub open spec fn averages_in_range(orders: Seq<OrderView>) -> bool {
    forall|i: int|
        0 <= i < orders.len() && is_fill(#[trigger] orders[i], Side::Buy) ==> average_price(
            orders,
            orders[i].symbol,
        ) is Some
}

fn check_averages(orders: &Vec<Order>) -> (r: bool)
    ensures
        r == averages_in_range(orders.deep_view()),
{
    let ghost all = orders.deep_view();
    let mut done: Vec<(String, Decimal)> = Vec::new();
    let mut i: usize = 0;
    while i < orders.len()
        invariant
            i <= orders@.len(),
            all == orders.deep_view(),
            forall|k: int|
                0 <= k < done@.len() ==> average_price(all, (#[trigger] done.deep_view()[k]).0)
                    is Some,
            forall|k: int|
                0 <= k < i && is_fill(#[trigger] all[k], Side::Buy) ==> average_price(
                    all,
                    all[k].symbol,
                ) is Some,
        decreases orders@.len() - i,
    {
        let o = &orders[i];
        assert(all[i as int] == o@);
        if filled_on(o, Side::Buy) {
            let place = place_of(&done, &o.symbol);
            if place == done.len() {
                let ghost before = done.deep_view();
                match average_of(orders, &o.symbol) {
                    Some(average) => {
                        done.push((o.symbol.clone(), average));
                        assert(done.deep_view() =~= before.push((o@.symbol, average@)));
                    },
                    None => return false,
                }
            } else {
                assert(done.deep_view()[place as int].0 == o@.symbol);
            }
        }
        i = i + 1;
    }
    true
}

/// The profit and loss of a user, from the orders and the open positions, at the live prices.
/// `None` where a number leaves its range.
pub open spec fn pnl_of(
    orders: Seq<OrderView>,
    positions: Seq<PositionView>,
    quotes: Map<Seq<char>, QuoteView>,
) -> Option<PnlStatsView> {
    if !averages_in_range(orders) {
        None
    } else {
        match (details(orders, sold_keys(orders)), unrealized(quotes, positions)) {
            (Some(details), Some((unrealized_total, unrealized_by_symbol))) => match (
                by_symbol(details),
                type_total(details, OrderType::Market),
                type_total(details, OrderType::Limit),
                type_total(details, OrderType::StopLimit),
            ) {
                (Some(entries), Some(market), Some(limit), Some(stop_limit)) => {
                    match entries_total(entries) {
                        Some(realized_total) => Some(
                            PnlStatsView {
                                realized_total,
                                realized_by_symbol: entries,
                                realized_by_order_type: PnlByOrderTypeView {
                                    market,
                                    limit,
                                    stop_limit,
                                },
                                realized_details: details,
                                unrealized_total,
                                unrealized_by_symbol,
                            },
                        ),
                        None => None,
                    }
                },
                _ => None,
            },
            _ => None,
        }
    }
}

/// Computes the profit and loss of a user.
pub fn pnl_stats(orders: &Vec<Order>, positions: &Vec<Position>, prices: &PriceCache) -> (r: Option<
    PnlStats,
>)
    ensures
        r.deep_view() == pnl_of(orders.deep_view(), positions.deep_view(), quotes_in(*prices)),
{
    if !check_averages(orders) {
        return None;
    }
    let realized_details = details_of(orders)?;
    let (unrealized_total, unrealized_by_symbol) = unrealized_of(prices, positions)?;
    let realized_by_symbol = totals_by_symbol(&realized_details)?;
    let market = total_of_type(&realized_details, OrderType::Market)?;
    let limit = total_of_type(&realized_details, OrderType::Limit)?;
    let stop_limit = total_of_type(&realized_details, OrderType::StopLimit)?;
    let realized_total = total_of(&realized_by_symbol)?;
    Some(
        PnlStats {
            realized_total,
            realized_by_symbol,
            realized_by_order_type: PnlByOrderType { market, limit, stop_limit },
            realized_details,
            unrealized_total,
            unrealized_by_symbol,
        },
    )
}

/// Whether keys stand in their order, none of them twice.
pub open spec fn ascending(keys: Seq<SaleKey>) -> bool {
    forall|i: int, j: int|
        0 <= i < j < keys.len() ==> key_before(#[trigger] keys[i], #[trigger] keys[j])
}

pub(crate) proof fn lemma_key_order(a: SaleKey, b: SaleKey)
    ensures
        a == b ==> !key_before(a, b),
        a != b ==> key_before(a, b) != key_before(b, a),
{
    lemma_text_order_total(a.0, b.0);
    lemma_text_order_total(a.1.name(), b.1.name());
    law_order_type_names(a.1, b.1.name());
    law_order_type_names(b.1, a.1.name());
}

proof fn lemma_key_order_transitive(a: SaleKey, b: SaleKey, c: SaleKey)
    requires
        key_before(a, b),
        key_before(b, c),
    ensures
        key_before(a, c),
{
    if text_before(a.0, b.0) && text_before(b.0, c.0) {
        lemma_text_order_transitive(a.0, b.0, c.0);
    }
    if text_before(a.1.name(), b.1.name()) && text_before(b.1.name(), c.1.name()) {
        lemma_text_order_transitive(a.1.name(), b.1.name(), c.1.name());
    }
}

proof fn lemma_with_key(keys: Seq<SaleKey>, key: SaleKey)
    requires
        ascending(keys),
    ensures
        ascending(with_key(keys, key)),
        forall|k: SaleKey| #[trigger]
            with_key(keys, key).contains(k) <==> keys.contains(k) || k == key,
    decreases keys.len(),
{
    let r = with_key(keys, key);
    if keys.len() == 0 {
        assert(r[0] == key);
    } else if keys[0] == key {
    } else if key_before(keys[0], key) {
        let rest = keys.drop_first();
        assert forall|i: int, j: int| 0 <= i < j < rest.len() implies key_before(
            #[trigger] rest[i],
            #[trigger] rest[j],
        ) by {
            assert(key_before(keys[i + 1], keys[j + 1]));
        }
        lemma_with_key(rest, key);
        let tail = with_key(rest, key);
        assert(r =~= seq![keys[0]] + tail);
        assert forall|i: int, j: int| 0 <= i < j < r.len() implies key_before(
            #[trigger] r[i],
            #[trigger] r[j],
        ) by {
            if i == 0 {
                assert(tail.contains(tail[j - 1]));
                if tail[j - 1] != key {
                    let k = choose|k: int| 0 <= k < rest.len() && rest[k] == tail[j - 1];
                    assert(key_before(keys[0], keys[k + 1]));
                }
            } else {
                assert(key_before(tail[i - 1], tail[j - 1]));
            }
        }
        assert forall|k: SaleKey| #[trigger] r.contains(k) <==> keys.contains(k) || k == key by {
            if r.contains(k) {
                let i = choose|i: int| 0 <= i < r.len() && r[i] == k;
                if i > 0 {
                    assert(tail[i - 1] == k);
                    assert(tail.contains(k));
                    if k != key {
                        let m = choose|m: int| 0 <= m < rest.len() && rest[m] == k;
                        assert(keys[m + 1] == k);
                    }
                }
            }
            if keys.contains(k) || k == key {
                if k == keys[0] {
                    assert(r[0] == k);
                } else {
                    if k != key {
                        let m = choose|m: int| 0 <= m < keys.len() && keys[m] == k;
                        assert(rest[m - 1] == k);
                    }
                    assert(tail.contains(k));
                    let i = choose|i: int| 0 <= i < tail.len() && tail[i] == k;
                    assert(r[i + 1] == k);
                }
            }
        }
    } else {
        lemma_key_order(keys[0], key);
        assert forall|i: int, j: int| 0 <= i < j < r.len() implies key_before(
            #[trigger] r[i],
            #[trigger] r[j],
        ) by {
            if i == 0 {
                if j > 1 {
                    lemma_key_order_transitive(key, keys[0], keys[j - 1]);
                }
            } else {
                assert(key_before(keys[i - 1], keys[j - 1]));
            }
        }
        assert forall|k: SaleKey| #[trigger] r.contains(k) <==> keys.contains(k) || k == key by {
            if r.contains(k) {
                let i = choose|i: int| 0 <= i < r.len() && r[i] == k;
                if i > 0 {
                    assert(keys[i - 1] == k);
                }
            }
            if keys.contains(k) {
                let m = choose|m: int| 0 <= m < keys.len() && keys[m] == k;
                assert(r[m + 1] == k);
            }
            assert(r[0] == key);
        }
    }
}

/// The realized details stand in the order of symbol and order type, and there is exactly one for
/// each symbol and order type with a filled sell.
pub proof fn law_details_in_order(orders: Seq<OrderView>)
    ensures
        ascending(sold_keys(orders)),
        forall|key: SaleKey| #[trigger]
            sold_keys(orders).contains(key) <==> exists|i: int|
                0 <= i < orders.len() && is_fill(#[trigger] orders[i], Side::Sell) && (
                orders[i].symbol,
                orders[i].order_type,
            ) == key,
        details(orders, sold_keys(orders)) matches Some(details) ==> details.len() == sold_keys(
            orders,
        ).len() && forall|i: int|
            0 <= i < details.len() ==> {
                let d = #[trigger] details[i];
                &&& (d.symbol, d.order_type) == sold_keys(orders)[i]
                &&& realized(orders, (d.symbol, d.order_type)) == Some(d.pnl)
            },
    decreases orders.len(),
{
    lemma_details_match(orders, sold_keys(orders));
    if orders.len() > 0 {
        let rest = orders.drop_last();
        let o = orders.last();
        law_details_in_order(rest);
        if is_fill(o, Side::Sell) {
            lemma_with_key(sold_keys(rest), (o.symbol, o.order_type));
        }
        assert forall|key: SaleKey| #[trigger]
            sold_keys(orders).contains(key) <==> exists|i: int|
                0 <= i < orders.len() && is_fill(#[trigger] orders[i], Side::Sell) && (
                orders[i].symbol,
                orders[i].order_type,
            ) == key by {
            if sold_keys(rest).contains(key) {
                let i = choose|i: int|
                    0 <= i < rest.len() && is_fill(#[trigger] rest[i], Side::Sell) && (
                    rest[i].symbol,
                    rest[i].order_type,
                ) == key;
                assert(orders[i] == rest[i]);
            }
            if exists|i: int|
                0 <= i < orders.len() && is_fill(#[trigger] orders[i], Side::Sell) && (
                orders[i].symbol,
                orders[i].order_type,
            ) == key {
                let i = choose|i: int|
                    0 <= i < orders.len() && is_fill(#[trigger] orders[i], Side::Sell) && (
                    orders[i].symbol,
                    orders[i].order_type,
                ) == key;
                if i < rest.len() {
                    assert(rest[i] == orders[i]);
                }
            }
            if is_fill(o, Side::Sell) && (o.symbol, o.order_type) == key {
                assert(orders[orders.len() - 1] == o);
            }
        }
    }
}

proof fn lemma_details_match(orders: Seq<OrderView>, keys: Seq<SaleKey>)
    ensures
        details(orders, keys) matches Some(details) ==> details.len() == keys.len() && forall|
            i: int,
        |
            0 <= i < details.len() ==> {
                let d = #[trigger] details[i];
                &&& (d.symbol, d.order_type) == keys[i]
                &&& realized(orders, (d.symbol, d.order_type)) == Some(d.pnl)
            },
    decreases keys.len(),
{
    if keys.len() > 0 {
        lemma_details_match(orders, keys.drop_last());
    }
}

} // verus!
