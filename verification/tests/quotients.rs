use exchange_sim::decimal::Decimal;
use exchange_sim::models::{Order, OrderStatus, OrderType, Side};
use exchange_sim::pnl::pnl_stats;
use exchange_sim::timestamp::Timestamp;
use exchange_sim::ws_client::new_price_cache;

/// Numbers that look random.
struct Numbers(u128);

impl Numbers {
    fn next(&mut self, below: u128) -> u128 {
        self.0 = self.0.wrapping_mul(0x2360ED051FC65DA44385DF649FCCF645).wrapping_add(0x5851F42D);
        (self.0 >> 20) % below
    }

    /// A mantissa of some number of bits.
    fn mantissa(&mut self) -> i128 {
        let bits = 1 + self.next(96);
        let sign = if self.next(2) == 0 { 1 } else { -1 };
        sign * (1 + self.next((1u128 << bits) - 1)) as i128
    }

    fn decimal(&mut self) -> rust_decimal::Decimal {
        let scale = self.next(29) as u32;
        rust_decimal::Decimal::from_i128_with_scale(self.mantissa(), scale)
    }

    /// The same number, written with some more zeros or fewer.
    fn rewritten(&mut self, d: rust_decimal::Decimal) -> rust_decimal::Decimal {
        let (mut mantissa, mut scale) = (d.mantissa(), d.scale());
        while scale > 0 && mantissa % 10 == 0 {
            mantissa /= 10;
            scale -= 1;
        }
        for _ in 0..self.next(29) {
            let larger = mantissa * 10;
            if scale < 28 && larger.abs() < 1i128 << 96 {
                mantissa = larger;
                scale += 1;
            }
        }
        rust_decimal::Decimal::from_i128_with_scale(mantissa, scale)
    }
}

#[test]
fn a_quotient_depends_on_the_numbers_alone() {
    let mut numbers = Numbers(7);
    for _ in 0..400_000 {
        let (a, b) = (numbers.decimal(), numbers.decimal());
        let (c, d) = (numbers.rewritten(a), numbers.rewritten(b));
        assert_eq!((a, b), (c, d));
        assert_eq!(a.checked_div(b), c.checked_div(d));
    }
}

#[test]
fn a_quotient_that_can_be_written_is_exact() {
    let mut numbers = Numbers(11);
    let mut found = 0;
    for _ in 0..400_000 {
        let (q, b) = (numbers.decimal(), numbers.decimal());
        let mantissa = q.mantissa().checked_mul(b.mantissa());
        let scale = q.scale() + b.scale();
        if let Some(mantissa) = mantissa.filter(|m| m.abs() < 1i128 << 96 && scale <= 28) {
            let a = rust_decimal::Decimal::from_i128_with_scale(mantissa, scale);
            let (c, d) = (numbers.rewritten(a), numbers.rewritten(b));
            assert_eq!(c.checked_div(d), Some(q));
            found += 1;
        }
    }
    assert!(found > 10_000);
}

fn fill(side: Side, price: (i128, u32), amount: (i128, u32)) -> Order {
    let time = Timestamp::new(0, 0).unwrap();
    Order {
        id: "o".to_string(),
        user_id: "u1".to_string(),
        symbol: "SOL".to_string(),
        side,
        order_type: OrderType::Market,
        limit_price: None,
        price: Decimal::new(price.0, price.1).unwrap(),
        amount: Decimal::new(amount.0, amount.1).unwrap(),
        total_usdc: Decimal::zero(),
        status: OrderStatus::Filled,
        reject_reason: None,
        created_at: time,
        updated_at: time,
    }
}

#[test]
fn costs_that_cancel_on_the_way_do_not_change_the_average() {
    // The costs are 1.000, -1.000 and 1, in any order: one for two pieces.
    let mut orders = vec![
        fill(Side::Buy, (200, 2), (5, 1)),
        fill(Side::Buy, (-200, 2), (5, 1)),
        fill(Side::Buy, (1, 0), (1, 0)),
        fill(Side::Sell, (1, 0), (2, 0)),
    ];
    for turn in 0..12 {
        let stats = pnl_stats(&orders, &Vec::new(), &new_price_cache()).unwrap();
        let total = stats.realized_total;
        assert_eq!(total.mantissa(), 10i128.pow(total.scale()));
        orders.rotate_left(1);
        orders.swap(turn % 4, (turn + 2) % 3);
    }
}
