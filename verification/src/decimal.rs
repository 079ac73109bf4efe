//! Exact decimal numbers for balances, prices and quantities.
//!
//! A [`Decimal`] is an integer mantissa and the number of its digits that stand behind the
//! decimal point. The arithmetic is `rust_decimal`'s.

use vstd::arithmetic::div_mod::{
    lemma_div_is_ordered, lemma_fundamental_div_mod, lemma_fundamental_div_mod_converse,
};
use vstd::prelude::*;

verus! {

/// The largest magnitude of a mantissa: ninety-six bits, all set.
pub const MAX_MANTISSA: i128 = 79_228_162_514_264_337_593_543_950_335;

/// The largest number of decimal places.
pub const MAX_SCALE: u32 = 28;

/// The decimal places that amounts of USDC and average prices are rounded to.
pub const PLACES: u32 = 8;

/// The number `mantissa / 10^scale`.
#[verifier::ext_equal]
pub struct DecimalView {
    pub mantissa: int,
    pub scale: nat,
}

pub open spec fn pow10(n: nat) -> nat
    decreases n,
{
    if n == 0 {
        1
    } else {
        10 * pow10((n - 1) as nat)
    }
}

pub open spec fn magnitude(n: int) -> nat {
    if n < 0 {
        (-n) as nat
    } else {
        n as nat
    }
}

pub open spec fn fits_mantissa(n: int) -> bool {
    magnitude(n) <= MAX_MANTISSA
}

impl DecimalView {
    pub open spec fn valid(self) -> bool {
        fits_mantissa(self.mantissa) && self.scale <= MAX_SCALE
    }

    /// The mantissa of the same number with `scale` decimal places, where `scale` is no less
    /// than the number's own.
    pub open spec fn at_scale(self, scale: nat) -> int {
        self.mantissa * pow10((scale - self.scale) as nat)
    }

    /// Whether this number is smaller than another.
    pub open spec fn less(self, other: DecimalView) -> bool {
        self.mantissa * pow10(other.scale) < other.mantissa * pow10(self.scale)
    }

    /// Whether two decimals are the same number, with the same decimal places or not.
    pub open spec fn same_number(self, other: DecimalView) -> bool {
        self.mantissa * pow10(other.scale) == other.mantissa * pow10(self.scale)
    }
}

pub open spec fn decimal_zero() -> DecimalView {
    DecimalView { mantissa: 0, scale: 0 }
}

pub open spec fn decimal_whole(n: int) -> DecimalView {
    DecimalView { mantissa: n, scale: 0 }
}

pub open spec fn common_scale(a: DecimalView, b: DecimalView) -> nat {
    if a.scale < b.scale {
        b.scale
    } else {
        a.scale
    }
}

/// Whether two decimals can be written with the same number of decimal places.
pub open spec fn can_align(a: DecimalView, b: DecimalView) -> bool {
    let scale = common_scale(a, b);
    fits_mantissa(a.at_scale(scale)) && fits_mantissa(b.at_scale(scale))
}

/// A magnitude and its decimal places, with a sign.
pub open spec fn with_sign(parts: Option<(nat, nat)>, negative: bool) -> Option<DecimalView> {
    match parts {
        Some((magnitude, scale)) => Some(
            DecimalView {
                mantissa: if negative {
                    -(magnitude as int)
                } else {
                    magnitude as int
                },
                scale,
            },
        ),
        None => None,
    }
}

/// The magnitude and the decimal places of what `rust_decimal::Decimal::checked_add` returns.
pub uninterp spec fn rounded_sum(a: DecimalView, b: DecimalView) -> Option<(nat, nat)>;

/// The magnitude and the decimal places of what `rust_decimal::Decimal::checked_sub` returns.
pub uninterp spec fn rounded_difference(a: DecimalView, b: DecimalView) -> Option<(nat, nat)>;

/// The magnitude and the decimal places of what `rust_decimal::Decimal::checked_mul` returns.
pub uninterp spec fn rounded_product(a: DecimalView, b: DecimalView) -> Option<(nat, nat)>;

/// The magnitude and the decimal places of what `rust_decimal::Decimal::checked_div` returns.
pub uninterp spec fn rounded_quotient(a: DecimalView, b: DecimalView) -> Option<(nat, nat)>;

/// What `<rust_decimal::Decimal as FromStr>::from_str` reads from a text.
pub uninterp spec fn decimal_parsed(text: Seq<char>) -> Option<DecimalView>;

/// Whether the sum of two decimals needs no rounding.
pub open spec fn sum_is_exact(a: DecimalView, b: DecimalView) -> bool {
    let scale = common_scale(a, b);
    can_align(a, b) && fits_mantissa(a.at_scale(scale) + b.at_scale(scale))
}

/// The sum of two decimals, rounded where it has too many digits; `None` where it is out of
/// range.
pub open spec fn decimal_sum(a: DecimalView, b: DecimalView) -> Option<DecimalView> {
    let scale = common_scale(a, b);
    if a.mantissa == 0 {
        Some(b)
    } else if b.mantissa == 0 {
        Some(a)
    } else if sum_is_exact(a, b) {
        Some(DecimalView { mantissa: a.at_scale(scale) + b.at_scale(scale), scale })
    } else {
        with_sign(
            rounded_sum(a, b),
            a.less(DecimalView { mantissa: -b.mantissa, scale: b.scale }),
        )
    }
}

/// Whether the difference of two decimals needs no rounding.
pub open spec fn difference_is_exact(a: DecimalView, b: DecimalView) -> bool {
    let scale = common_scale(a, b);
    can_align(a, b) && fits_mantissa(a.at_scale(scale) - b.at_scale(scale))
}

/// The difference of two decimals, rounded where it has too many digits; `None` where it is out
/// of range.
pub open spec fn decimal_difference(a: DecimalView, b: DecimalView) -> Option<DecimalView> {
    let scale = common_scale(a, b);
    if b.mantissa == 0 && a.mantissa != 0 {
        Some(a)
    } else if a.mantissa == 0 {
        Some(DecimalView { mantissa: -b.mantissa, scale: b.scale })
    } else if difference_is_exact(a, b) {
        Some(DecimalView { mantissa: a.at_scale(scale) - b.at_scale(scale), scale })
    } else {
        with_sign(rounded_difference(a, b), a.less(b))
    }
}

/// Whether the product of two decimals needs no rounding.
pub open spec fn product_is_exact(a: DecimalView, b: DecimalView) -> bool {
    fits_mantissa(a.mantissa * b.mantissa) && a.scale + b.scale <= MAX_SCALE
}

/// The product of two decimals, rounded where it has too many digits; `None` where it is out of
/// range.
pub open spec fn decimal_product(a: DecimalView, b: DecimalView) -> Option<DecimalView> {
    if a.mantissa == 0 || b.mantissa == 0 {
        Some(decimal_zero())
    } else if product_is_exact(a, b) {
        Some(DecimalView { mantissa: a.mantissa * b.mantissa, scale: a.scale + b.scale })
    } else {
        with_sign(rounded_product(a, b), (a.mantissa < 0) != (b.mantissa < 0))
    }
}

/// Whether one mantissa divides the other, and no decimal places are missing.
pub open spec fn quotient_is_exact(a: DecimalView, b: DecimalView) -> bool {
    b.mantissa != 0 && b.scale <= a.scale && magnitude(a.mantissa) % magnitude(b.mantissa) == 0
}

/// A decimal without the zeros at the end of its decimal places.
pub open spec fn shortest(d: DecimalView) -> DecimalView
    decreases d.scale,
{
    if d.scale > 0 && d.mantissa % 10 == 0 {
        shortest(DecimalView { mantissa: d.mantissa / 10, scale: (d.scale - 1) as nat })
    } else {
        d
    }
}

/// A number written with the given decimal places, where it has no more.
pub open spec fn written(d: DecimalView, places: nat) -> DecimalView {
    let short = shortest(d);
    if short.scale <= places {
        DecimalView { mantissa: short.at_scale(places), scale: places }
    } else {
        short
    }
}

/// Whether a decimal, times the second number, is the first.
pub open spec fn is_quotient(d: DecimalView, a: DecimalView, b: DecimalView) -> bool {
    d.valid() && units(d) * units(b) == units(a) * pow10(MAX_SCALE as nat)
}

/// Whether the quotient of two numbers needs no rounding.
pub open spec fn quotient_fits(a: DecimalView, b: DecimalView) -> bool {
    exists|d: DecimalView| #[trigger] is_quotient(d, a, b)
}

/// The quotient as a number: exact where it needs no rounding, and otherwise rounded in a way that
/// only the two numbers decide.
pub open spec fn quotient_value(a: DecimalView, b: DecimalView) -> Option<DecimalView> {
    if quotient_fits(a, b) {
        Some(choose|d: DecimalView| #[trigger] is_quotient(d, a, b))
    } else {
        with_sign(
            rounded_quotient(shortest(a), shortest(b)),
            (a.mantissa < 0) != (b.mantissa < 0),
        )
    }
}

/// The quotient of two decimals, rounded where it has too many digits; `None` where it is out of
/// range or the divisor is zero. How the two numbers are written decides only how many zeros
/// there are at its end.
pub open spec fn decimal_quotient(a: DecimalView, b: DecimalView) -> Option<DecimalView> {
    if b.mantissa == 0 {
        None
    } else if a.mantissa == 0 {
        Some(decimal_zero())
    } else if quotient_is_exact(a, b) {
        with_sign(
            Some((magnitude(a.mantissa) / magnitude(b.mantissa), (a.scale - b.scale) as nat)),
            (a.mantissa < 0) != (b.mantissa < 0),
        )
    } else {
        match (quotient_value(a, b), rounded_quotient(a, b)) {
            (Some(value), Some((_, places))) => Some(written(value, places)),
            (value, _) => value,
        }
    }
}

/// `n / unit` to the nearest integer, and to the even one where two are equally near.
pub open spec fn divided_half_even(n: nat, unit: nat) -> nat {
    let below = n / unit;
    let rest = n % unit;
    if 2 * rest > unit || (2 * rest == unit && below % 2 == 1) {
        below + 1
    } else {
        below
    }
}

/// A decimal rounded to at most `places` decimal places, half to even.
pub open spec fn rounded_to(d: DecimalView, places: nat) -> DecimalView {
    if d.scale <= places {
        d
    } else {
        let near = divided_half_even(magnitude(d.mantissa), pow10((d.scale - places) as nat));
        DecimalView {
            mantissa: if d.mantissa < 0 {
                -(near as int)
            } else {
                near as int
            },
            scale: places,
        }
    }
}

/// A decimal rounded to the places that amounts of USDC have.
pub open spec fn rounded(d: DecimalView) -> DecimalView {
    rounded_to(d, PLACES as nat)
}

/// The larger of two decimals; the first where they are the same number.
pub open spec fn decimal_max(a: DecimalView, b: DecimalView) -> DecimalView {
    if a.less(b) {
        b
    } else {
        a
    }
}

pub open spec fn digit_char(n: nat) -> char
    recommends
        n < 10,
{
    (48 + n) as char
}

/// The decimal digits of a number, without leading zeros.
pub open spec fn number_text(n: nat) -> Seq<char>
    decreases n,
{
    if n < 10 {
        seq![digit_char(n)]
    } else {
        number_text(n / 10).push(digit_char(n % 10))
    }
}

/// The last `width` decimal digits of a number.
pub open spec fn padded_text(n: nat, width: nat) -> Seq<char>
    decreases width,
{
    if width == 0 {
        Seq::empty()
    } else {
        padded_text(n / 10, (width - 1) as nat).push(digit_char(n % 10))
    }
}

/// A decimal in digits: the sign where it is negative, the whole part, and all its decimal
/// places behind a point.
pub open spec fn decimal_text(d: DecimalView) -> Seq<char> {
    let n = magnitude(d.mantissa);
    let sign = if d.mantissa < 0 {
        seq!['-']
    } else {
        Seq::<char>::empty()
    };
    let whole = number_text(n / pow10(d.scale));
    if d.scale == 0 {
        sign + whole
    } else {
        sign + whole + seq!['.'] + padded_text(n, d.scale)
    }
}

/// A decimal is larger than zero when its mantissa is, and smaller when its mantissa is.
pub proof fn lemma_zero_less(d: DecimalView)
    ensures
        decimal_zero().less(d) == (d.mantissa > 0),
        d.less(decimal_zero()) == (d.mantissa < 0),
{
    let one = pow10(0);
    let unit = pow10(d.scale);
    assert(d.mantissa * one == d.mantissa) by (nonlinear_arith)
        requires
            one == 1,
    ;
    assert(0 * unit == 0) by (nonlinear_arith);
}

/// A number in units of the smallest decimal place: `10^28` times the number.
pub open spec fn units(d: DecimalView) -> int {
    d.at_scale(MAX_SCALE as nat)
}

proof fn lemma_pow10_add(a: nat, b: nat)
    ensures
        pow10(a + b) == pow10(a) * pow10(b),
        pow10(a) > 0,
    decreases a,
{
    if a == 0 {
        assert(1 * pow10(b) == pow10(b)) by (nonlinear_arith);
    } else {
        lemma_pow10_add((a - 1) as nat, b);
        let x = pow10((a - 1) as nat);
        let y = pow10(b);
        assert(((a - 1) as nat + b) as nat == (a + b - 1) as nat);
        assert((10 * x) * y == 10 * (x * y)) by (nonlinear_arith);
    }
}

/// The mantissa at more decimal places, from that at fewer.
proof fn lemma_at_scale(d: DecimalView, scale: nat, larger: nat)
    requires
        d.scale <= scale <= larger,
    ensures
        d.at_scale(larger) == d.at_scale(scale) * pow10((larger - scale) as nat),
        pow10((larger - scale) as nat) > 0,
{
    let a = (scale - d.scale) as nat;
    let b = (larger - scale) as nat;
    lemma_pow10_add(a, b);
    lemma_pow10_add(b, a);
    let m = d.mantissa;
    let x = pow10(a) as int;
    let y = pow10(b) as int;
    assert(m * (x * y) == (m * x) * y) by (nonlinear_arith);
}

/// Numbers compare as their units do.
pub proof fn lemma_units_less(a: DecimalView, b: DecimalView)
    requires
        a.scale <= MAX_SCALE,
        b.scale <= MAX_SCALE,
    ensures
        a.less(b) == (units(a) < units(b)),
        a.same_number(b) == (units(a) == units(b)),
{
    let sa = a.scale;
    let sb = b.scale;
    let ra = (MAX_SCALE as nat - sa) as nat;
    let rb = (MAX_SCALE as nat - sb) as nat;
    lemma_pow10_add(ra, sa);
    lemma_pow10_add(sa, ra);
    lemma_pow10_add(rb, sb);
    lemma_pow10_add(sb, rb);
    lemma_pow10_add(MAX_SCALE as nat, 0);
    let pa = pow10(sa) as int;
    let pb = pow10(sb) as int;
    let qa = pow10(ra) as int;
    let qb = pow10(rb) as int;
    let one = pow10(MAX_SCALE as nat) as int;
    assert(pa * qa == one && pb * qb == one);
    let x = a.mantissa;
    let y = b.mantissa;
    // Both sides of the comparison, times `qa * qb`, are the units times `one`.
    assert((x * pb) * (qa * qb) == (x * qa) * one) by (nonlinear_arith)
        requires
            pb * qb == one,
    ;
    assert((y * pa) * (qa * qb) == (y * qb) * one) by (nonlinear_arith)
        requires
            pa * qa == one,
    ;
    let k = qa * qb;
    assert(k > 0) by (nonlinear_arith)
        requires
            k == qa * qb,
            qa > 0,
            qb > 0,
    ;
    let u = x * pb;
    let v = y * pa;
    let uu = x * qa;
    let vv = y * qb;
    assert((u < v) == (uu < vv)) by (nonlinear_arith)
        requires
            u * k == uu * one,
            v * k == vv * one,
            k > 0,
            one > 0,
    ;
    assert((u == v) == (uu == vv)) by (nonlinear_arith)
        requires
            u * k == uu * one,
            v * k == vv * one,
            k > 0,
            one > 0,
    ;
}

/// The sign of a number is that of its units.
pub proof fn lemma_units_sign(d: DecimalView)
    requires
        d.scale <= MAX_SCALE,
    ensures
        (units(d) > 0) == (d.mantissa > 0),
        (units(d) < 0) == (d.mantissa < 0),
{
    lemma_pow10_add((MAX_SCALE as nat - d.scale) as nat, 0);
    let m = d.mantissa;
    let p = pow10((MAX_SCALE as nat - d.scale) as nat) as int;
    assert((m * p > 0) == (m > 0) && (m * p < 0) == (m < 0)) by (nonlinear_arith)
        requires
            p > 0,
    ;
}

/// Two numbers with the same units and the same decimal places are written alike.
pub proof fn lemma_units_equal(a: DecimalView, b: DecimalView)
    requires
        a.scale <= MAX_SCALE,
        a.scale == b.scale,
        units(a) == units(b),
    ensures
        a == b,
{
    lemma_pow10_add((MAX_SCALE as nat - a.scale) as nat, 0);
    let m = a.mantissa;
    let n = b.mantissa;
    let p = pow10((MAX_SCALE as nat - a.scale) as nat) as int;
    assert(m == n) by (nonlinear_arith)
        requires
            m * p == n * p,
            p > 0,
    ;
}

/// Whether adding two numbers loses nothing.
pub open spec fn adds_exactly(a: DecimalView, b: DecimalView) -> bool {
    a.mantissa == 0 || b.mantissa == 0 || sum_is_exact(a, b)
}

/// Whether subtracting two numbers loses nothing.
pub open spec fn subtracts_exactly(a: DecimalView, b: DecimalView) -> bool {
    a.mantissa == 0 || b.mantissa == 0 || difference_is_exact(a, b)
}

/// A sum that loses nothing is the sum of the units.
pub proof fn lemma_units_sum(a: DecimalView, b: DecimalView)
    requires
        a.valid(),
        b.valid(),
        adds_exactly(a, b),
    ensures
        decimal_sum(a, b) matches Some(sum) && sum.valid() && units(sum) == units(a) + units(b),
{
    let scale = common_scale(a, b);
    let larger = MAX_SCALE as nat;
    lemma_at_scale(a, scale, larger);
    lemma_at_scale(b, scale, larger);
    let p = pow10((larger - scale) as nat) as int;
    let x = a.at_scale(scale);
    let y = b.at_scale(scale);
    assert((x + y) * p == x * p + y * p) by (nonlinear_arith);
    lemma_zero_at_scale(a);
    lemma_zero_at_scale(b);
}

proof fn lemma_zero_at_scale(d: DecimalView)
    ensures
        d.mantissa == 0 ==> units(d) == 0,
{
    let p = pow10((MAX_SCALE as nat - d.scale) as nat) as int;
    assert(0 * p == 0) by (nonlinear_arith);
}

/// A difference that loses nothing is the difference of the units.
pub proof fn lemma_units_difference(a: DecimalView, b: DecimalView)
    requires
        a.valid(),
        b.valid(),
        subtracts_exactly(a, b),
    ensures
        decimal_difference(a, b) matches Some(rest) && rest.valid() && units(rest) == units(a)
            - units(b),
{
    let scale = common_scale(a, b);
    let larger = MAX_SCALE as nat;
    lemma_at_scale(a, scale, larger);
    lemma_at_scale(b, scale, larger);
    let p = pow10((larger - scale) as nat) as int;
    let x = a.at_scale(scale);
    let y = b.at_scale(scale);
    assert((x - y) * p == x * p - y * p) by (nonlinear_arith);
    lemma_zero_at_scale(a);
    lemma_zero_at_scale(b);
    let m = b.mantissa;
    let q = pow10((larger - b.scale) as nat) as int;
    assert((-m) * q == -(m * q)) by (nonlinear_arith);
}

/// What was taken away without loss can be added back without loss.
pub proof fn lemma_difference_undone(a: DecimalView, b: DecimalView)
    requires
        a.valid(),
        b.valid(),
        subtracts_exactly(a, b),
    ensures
        decimal_difference(a, b) matches Some(rest) && adds_exactly(rest, b),
        decimal_difference(a, b) matches Some(rest) && (decimal_sum(rest, b) matches Some(again)
            && again.valid() && units(again) == units(a)),
{
    lemma_units_difference(a, b);
    let rest = decimal_difference(a, b)->0;
    if a.mantissa != 0 && b.mantissa != 0 {
        let scale = common_scale(a, b);
        let m = rest.mantissa;
        let one = pow10(0) as int;
        assert(m * one == m) by (nonlinear_arith)
            requires
                one == 1,
        ;
        assert(common_scale(rest, b) == scale);
        assert(rest.at_scale(scale) == m);
    } else if b.mantissa != 0 {
        let m = b.mantissa;
        let one = pow10(0) as int;
        assert(m * one == m && (-m) * one == -m) by (nonlinear_arith)
            requires
                one == 1,
        ;
        assert(common_scale(rest, b) == b.scale);
        assert(rest.at_scale(b.scale) == -m);
        assert(b.at_scale(b.scale) == m);
    }
    lemma_units_sum(rest, b);
}

/// Zeros at the end of the decimal places do not change a number.
proof fn lemma_shortest(d: DecimalView)
    requires
        d.scale <= MAX_SCALE,
    ensures
        units(shortest(d)) == units(d),
        shortest(d).scale <= d.scale,
        shortest(d).scale == 0 || shortest(d).mantissa % 10 != 0,
    decreases d.scale,
{
    if d.scale > 0 && d.mantissa % 10 == 0 {
        let m = d.mantissa / 10;
        let less = DecimalView { mantissa: m, scale: (d.scale - 1) as nat };
        lemma_shortest(less);
        let k = (MAX_SCALE as nat - d.scale) as nat;
        assert(pow10(k + 1) == 10 * pow10(k));
        assert((MAX_SCALE as nat - less.scale) as nat == k + 1);
        let p = pow10(k) as int;
        assert((10 * m) * p == m * (10 * p)) by (nonlinear_arith);
    }
}

proof fn lemma_not_shorter(x: DecimalView, y: DecimalView)
    requires
        x.scale < y.scale <= MAX_SCALE,
        units(x) == units(y),
    ensures
        y.mantissa % 10 == 0,
{
    lemma_at_scale(x, y.scale, MAX_SCALE as nat);
    let z = DecimalView { mantissa: x.at_scale(y.scale), scale: y.scale };
    lemma_units_equal(z, y);
    let k = (y.scale - x.scale - 1) as nat;
    assert(pow10(k + 1) == 10 * pow10(k));
    assert((y.scale - x.scale) as nat == k + 1);
    let m = x.mantissa;
    let p = pow10(k) as int;
    let n = m * p;
    assert(m * (10 * p) == 10 * n) by (nonlinear_arith)
        requires
            n == m * p,
    ;
}

/// Numbers with the same units are written alike without the zeros at their end.
proof fn lemma_shortest_unique(a: DecimalView, b: DecimalView)
    requires
        a.scale <= MAX_SCALE,
        b.scale <= MAX_SCALE,
        units(a) == units(b),
    ensures
        shortest(a) == shortest(b),
{
    lemma_shortest(a);
    lemma_shortest(b);
    let x = shortest(a);
    let y = shortest(b);
    if x.scale < y.scale {
        lemma_not_shorter(x, y);
    } else if y.scale < x.scale {
        lemma_not_shorter(y, x);
    } else {
        lemma_units_equal(x, y);
    }
}

/// A number that is written with other places is the same number.
proof fn lemma_written(d: DecimalView, places: nat)
    requires
        written(d, places).scale <= MAX_SCALE,
    ensures
        units(written(d, places)) == units(shortest(d)),
{
    let short = shortest(d);
    if short.scale <= places {
        lemma_at_scale(short, places, MAX_SCALE as nat);
    }
}

/// A quotient has the number that its value has, with or without zeros at its end.
proof fn lemma_quotient_value(a: DecimalView, b: DecimalView)
    requires
        a.mantissa != 0,
        b.mantissa != 0,
        !quotient_is_exact(a, b),
        decimal_quotient(a, b) matches Some(d) ==> d.valid(),
    ensures
        match (quotient_value(a, b), decimal_quotient(a, b)) {
            (Some(value), Some(d)) => units(d) == units(shortest(value)),
            (None, None) => true,
            _ => false,
        },
{
    match (quotient_value(a, b), rounded_quotient(a, b)) {
        (Some(value), Some((_, places))) => lemma_written(value, places),
        (Some(value), None) => lemma_shortest(value),
        _ => {},
    }
}

/// The quotient of two mantissas is the quotient of the numbers.
proof fn lemma_exact_quotient(a: DecimalView, b: DecimalView)
    requires
        a.valid(),
        b.valid(),
        a.mantissa != 0,
        quotient_is_exact(a, b),
    ensures
        decimal_quotient(a, b) matches Some(d) && is_quotient(d, a, b),
{
    let d = decimal_quotient(a, b)->0;
    let x = magnitude(a.mantissa) as int;
    let y = magnitude(b.mantissa) as int;
    let q = x / y;
    lemma_fundamental_div_mod(x, y);
    assert(0 <= q <= x) by (nonlinear_arith)
        requires
            x == y * q,
            x > 0,
            y > 0,
    ;
    let m = d.mantissa;
    let n = b.mantissa;
    let l = a.mantissa;
    if (l < 0) != (n < 0) {
        assert(m == -q);
    } else {
        assert(m == q);
    }
    assert(m * n == l) by (nonlinear_arith)
        requires
            x == y * q,
            (n > 0 && n == y) || (n < 0 && n == -y),
            (l > 0 && l == x) || (l < 0 && l == -x),
            ((l < 0) != (n < 0) && m == -q) || ((l < 0) == (n < 0) && m == q),
    ;
    // The places of the quotient and of the divisor together are those of the first number.
    let top = MAX_SCALE as nat;
    let i = (top - d.scale) as nat;
    let j = (top - b.scale) as nat;
    let k = (top - a.scale) as nat;
    lemma_pow10_add(i, j);
    lemma_pow10_add(k, top);
    assert(i + j == k + top);
    let pi = pow10(i) as int;
    let pj = pow10(j) as int;
    let pk = pow10(k) as int;
    let pt = pow10(top) as int;
    assert((m * pi) * (n * pj) == ((m * n) * pk) * pt) by (nonlinear_arith)
        requires
            pi * pj == pk * pt,
    ;
}

/// Where the quotient needs no rounding, it is that number.
pub proof fn lemma_quotient_found(a: DecimalView, b: DecimalView)
    requires
        a.valid(),
        b.valid(),
        a.mantissa != 0,
        b.mantissa != 0,
        quotient_fits(a, b),
        decimal_quotient(a, b) matches Some(d) ==> d.valid(),
    ensures
        decimal_quotient(a, b) matches Some(d) && is_quotient(d, a, b),
{
    if quotient_is_exact(a, b) {
        lemma_exact_quotient(a, b);
    } else {
        lemma_quotient_value(a, b);
        lemma_shortest(quotient_value(a, b)->0);
    }
}

/// Which number a quotient is, or whether there is none, is decided by the two numbers, however
/// they are written.
pub proof fn lemma_quotient_numbers(
    a: DecimalView,
    b: DecimalView,
    c: DecimalView,
    e: DecimalView,
)
    requires
        a.valid(),
        b.valid(),
        c.valid(),
        e.valid(),
        units(a) == units(c),
        units(b) == units(e),
        decimal_quotient(a, b) matches Some(d) ==> d.valid(),
        decimal_quotient(c, e) matches Some(d) ==> d.valid(),
    ensures
        match (decimal_quotient(a, b), decimal_quotient(c, e)) {
            (Some(x), Some(y)) => units(x) == units(y),
            (None, None) => true,
            _ => false,
        },
{
    lemma_units_sign(a);
    lemma_units_sign(b);
    lemma_units_sign(c);
    lemma_units_sign(e);
    if a.mantissa != 0 && b.mantissa != 0 {
        if quotient_is_exact(a, b) {
            lemma_exact_quotient(a, b);
            assert(is_quotient(decimal_quotient(a, b)->0, c, e));
        }
        if quotient_is_exact(c, e) {
            lemma_exact_quotient(c, e);
            assert(is_quotient(decimal_quotient(c, e)->0, a, b));
        }
        if quotient_fits(a, b) {
            let d = choose|d: DecimalView| #[trigger] is_quotient(d, a, b);
            assert(is_quotient(d, c, e));
            lemma_quotient_found(a, b);
            lemma_quotient_found(c, e);
            let x = units(decimal_quotient(a, b)->0);
            let y = units(decimal_quotient(c, e)->0);
            let n = units(b);
            assert(x == y) by (nonlinear_arith)
                requires
                    x * n == y * n,
                    n != 0,
            ;
        } else {
            if quotient_fits(c, e) {
                let d = choose|d: DecimalView| #[trigger] is_quotient(d, c, e);
                assert(is_quotient(d, a, b));
            }
            lemma_shortest_unique(a, c);
            lemma_shortest_unique(b, e);
            lemma_quotient_value(a, b);
            lemma_quotient_value(c, e);
        }
    }
}

/// Whether multiplying two numbers loses nothing.
pub open spec fn multiplies_exactly(a: DecimalView, b: DecimalView) -> bool {
    a.mantissa == 0 || b.mantissa == 0 || product_is_exact(a, b)
}

/// A product that loses nothing is decided by the two numbers, however they are written.
pub proof fn lemma_product_numbers(a: DecimalView, b: DecimalView, c: DecimalView)
    requires
        a.scale <= MAX_SCALE,
        b.scale <= MAX_SCALE,
        c.scale <= MAX_SCALE,
        units(a) == units(b),
        multiplies_exactly(a, c),
        multiplies_exactly(b, c),
    ensures
        decimal_product(a, c) matches Some(x) && (decimal_product(b, c) matches Some(y) && units(x)
            == units(y)),
{
    lemma_units_sign(a);
    lemma_units_sign(b);
    if a.mantissa != 0 && c.mantissa != 0 {
        lemma_units_product(a, c);
        lemma_units_product(b, c);
        let x = units(decimal_product(a, c)->0);
        let y = units(decimal_product(b, c)->0);
        let one = pow10(MAX_SCALE as nat) as int;
        lemma_pow10_add(MAX_SCALE as nat, 0);
        assert(x == y) by (nonlinear_arith)
            requires
                x * one == y * one,
                one > 0,
        ;
    }
}

/// A product that loses nothing is the product of the units.
pub proof fn lemma_units_product(a: DecimalView, b: DecimalView)
    requires
        a.scale <= MAX_SCALE,
        b.scale <= MAX_SCALE,
        multiplies_exactly(a, b),
    ensures
        decimal_product(a, b) matches Some(x) && x.valid() && units(x) * pow10(MAX_SCALE as nat)
            == units(a) * units(b),
{
    lemma_units_sign(a);
    lemma_units_sign(b);
    let u = units(a);
    let v = units(b);
    if a.mantissa == 0 || b.mantissa == 0 {
        lemma_units_sign(decimal_zero());
        let one = pow10(MAX_SCALE as nat) as int;
        assert(u * v == 0 && 0 * one == 0) by (nonlinear_arith)
            requires
                u == 0 || v == 0,
        ;
    } else {
        let top = MAX_SCALE as nat;
        let i = (top - a.scale) as nat;
        let j = (top - b.scale) as nat;
        let k = (top - (a.scale + b.scale)) as nat;
        lemma_pow10_add(i, j);
        lemma_pow10_add(k, top);
        assert(i + j == k + top);
        let m = a.mantissa;
        let n = b.mantissa;
        let pi = pow10(i) as int;
        let pj = pow10(j) as int;
        let pk = pow10(k) as int;
        let pt = pow10(top) as int;
        assert(((m * n) * pk) * pt == (m * pi) * (n * pj)) by (nonlinear_arith)
            requires
                pi * pj == pk * pt,
        ;
    }
}

/// What was added without loss can be taken away without loss.
pub proof fn lemma_sum_undone(a: DecimalView, b: DecimalView)
    requires
        a.valid(),
        b.valid(),
        adds_exactly(a, b),
    ensures
        decimal_sum(a, b) matches Some(sum) && sum.valid() && subtracts_exactly(sum, b) && (
        decimal_difference(sum, b) matches Some(again) && again.valid() && units(again) == units(
            a,
        )),
{
    lemma_units_sum(a, b);
    let sum = decimal_sum(a, b)->0;
    let one = pow10(0) as int;
    if a.mantissa != 0 && b.mantissa != 0 {
        let scale = common_scale(a, b);
        let m = sum.mantissa;
        assert(m * one == m) by (nonlinear_arith)
            requires
                one == 1,
        ;
        assert(common_scale(sum, b) == scale);
        assert(sum.at_scale(scale) == m);
    } else if b.mantissa != 0 {
        let m = b.mantissa;
        assert(m * one == m) by (nonlinear_arith)
            requires
                one == 1,
        ;
        assert(common_scale(sum, b) == b.scale);
        assert(b.at_scale(b.scale) == m);
    }
    lemma_units_difference(sum, b);
}

/// Of two prices, the one that is no higher gives the lower total, or the same.
pub proof fn lemma_total_ordered(price: DecimalView, limit: DecimalView, amount: DecimalView)
    requires
        price.valid(),
        limit.valid(),
        amount.valid(),
        limit.mantissa > 0,
        amount.mantissa > 0,
        !limit.less(price),
        product_is_exact(price, amount),
        product_is_exact(limit, amount),
    ensures
        decimal_product(price, amount) matches Some(a) && (decimal_product(
            limit,
            amount,
        ) matches Some(b) && units(rounded(a)) <= units(rounded(b))),
{
    let a = decimal_product(price, amount)->0;
    let b = decimal_product(limit, amount)->0;
    let n = amount.mantissa;
    let x = price.mantissa;
    let y = limit.mantissa;
    assert(y * n > 0 && (x < 0 ==> x * n < 0)) by (nonlinear_arith)
        requires
            y > 0,
            n > 0,
    ;
    if x <= 0 {
        lemma_product_not_negative(limit, amount);
        lemma_units_sign(rounded(a));
        lemma_units_sign(rounded(b));
    } else {
        assert(x * n > 0) by (nonlinear_arith)
            requires
                x > 0,
                n > 0,
        ;
        lemma_pow10_add(price.scale, amount.scale);
        lemma_pow10_add(limit.scale, amount.scale);
        lemma_pow10_add(amount.scale, 0);
        let p = pow10(price.scale) as int;
        let q = pow10(limit.scale) as int;
        let w = pow10(amount.scale) as int;
        assert((x * n) * (q * w) <= (y * n) * (p * w)) by (nonlinear_arith)
            requires
                x * q <= y * p,
                n > 0,
                w > 0,
        ;
        assert(!b.less(a));
        lemma_units_less(b, a);
        lemma_rounded_ordered(a, b);
    }
}

/// Numbers compare as their mantissas at a common number of decimal places do.
proof fn lemma_less_at_common_scale(a: DecimalView, b: DecimalView)
    ensures
        a.less(b) == (a.at_scale(common_scale(a, b)) < b.at_scale(common_scale(a, b))),
{
    let x = a.mantissa;
    let y = b.mantissa;
    let one = pow10(0) as int;
    lemma_pow10_add(a.scale, 0);
    lemma_pow10_add(b.scale, 0);
    let p = pow10(a.scale) as int;
    let q = pow10(b.scale) as int;
    if a.scale < b.scale {
        lemma_pow10_add((b.scale - a.scale) as nat, a.scale);
        let k = pow10((b.scale - a.scale) as nat) as int;
        assert((x * q < y * p) == (x * k < y * one)) by (nonlinear_arith)
            requires
                q == k * p,
                p > 0,
                one == 1,
        ;
    } else {
        lemma_pow10_add((a.scale - b.scale) as nat, b.scale);
        let k = pow10((a.scale - b.scale) as nat) as int;
        assert((x * q < y * p) == (x * one < y * k)) by (nonlinear_arith)
            requires
                p == k * q,
                q > 0,
                one == 1,
        ;
    }
}

/// What is left of a number after no more than itself is taken away is not negative.
pub proof fn lemma_difference_not_negative(a: DecimalView, b: DecimalView)
    requires
        !a.less(b),
    ensures
        decimal_difference(a, b) matches Some(rest) ==> rest.mantissa >= 0,
{
    lemma_less_at_common_scale(a, b);
    lemma_pow10_add(a.scale, 0);
    lemma_pow10_add(b.scale, 0);
    let x = a.mantissa;
    let y = b.mantissa;
    let p = pow10(a.scale) as int;
    let q = pow10(b.scale) as int;
    assert((y == 0 ==> x >= 0) && (x == 0 ==> y <= 0)) by (nonlinear_arith)
        requires
            x * q >= y * p,
            p > 0,
            q > 0,
    ;
}

/// Two numbers that are not negative have no negative sum.
pub proof fn lemma_sum_not_negative(a: DecimalView, b: DecimalView)
    requires
        a.mantissa >= 0,
        b.mantissa >= 0,
    ensures
        decimal_sum(a, b) matches Some(sum) ==> sum.mantissa >= 0,
{
    let x = a.mantissa;
    let y = b.mantissa;
    let scale = common_scale(a, b);
    lemma_pow10_add((scale - a.scale) as nat, 0);
    lemma_pow10_add((scale - b.scale) as nat, 0);
    lemma_pow10_add(a.scale, 0);
    lemma_pow10_add(b.scale, 0);
    let p = pow10((scale - a.scale) as nat) as int;
    let q = pow10((scale - b.scale) as nat) as int;
    assert(x * p >= 0 && y * q >= 0) by (nonlinear_arith)
        requires
            x >= 0,
            y >= 0,
            p > 0,
            q > 0,
    ;
    let u = pow10(b.scale) as int;
    let v = pow10(a.scale) as int;
    assert(x * u >= 0 && (-y) * v <= 0) by (nonlinear_arith)
        requires
            x >= 0,
            y >= 0,
            u > 0,
            v > 0,
    ;
}

/// Two numbers that are not negative have no negative product.
pub proof fn lemma_product_not_negative(a: DecimalView, b: DecimalView)
    requires
        a.mantissa >= 0,
        b.mantissa >= 0,
    ensures
        decimal_product(a, b) matches Some(product) ==> product.mantissa >= 0 && rounded(
            product,
        ).mantissa >= 0,
{
    let x = a.mantissa;
    let y = b.mantissa;
    assert(x * y >= 0) by (nonlinear_arith)
        requires
            x >= 0,
            y >= 0,
    ;
}

proof fn lemma_half_even_scales(n: nat, unit: nat, k: nat)
    requires
        unit > 0,
        k > 0,
    ensures
        divided_half_even(n * k, unit * k) == divided_half_even(n, unit),
{
    let below = (n / unit) as int;
    let rest = (n % unit) as int;
    lemma_fundamental_div_mod(n as int, unit as int);
    let wide = (unit * k) as int;
    assert(wide > 0 && 0 <= rest * k < wide && n * k == below * wide + rest * k) by (
    nonlinear_arith)
        requires
            unit > 0,
            k > 0,
            0 <= rest < unit,
            n == unit * below + rest,
            wide == unit * k,
    ;
    lemma_fundamental_div_mod_converse((n * k) as int, wide, below, rest * k);
    assert((2 * (rest * k) > wide) == (2 * rest > unit) && (2 * (rest * k) == wide) == (2 * rest
        == unit)) by (nonlinear_arith)
        requires
            k > 0,
            wide == unit * k,
    ;
}

proof fn lemma_half_even_ordered(a: nat, b: nat, unit: nat)
    requires
        a <= b,
        unit > 0,
    ensures
        divided_half_even(a, unit) <= divided_half_even(b, unit),
{
    lemma_div_is_ordered(a as int, b as int, unit as int);
    lemma_fundamental_div_mod(a as int, unit as int);
    lemma_fundamental_div_mod(b as int, unit as int);
}

/// The units of a rounded number are its units to the nearest multiple of the place.
proof fn lemma_rounded_units(d: DecimalView)
    requires
        d.mantissa >= 0,
        d.scale <= MAX_SCALE,
    ensures
        units(d) >= 0,
        units(rounded(d)) == divided_half_even(units(d) as nat, pow10(20)) * pow10(20),
{
    let unit = pow10(20);
    let k = pow10((MAX_SCALE as nat - d.scale) as nat);
    lemma_pow10_add(20, 0);
    lemma_pow10_add((MAX_SCALE as nat - d.scale) as nat, 0);
    let m = d.mantissa as nat;
    assert(m * k >= 0) by (nonlinear_arith);
    if d.scale <= PLACES {
        let whole = d.at_scale(PLACES as nat);
        lemma_at_scale(d, PLACES as nat, MAX_SCALE as nat);
        lemma_pow10_add((PLACES as nat - d.scale) as nat, 0);
        let p = pow10((PLACES as nat - d.scale) as nat) as int;
        assert(whole >= 0) by (nonlinear_arith)
            requires
                whole == m * p,
                p > 0,
        ;
        lemma_fundamental_div_mod_converse(units(d), unit as int, whole, 0);
    } else {
        let fine = pow10((d.scale - PLACES) as nat);
        lemma_pow10_add((d.scale - PLACES) as nat, (MAX_SCALE as nat - d.scale) as nat);
        lemma_half_even_scales(m, fine, k);
    }
}

/// Rounding keeps the order of numbers that are not negative.
pub proof fn lemma_rounded_ordered(a: DecimalView, b: DecimalView)
    requires
        0 <= a.mantissa,
        0 <= b.mantissa,
        a.scale <= MAX_SCALE,
        b.scale <= MAX_SCALE,
        units(a) <= units(b),
    ensures
        units(rounded(a)) <= units(rounded(b)),
{
    lemma_rounded_units(a);
    lemma_rounded_units(b);
    lemma_pow10_add(20, 0);
    lemma_half_even_ordered(units(a) as nat, units(b) as nat, pow10(20));
    let x = divided_half_even(units(a) as nat, pow10(20));
    let y = divided_half_even(units(b) as nat, pow10(20));
    let unit = pow10(20);
    assert(x * unit <= y * unit) by (nonlinear_arith)
        requires
            x <= y,
            unit > 0,
    ;
}

/// Which number a rounded number is does not depend on how the number is written.
pub proof fn lemma_rounded_same(a: DecimalView, b: DecimalView)
    requires
        a.scale <= MAX_SCALE,
        b.scale <= MAX_SCALE,
        units(a) == units(b),
    ensures
        units(rounded(a)) == units(rounded(b)),
{
    lemma_units_sign(a);
    lemma_units_sign(b);
    if a.mantissa >= 0 {
        lemma_rounded_units(a);
        lemma_rounded_units(b);
    } else {
        lemma_rounded_negated(a);
        lemma_rounded_negated(b);
        lemma_rounded_units(DecimalView { mantissa: -a.mantissa, scale: a.scale });
        lemma_rounded_units(DecimalView { mantissa: -b.mantissa, scale: b.scale });
    }
}

/// Rounding moves a number by half a place at most, and a number of so few places not at all.
pub proof fn lemma_rounded_near(d: DecimalView)
    requires
        d.scale <= MAX_SCALE,
    ensures
        -pow10(20) <= 2 * (units(rounded(d)) - units(d)) <= pow10(20),
        units(d) % (pow10(20) as int) == 0 ==> units(rounded(d)) == units(d),
{
    let unit = pow10(20);
    lemma_pow10_add(20, 0);
    if d.mantissa >= 0 {
        lemma_rounded_near_above(d);
    } else {
        let positive = DecimalView { mantissa: -d.mantissa, scale: d.scale };
        lemma_rounded_negated(d);
        lemma_rounded_near_above(positive);
        let u = units(positive);
        lemma_fundamental_div_mod(-u, unit as int);
        let n = -((-u) / (unit as int));
        let one = unit as int;
        assert((-n) * one == -(n * one) && one * (-n) == (-n) * one) by (nonlinear_arith);
        if units(d) % one == 0 {
            lemma_fundamental_div_mod_converse(u, one, n, 0);
        }
    }
}

proof fn lemma_rounded_near_above(d: DecimalView)
    requires
        d.scale <= MAX_SCALE,
        d.mantissa >= 0,
    ensures
        -pow10(20) <= 2 * (units(rounded(d)) - units(d)) <= pow10(20),
        units(d) % (pow10(20) as int) == 0 ==> units(rounded(d)) == units(d),
{
    let unit = pow10(20) as int;
    lemma_pow10_add(20, 0);
    lemma_rounded_units(d);
    let u = units(d);
    let below = u / unit;
    let rest = u % unit;
    lemma_fundamental_div_mod(u, unit);
    assert((below + 1) * unit == below * unit + unit && unit * below == below * unit) by (
    nonlinear_arith);
}

proof fn lemma_rounded_negated(d: DecimalView)
    requires
        d.mantissa < 0,
        d.scale <= MAX_SCALE,
    ensures
        ({
            let positive = DecimalView { mantissa: -d.mantissa, scale: d.scale };
            units(d) == -units(positive) && units(rounded(d)) == -units(rounded(positive))
        }),
{
    let m = -d.mantissa;
    let p = pow10((MAX_SCALE as nat - d.scale) as nat) as int;
    assert((-m) * p == -(m * p)) by (nonlinear_arith);
    let n = rounded(DecimalView { mantissa: m, scale: d.scale }).mantissa;
    let q = pow10((MAX_SCALE as nat - rounded(d).scale) as nat) as int;
    assert((-n) * q == -(n * q)) by (nonlinear_arith);
}

/// A decimal number that `rust_decimal::Decimal` can hold.
#[derive(Clone, Copy, Debug)]
pub struct Decimal {
    mantissa: i128,
    scale: u32,
}

impl View for Decimal {
    type V = DecimalView;

    closed spec fn view(&self) -> DecimalView {
        DecimalView { mantissa: self.mantissa as int, scale: self.scale as nat }
    }
}

impl DeepView for Decimal {
    type V = DecimalView;

    open spec fn deep_view(&self) -> DecimalView {
        self@
    }
}

impl Decimal {
    #[verifier::type_invariant]
    closed spec fn in_range(self) -> bool {
        -MAX_MANTISSA <= self.mantissa <= MAX_MANTISSA && self.scale <= MAX_SCALE
    }

    /// The decimal `mantissa / 10^scale`, where there is one.
    pub fn new(mantissa: i128, scale: u32) -> (r: Option<Decimal>)
        ensures
            match r {
                Some(d) => d@ == (DecimalView { mantissa: mantissa as int, scale: scale as nat })
                    && d@.valid(),
                None => !(DecimalView { mantissa: mantissa as int, scale: scale as nat }).valid(),
            },
    {
        if -MAX_MANTISSA <= mantissa && mantissa <= MAX_MANTISSA && scale <= MAX_SCALE {
            Some(Decimal { mantissa, scale })
        } else {
            None
        }
    }

    pub fn zero() -> (r: Decimal)
        ensures
            r@ == decimal_zero(),
    {
        Decimal { mantissa: 0, scale: 0 }
    }

    /// A whole number.
    pub fn whole(n: u32) -> (r: Decimal)
        ensures
            r@ == decimal_whole(n as int),
    {
        Decimal { mantissa: n as i128, scale: 0 }
    }

    pub fn mantissa(&self) -> (r: i128)
        ensures
            r == self@.mantissa,
            self@.valid(),
    {
        proof {
            use_type_invariant(self);
        }
        self.mantissa
    }

    pub fn scale(&self) -> (r: u32)
        ensures
            r == self@.scale,
            self@.valid(),
    {
        proof {
            use_type_invariant(self);
        }
        self.scale
    }

    pub fn is_zero(&self) -> (r: bool)
        ensures
            r == (self@.mantissa == 0),
    {
        self.mantissa == 0
    }

    pub fn is_positive(&self) -> (r: bool)
        ensures
            r == (self@.mantissa > 0),
    {
        self.mantissa > 0
    }

    pub fn is_negative(&self) -> (r: bool)
        ensures
            r == (self@.mantissa < 0),
    {
        self.mantissa < 0
    }

    /// `<rust_decimal::Decimal as PartialOrd>::lt` compares the two numbers, whatever their
    /// decimal places are.
    #[verifier::external_body]
    pub(crate) fn less_than(&self, other: &Decimal) -> (r: bool)
        ensures
            r == self@.less(other@),
    {
        rust_decimal::Decimal::from_i128_with_scale(self.mantissa, self.scale)
            < rust_decimal::Decimal::from_i128_with_scale(other.mantissa, other.scale)
    }

    /// `rust_decimal::Decimal::checked_add` returns the other number where one is zero. Where
    /// both numbers and their sum fit at the larger number of decimal places, it returns the sum
    /// with those places. Where they do not, it rounds or returns `None`: a function of the two
    /// numbers, which has the sign of the sum.
    #[verifier::external_body]
    pub(crate) fn plus(&self, other: &Decimal) -> (r: Option<Decimal>)
        ensures
            r.deep_view() == decimal_sum(self@, other@),
            self@.mantissa != 0 && other@.mantissa != 0 && !sum_is_exact(self@, other@)
                ==> r.deep_view() == with_sign(
                rounded_sum(self@, other@),
                self@.less(DecimalView { mantissa: -other@.mantissa, scale: other@.scale }),
            ),
    {
        let a = rust_decimal::Decimal::from_i128_with_scale(self.mantissa, self.scale);
        let b = rust_decimal::Decimal::from_i128_with_scale(other.mantissa, other.scale);
        a.checked_add(b).map(|d| Decimal { mantissa: d.mantissa(), scale: d.scale() })
    }

    /// `rust_decimal::Decimal::checked_sub` returns the first number where the second is zero,
    /// and the second with the other sign where the first is zero. Where both numbers and their
    /// difference fit at the larger number of decimal places, it returns the difference with
    /// those places. Where they do not, it rounds or returns `None`: a function of the two
    /// numbers, which has the sign of the difference.
    #[verifier::external_body]
    pub(crate) fn minus(&self, other: &Decimal) -> (r: Option<Decimal>)
        ensures
            r.deep_view() == decimal_difference(self@, other@),
            self@.mantissa != 0 && other@.mantissa != 0 && !difference_is_exact(self@, other@)
                ==> r.deep_view() == with_sign(
                rounded_difference(self@, other@),
                self@.less(other@),
            ),
    {
        let a = rust_decimal::Decimal::from_i128_with_scale(self.mantissa, self.scale);
        let b = rust_decimal::Decimal::from_i128_with_scale(other.mantissa, other.scale);
        a.checked_sub(b).map(|d| Decimal { mantissa: d.mantissa(), scale: d.scale() })
    }

    /// `rust_decimal::Decimal::checked_mul` returns zero, without decimal places, where one
    /// number is zero. Where the product of the mantissas fits and the decimal places together
    /// are not too many, it returns the exact product. Where they are, it rounds or returns
    /// `None`: a function of the two numbers, which has the sign of the product.
    #[verifier::external_body]
    pub(crate) fn times(&self, other: &Decimal) -> (r: Option<Decimal>)
        ensures
            r.deep_view() == decimal_product(self@, other@),
            self@.mantissa != 0 && other@.mantissa != 0 && !product_is_exact(self@, other@)
                ==> r.deep_view() == with_sign(
                rounded_product(self@, other@),
                (self@.mantissa < 0) != (other@.mantissa < 0),
            ),
    {
        let a = rust_decimal::Decimal::from_i128_with_scale(self.mantissa, self.scale);
        let b = rust_decimal::Decimal::from_i128_with_scale(other.mantissa, other.scale);
        a.checked_mul(b).map(|d| Decimal { mantissa: d.mantissa(), scale: d.scale() })
    }

    /// `rust_decimal::Decimal::checked_div` returns `None` where the divisor is zero, and zero,
    /// without decimal places, where only the first number is. Where the divisor's mantissa
    /// divides that of the first number, which has no fewer decimal places, it returns the
    /// quotient of the mantissas with the difference of the places. The quotient of other numbers
    /// is a function of the two, `None` where it is out of range, and has the sign of the
    /// quotient. It goes on dividing until nothing remains or no more digits fit, and rounds then:
    /// so a quotient that can be written is exact, and the zeros that a number is written with
    /// change at most how many zeros the quotient is written with.
    #[verifier::external_body]
    pub(crate) fn divided_by(&self, other: &Decimal) -> (r: Option<Decimal>)
        ensures
            r.deep_view() == decimal_quotient(self@, other@),
            self@.mantissa != 0 && other@.mantissa != 0 && !quotient_is_exact(self@, other@)
                ==> r.deep_view() == with_sign(
                rounded_quotient(self@, other@),
                (self@.mantissa < 0) != (other@.mantissa < 0),
            ),
    {
        let a = rust_decimal::Decimal::from_i128_with_scale(self.mantissa, self.scale);
        let b = rust_decimal::Decimal::from_i128_with_scale(other.mantissa, other.scale);
        a.checked_div(b).map(|d| Decimal { mantissa: d.mantissa(), scale: d.scale() })
    }

    /// `rust_decimal::Decimal::round_dp` keeps a number that has no more than the given decimal
    /// places, and rounds any other to them, half to even.
    #[verifier::external_body]
    pub(crate) fn round_dp(&self, places: u32) -> (r: Decimal)
        ensures
            r@ == rounded_to(self@, places as nat),
    {
        let d = rust_decimal::Decimal::from_i128_with_scale(self.mantissa, self.scale)
            .round_dp(places);
        Decimal { mantissa: d.mantissa(), scale: d.scale() }
    }

    /// `<rust_decimal::Decimal as Display>::fmt` writes the sign of a negative number, the whole
    /// part without leading zeros, and every decimal place.
    #[verifier::external_body]
    pub(crate) fn to_text(&self) -> (r: String)
        ensures
            r@ == decimal_text(self@),
    {
        rust_decimal::Decimal::from_i128_with_scale(self.mantissa, self.scale).to_string()
    }

    /// `<rust_decimal::Decimal as FromStr>::from_str` is a function of the text, and reads back
    /// the number that `Display` wrote, with its decimal places.
    #[verifier::external_body]
    pub(crate) fn parse(text: &str) -> (r: Option<Decimal>)
        ensures
            r.deep_view() == decimal_parsed(text@),
            forall|d: DecimalView| d.valid() && text@ == #[trigger] decimal_text(d)
                ==> r.deep_view() == Some(d),
    {
        let parsed: Result<rust_decimal::Decimal, rust_decimal::Error> = text.parse();
        parsed.ok().map(|d| Decimal { mantissa: d.mantissa(), scale: d.scale() })
    }

    /// This number rounded to the places that amounts of USDC have.
    pub fn rounded(&self) -> (r: Decimal)
        ensures
            r@ == rounded(self@),
    {
        self.round_dp(PLACES)
    }

    pub fn max(self, other: Decimal) -> (r: Decimal)
        ensures
            r@ == decimal_max(self@, other@),
    {
        if self.less_than(&other) {
            other
        } else {
            self
        }
    }
}

} // verus!
