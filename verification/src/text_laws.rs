//! What the operations on text do, in terms of the characters alone.

use vstd::prelude::*;
use vstd::utf8::{char_is_scalar, encode_scalar, encode_utf8};

use crate::config::trading_pairs;
use crate::pnl::{key_before, SaleKey};
use crate::text::{
    ascii_upper, char_width, digits_value, is_ascii_text, is_digit, is_white_space,
    lemma_text_order_total, parsed_unsigned, replaced, split_on, text_before, trimmed,
    trimmed_end, trimmed_start, unsigned_part, uppercased, utf8_length, without_prefix,
};

verus! {

/// Whether what is kept of a text is all of it from `from` to `to`, where only white space is
/// left out and what is kept neither starts nor ends with any.
pub open spec fn keeps(text: Seq<char>, kept: Seq<char>, from: int, to: int) -> bool {
    &&& 0 <= from <= to <= text.len()
    &&& kept == text.subrange(from, to)
    &&& forall|k: int| 0 <= k < from ==> is_white_space(#[trigger] text[k])
    &&& forall|k: int| to <= k < text.len() ==> is_white_space(#[trigger] text[k])
    &&& from < to ==> !is_white_space(text[from]) && !is_white_space(text[to - 1])
}

proof fn lemma_trimmed_start(text: Seq<char>) -> (from: int)
    ensures
        0 <= from <= text.len(),
        trimmed_start(text) == text.subrange(from, text.len() as int),
        forall|k: int| 0 <= k < from ==> is_white_space(#[trigger] text[k]),
        from < text.len() ==> !is_white_space(text[from]),
    decreases text.len(),
{
    if text.len() > 0 && is_white_space(text[0]) {
        let rest = text.subrange(1, text.len() as int);
        let from = lemma_trimmed_start(rest);
        assert forall|k: int| 0 <= k < from + 1 implies is_white_space(#[trigger] text[k]) by {
            if k > 0 {
                assert(is_white_space(rest[k - 1]));
            }
        }
        assert(rest.subrange(from, rest.len() as int) =~= text.subrange(
            from + 1,
            text.len() as int,
        ));
        from + 1
    } else {
        assert(text.subrange(0, text.len() as int) =~= text);
        0
    }
}

proof fn lemma_trimmed_end(text: Seq<char>) -> (to: int)
    ensures
        0 <= to <= text.len(),
        trimmed_end(text) == text.subrange(0, to),
        forall|k: int| to <= k < text.len() ==> is_white_space(#[trigger] text[k]),
        to > 0 ==> !is_white_space(text[to - 1]),
    decreases text.len(),
{
    if text.len() > 0 && is_white_space(text.last()) {
        let rest = text.drop_last();
        let to = lemma_trimmed_end(rest);
        assert forall|k: int| to <= k < text.len() implies is_white_space(#[trigger] text[k]) by {
            if k < rest.len() {
                assert(is_white_space(rest[k]));
            }
        }
        assert(rest.subrange(0, to) =~= text.subrange(0, to));
        to
    } else {
        assert(text.subrange(0, text.len() as int) =~= text);
        text.len() as int
    }
}

/// Trimming leaves out the white space at both ends of a text, all of it and nothing else.
pub proof fn law_trimmed(text: Seq<char>)
    ensures
        exists|from: int, to: int| #[trigger] keeps(text, trimmed(text), from, to),
{
    let from = lemma_trimmed_start(text);
    let rest = trimmed_start(text);
    let to = lemma_trimmed_end(rest);
    assert(rest.subrange(0, to) =~= text.subrange(from, from + to));
    assert forall|k: int| from + to <= k < text.len() implies is_white_space(
        #[trigger] text[k],
    ) by {
        assert(is_white_space(rest[k - from]));
    }
    if to > 0 {
        assert(rest[to - 1] == text[from + to - 1]);
    }
    assert(keeps(text, trimmed(text), from, from + to));
}

/// Texts one after the other, with a separator between each and the next.
pub open spec fn joined(pieces: Seq<Seq<char>>, separator: char) -> Seq<char>
    decreases pieces.len(),
{
    if pieces.len() == 0 {
        Seq::empty()
    } else if pieces.len() == 1 {
        pieces[0]
    } else {
        joined(pieces.drop_last(), separator).push(separator) + pieces.last()
    }
}

/// The pieces of a text, put together again with the separator between them, are the text; no
/// piece holds the separator, and there is at least one.
pub proof fn law_split(text: Seq<char>, separator: char)
    ensures
        split_on(text, separator).len() > 0,
        joined(split_on(text, separator), separator) == text,
        forall|i: int|
            0 <= i < split_on(text, separator).len() ==> !(#[trigger] split_on(
                text,
                separator,
            )[i]).contains(separator),
    decreases text.len(),
{
    let all = split_on(text, separator);
    if text.len() == 0 {
        assert(all[0] =~= text);
    } else {
        let rest = text.drop_last();
        let pieces = split_on(rest, separator);
        law_split(rest, separator);
        assert(rest.push(text.last()) =~= text);
        assert(all.drop_last() =~= if text.last() == separator {
            pieces
        } else {
            pieces.drop_last()
        });
        assert(joined(all, separator) =~= text);
        if text.last() != separator {
            assert forall|i: int| 0 <= i < all.len() implies !(#[trigger] all[i]).contains(
                separator,
            ) by {
                assert(!pieces[i].contains(separator));
                if i == all.len() - 1 {
                    assert forall|k: int| 0 <= k < all[i].len() implies all[i][k] != separator by {
                        if k < pieces[i].len() {
                            assert(pieces[i].contains(pieces[i][k]));
                        }
                    }
                }
            }
        }
    }
}

/// What a digit stands for.
pub open spec fn digit_value(digit: char) -> int {
    digit as u32 - 48
}

/// A digit is a number of its own, with or without a plus sign before it.
pub proof fn law_one_digit(digit: char, max: nat)
    requires
        '0' <= digit <= '9',
    ensures
        0 <= digit_value(digit) <= 9,
        parsed_unsigned(seq![digit], max) == if digit_value(digit) <= max {
            Some(digit_value(digit) as nat)
        } else {
            None
        },
        parsed_unsigned(seq!['+', digit], max) == parsed_unsigned(seq![digit], max),
{
    let one = seq![digit];
    assert(unsigned_part(one) =~= one);
    assert(unsigned_part(seq!['+', digit]) =~= one);
    assert(one.drop_last() =~= Seq::<char>::empty());
    reveal_with_fuel(digits_value, 2);
}

/// A digit after a number makes it ten times as large and adds itself; what is larger than the
/// largest number is none.
pub proof fn law_one_more_digit(text: Seq<char>, digit: char, max: nat)
    requires
        '0' <= digit <= '9',
        text.len() > 0,
        text != seq!['+'],
    ensures
        parsed_unsigned(text.push(digit), max) == match parsed_unsigned(text, max) {
            Some(n) if 10 * n + digit_value(digit) <= max => Some(
                (10 * n + digit_value(digit)) as nat,
            ),
            _ => None,
        },
{
    let digits = unsigned_part(text);
    let longer = text.push(digit);
    assert(unsigned_part(longer) =~= digits.push(digit));
    assert(digits.push(digit).drop_last() =~= digits);
    if digits.len() == 0 {
        assert(text =~= seq!['+']);
    }
    if forall|i: int| 0 <= i < digits.push(digit).len() ==> is_digit(
        #[trigger] digits.push(digit)[i],
    ) {
        assert forall|i: int| 0 <= i < digits.len() implies is_digit(#[trigger] digits[i]) by {
            assert(is_digit(digits.push(digit)[i]));
        }
    }
}

/// A text without a digit, or with anything but digits behind its first character, is no number;
/// nor is one that starts with anything but a digit or a plus sign.
pub proof fn law_no_number(text: Seq<char>, at: int, max: nat)
    requires
        0 <= at < text.len(),
        text[at] < '0' || text[at] > '9',
        at > 0 || text[at] != '+',
    ensures
        parsed_unsigned(text, max) is None,
        parsed_unsigned(Seq::empty(), max) is None,
        parsed_unsigned(seq!['+'], max) is None,
{
    let digits = unsigned_part(text);
    if text[0] == '+' {
        assert(digits[at - 1] == text[at]);
    } else {
        assert(digits[at] == text[at]);
    }
    assert(unsigned_part(Seq::empty()).len() == 0);
    assert(unsigned_part(seq!['+']).len() == 0);
}

/// The length of a text is that of its encoding in UTF-8.
pub proof fn law_utf8_length(text: Seq<char>)
    ensures
        utf8_length(text) == encode_utf8(text).len(),
    decreases text.len(),
{
    if text.len() > 0 {
        let rest = text.drop_last();
        law_utf8_length(rest);
        lemma_encoded(rest, text.last());
        assert(rest.push(text.last()) =~= text);
        char_is_scalar(text.last());
        assert(encode_scalar(text.last() as u32).len() == char_width(text.last()));
    }
}

proof fn lemma_encoded(text: Seq<char>, c: char)
    ensures
        encode_utf8(text.push(c)) == encode_utf8(text) + encode_scalar(c as u32),
    decreases text.len(),
{
    let longer = text.push(c);
    if text.len() > 0 {
        lemma_encoded(text.drop_first(), c);
        assert(longer.drop_first() =~= text.drop_first().push(c));
        assert(encode_utf8(longer) =~= encode_utf8(text) + encode_scalar(c as u32));
    } else {
        assert(longer.drop_first() =~= Seq::<char>::empty());
        reveal_with_fuel(encode_utf8, 2);
        assert(encode_utf8(longer) =~= encode_utf8(text) + encode_scalar(c as u32));
    }
}

/// Whether two texts are the same up to a place, and the first ends there or has the smaller
/// character.
pub open spec fn smaller_at(a: Seq<char>, b: Seq<char>, place: int) -> bool {
    &&& 0 <= place <= a.len() && place < b.len()
    &&& forall|k: int| 0 <= k < place ==> #[trigger] a[k] == b[k]
    &&& place < a.len() ==> a[place] < b[place]
}

/// Texts are ordered as in a dictionary: by the first place where they differ.
pub proof fn law_text_order(a: Seq<char>, b: Seq<char>)
    ensures
        text_before(a, b) <==> exists|place: int| #[trigger] smaller_at(a, b, place),
    decreases a.len(),
{
    if a.len() > 0 && b.len() > 0 && a[0] == b[0] {
        let x = a.drop_first();
        let y = b.drop_first();
        law_text_order(x, y);
        if text_before(a, b) {
            let place = choose|place: int| #[trigger] smaller_at(x, y, place);
            assert forall|k: int| 0 <= k < place + 1 implies #[trigger] a[k] == b[k] by {
                if k > 0 {
                    assert(x[k - 1] == y[k - 1]);
                }
            }
            assert(smaller_at(a, b, place + 1));
        }
        if exists|place: int| #[trigger] smaller_at(a, b, place) {
            let place = choose|place: int| #[trigger] smaller_at(a, b, place);
            assert forall|k: int| 0 <= k < place - 1 implies #[trigger] x[k] == y[k] by {
                assert(a[k + 1] == b[k + 1]);
            }
            assert(smaller_at(x, y, place - 1));
        }
    } else if text_before(a, b) {
        assert(smaller_at(a, b, 0));
    }
}

/// Sales are ordered by their symbol, and those of one symbol by the name of the order type.
pub proof fn law_sale_order(a: SaleKey, b: SaleKey)
    ensures
        (exists|place: int| #[trigger] smaller_at(a.0, b.0, place)) ==> key_before(a, b),
        (exists|place: int| #[trigger] smaller_at(b.0, a.0, place)) ==> !key_before(a, b),
        a.0 == b.0 ==> (key_before(a, b) <==> exists|place: int| #[trigger]
            smaller_at(a.1.name(), b.1.name(), place)),
{
    law_text_order(a.0, b.0);
    law_text_order(b.0, a.0);
    law_text_order(a.1.name(), b.1.name());
    lemma_text_order_total(a.0, b.0);
}

/// A prefix is taken off a text that is the prefix and something more, and only off such a text.
pub proof fn law_prefix(prefix: Seq<char>, rest: Seq<char>, text: Seq<char>)
    ensures
        without_prefix(prefix + rest, prefix) == Some(rest),
        without_prefix(text, prefix) matches Some(left) ==> text == prefix + left,
{
    assert((prefix + rest).take(prefix.len() as int) =~= prefix);
    assert((prefix + rest).skip(prefix.len() as int) =~= rest);
    if let Some(left) = without_prefix(text, prefix) {
        assert(text =~= text.take(prefix.len() as int) + left);
    }
}

/// Whether a character of a trading pair is the one for a character of its name: a slash for a
/// dash, a letter in upper case, and everything else as it is.
pub open spec fn names_in_pair(name: char, pair: char) -> bool {
    if name == '-' {
        pair == '/'
    } else if 'a' <= name && name <= 'z' {
        'A' <= pair && pair <= 'Z' && name as u32 - pair as u32 == 32
    } else {
        pair == name
    }
}

/// One more name in the list of trading pairs adds its pair at the end, where the name is more
/// than white space, and nothing where it is not.
pub proof fn law_one_more_pair(names: Seq<Seq<char>>, name: Seq<char>)
    requires
        is_ascii_text(trimmed(name)),
    ensures
        ({
            let before = trading_pairs(names);
            let after = trading_pairs(names.push(name));
            let kept = trimmed(name);
            if kept.len() == 0 {
                after == before
            } else {
                &&& after.len() == before.len() + 1
                &&& after.drop_last() == before
                &&& after.last().len() == kept.len()
                &&& forall|k: int|
                    0 <= k < kept.len() ==> names_in_pair(kept[k], #[trigger] after.last()[k])
            }
        }),
        trading_pairs(Seq::empty()).len() == 0,
{
    let kept = trimmed(name);
    let pair = replaced(uppercased(kept), '-', '/');
    assert(names.push(name).drop_last() =~= names);
    assert(trading_pairs(names).push(pair).drop_last() =~= trading_pairs(names));
    assert forall|k: int| 0 <= k < kept.len() implies names_in_pair(
        kept[k],
        #[trigger] pair[k],
    ) by {
        assert(kept[k] as u32 <= 127);
        assert(uppercased(kept)[k] == ascii_upper(kept[k]));
    }
}

} // verus!
