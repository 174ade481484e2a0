//! What holds of numbers and texts that are written out.
use crate::text;
use vstd::prelude::*;
use vstd::utf8::*;

verus! {

/// Bytes that are UTF-8 are read as what they encode, and others as
/// [`String::from_utf8_lossy`] has it.
pub proof fn law_bytes_read_as_text(bytes: Seq<u8>, characters: Seq<char>)
    ensures
        valid_utf8(bytes) ==> text::as_text(bytes) == decode_utf8(bytes),
        !valid_utf8(bytes) ==> text::as_text(bytes) == text::utf8_lossy(bytes),
        text::as_text(encode_utf8(characters)) == characters,
{
    encode_utf8_valid_utf8(characters);
    encode_utf8_decode_utf8(characters);
}

/// Joined items stand in order, with the separator between each two and nowhere else.
pub proof fn law_joined(items: Seq<Seq<char>>, item: Seq<char>, separator: Seq<char>)
    ensures
        text::joined(Seq::empty(), separator) == Seq::<char>::empty(),
        text::joined(seq![item], separator) == item,
        items.len() > 0 ==> text::joined(items.push(item), separator) == text::joined(
            items,
            separator,
        ) + separator + item,
{
    if items.len() > 0 {
        assert(items.push(item).drop_last() == items);
    }
}

/// The number that decimal digits stand for.
pub open spec fn decimal_value(digits: Seq<char>) -> int
    decreases digits.len(),
{
    if digits.len() == 0 {
        0
    } else {
        10 * decimal_value(digits.drop_last()) + (digits.last() as int - 48)
    }
}

/// A number is written with the digits that stand for it, and without leading zeros.
pub proof fn law_decimal_digits(n: nat)
    ensures
        decimal_value(text::decimal(n)) == n,
        text::decimal(n).len() > 0,
        n >= 10 ==> text::decimal(n).len() > 1,
        text::decimal(n).len() > 1 ==> text::decimal(n)[0] != '0',
        forall|i: int|
            0 <= i < text::decimal(n).len() ==> '0' <= #[trigger] text::decimal(n)[i]
                && text::decimal(n)[i] <= '9',
    decreases n,
{
    let digits = text::decimal(n);
    if n < 10 {
        assert(digits.drop_last() == Seq::<char>::empty());
        assert(decimal_value(digits.drop_last()) == 0);
    } else {
        law_decimal_digits(n / 10);
        assert(digits.drop_last() == text::decimal(n / 10));
        if n / 10 < 10 {
            assert(text::decimal(n / 10)[0] == text::decimal_digit((n / 10) as int));
        }
        assert(digits[0] == text::decimal(n / 10)[0]);
        assert forall|i: int| 0 <= i < digits.len() implies '0' <= #[trigger] digits[i]
            && digits[i] <= '9' by {
            if i < digits.len() - 1 {
                assert(digits[i] == text::decimal(n / 10)[i]);
            }
        }
    }
}

/// The number that lower-case hexadecimal digits stand for.
pub open spec fn hex_value(digits: Seq<u8>) -> int
    decreases digits.len(),
{
    if digits.len() == 0 {
        0
    } else {
        16 * hex_value(digits.drop_last()) + (if digits.last() <= 57 {
            digits.last() - 48
        } else {
            digits.last() - 87
        })
    }
}

/// A number that fits in the width is written with as many digits, from `0` to `9` and
/// from `a` to `f`, which stand for it.
pub proof fn law_hex_digits(n: nat, width: nat)
    requires
        n < text::power(16, width),
    ensures
        text::hex_padded(n, width).len() == width,
        forall|i: int| 0 <= i < width ==> {
            let digit = #[trigger] text::hex_padded(n, width)[i];
            48 <= digit <= 57 || 97 <= digit <= 102
        },
        hex_value(text::hex_padded(n, width)) == n,
    decreases width,
{
    text::lemma_hex_padded(n, width);
    if width > 0 {
        let rest = (width - 1) as nat;
        assert(text::power(16, width) == 16 * text::power(16, rest));
        assert(n / 16 < text::power(16, rest));
        law_hex_digits(n / 16, rest);
        let digits = text::hex_padded(n, width);
        assert(digits.drop_last() == text::hex_padded(n / 16, rest));
    }
}

} // verus!
