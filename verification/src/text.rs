//! Strings: conversions to and from characters and bytes, and number formats.
use vstd::prelude::*;
use vstd::slice::slice_to_vec;
use vstd::string::*;
use vstd::utf8::*;

verus! {

/// The text that [`String::from_utf8_lossy`] reads from `bytes`.
pub uninterp spec fn utf8_lossy(bytes: Seq<u8>) -> Seq<char>;

/// Calls [`String::from_utf8_lossy`].
///
/// The result is a function of the bytes alone. Bytes that are valid UTF-8 are
/// decoded unchanged; where the replacement characters stand for other bytes is
/// left to the name [`utf8_lossy`].
#[verifier::external_body]
fn from_utf8_lossy(bytes: &[u8]) -> (text: String)
    ensures
        text@ == utf8_lossy(bytes@),
        valid_utf8(bytes@) ==> text@ == decode_utf8(bytes@),
{
    String::from_utf8_lossy(bytes).into_owned()
}

/// The text that the bytes are read as: what they encode where they are UTF-8, and
/// otherwise a text with replacement characters.
pub open spec fn as_text(bytes: Seq<u8>) -> Seq<char> {
    if valid_utf8(bytes) {
        decode_utf8(bytes)
    } else {
        utf8_lossy(bytes)
    }
}

/// Reads the bytes as text, with replacement characters for what is not UTF-8.
pub fn text_of(bytes: &[u8]) -> (text: String)
    ensures
        text@ == as_text(bytes@),
{
    from_utf8_lossy(bytes)
}

/// [`String::push`] appends the character to the end of the string.
pub assume_specification[ String::push ](s: &mut String, ch: char)
    ensures
        final(s)@ == old(s)@.push(ch),
;

/// The characters of `text`, in order.
pub fn chars_of(text: &str) -> (chars: Vec<char>)
    ensures
        chars@ == text@,
{
    let mut chars: Vec<char> = Vec::new();
    for ch in iter: text.chars()
        invariant
            iter.seq() == text@,
            chars@ == text@.take(iter.index() as int),
    {
        chars.push(ch);
    }
    chars
}

/// The UTF-8 bytes of `text`.
pub fn bytes_of(text: &str) -> (bytes: Vec<u8>)
    ensures
        bytes@ == encode_utf8(text@),
{
    slice_to_vec(text.as_bytes())
}

/// The texts that the strings hold.
pub open spec fn texts(strings: Seq<String>) -> Seq<Seq<char>> {
    strings.map_values(|s: String| s@)
}

/// The items, with `separator` between each two neighbours.
pub open spec fn joined(items: Seq<Seq<char>>, separator: Seq<char>) -> Seq<char>
    decreases items.len(),
{
    if items.len() == 0 {
        Seq::empty()
    } else if items.len() == 1 {
        items[0]
    } else {
        joined(items.drop_last(), separator) + separator + items.last()
    }
}

/// Joins the strings with `separator` between each two neighbours.
pub fn join_strings(strings: &Vec<String>, separator: &str) -> (text: String)
    ensures
        text@ == joined(texts(strings@), separator@),
{
    let mut text = String::new();
    let ghost items = texts(strings@);
    let mut i: usize = 0;
    while i < strings.len()
        invariant
            i <= strings.len(),
            items == texts(strings@),
            text@ == joined(items.take(i as int), separator@),
        decreases strings.len() - i,
    {
        if i > 0 {
            text.append(separator);
        }
        text.append(strings[i].as_str());
        assert(items.take(i + 1).drop_last() == items.take(i as int));
        i += 1;
    }
    assert(items.take(i as int) == items);
    text
}

/// Where two texts in UTF-8 meet is the border of a character.
pub proof fn lemma_boundary(head: Seq<u8>, tail: Seq<u8>)
    requires
        valid_utf8(head),
        valid_utf8(tail),
    ensures
        valid_utf8(head + tail),
        is_char_boundary(head + tail, head.len() as int),
    decreases head.len(),
{
    valid_utf8_concat(head, tail);
    let both = head + tail;
    if head.len() > 0 {
        assert(both[0] == head[0]);
        let rest = pop_first_scalar(head);
        assert(pop_first_scalar(both) == rest + tail);
        lemma_boundary(rest, tail);
    }
}

/// Two texts in UTF-8, one after the other, encode their characters one after the other.
pub proof fn lemma_decode_append(head: Seq<u8>, tail: Seq<u8>)
    requires
        valid_utf8(head),
        valid_utf8(tail),
    ensures
        valid_utf8(head + tail),
        decode_utf8(head + tail) == decode_utf8(head) + decode_utf8(tail),
{
    lemma_boundary(head, tail);
    let both = head + tail;
    decode_utf8_split(both, head.len() as int);
    assert(both.subrange(0, head.len() as int) == head);
    assert(both.subrange(head.len() as int, both.len() as int) == tail);
}

/// The decimal digit with the value `d`.
pub open spec fn decimal_digit(d: int) -> char {
    (('0' as int) + d) as char
}

/// The decimal digits of `n`, without leading zeros.
pub open spec fn decimal(n: nat) -> Seq<char>
    decreases n,
{
    if n < 10 {
        seq![decimal_digit(n as int)]
    } else {
        decimal(n / 10).push(decimal_digit((n % 10) as int))
    }
}

/// Writes `n` in decimal.
pub fn decimal_string(n: u64) -> (text: String)
    ensures
        text@ == decimal(n as nat),
    decreases n,
{
    let digit: char = (48u8 + (n % 10) as u8) as char;
    let mut text = if n < 10 {
        String::new()
    } else {
        decimal_string(n / 10)
    };
    text.push(digit);
    text
}

/// The lower-case hexadecimal digit with the value `d`, as a byte.
pub open spec fn hex_digit(d: int) -> u8 {
    if d < 10 {
        (48 + d) as u8
    } else {
        (87 + d) as u8
    }
}

/// The last `width` hexadecimal digits of `n`, with leading zeros.
pub open spec fn hex_padded(n: nat, width: nat) -> Seq<u8>
    decreases width,
{
    if width == 0 {
        Seq::empty()
    } else {
        hex_padded(n / 16, (width - 1) as nat).push(hex_digit((n % 16) as int))
    }
}

/// Writes the last `width` hexadecimal digits of `n`, with leading zeros.
pub fn hex_padded_bytes(n: u64, width: usize) -> (digits: Vec<u8>)
    ensures
        digits@ == hex_padded(n as nat, width as nat),
    decreases width,
{
    if width == 0 {
        return Vec::new();
    }
    let d: u8 = (n % 16) as u8;
    let mut digits = hex_padded_bytes(n / 16, width - 1);
    digits.push(if d < 10 { 48 + d } else { 87 + d });
    digits
}

/// Padded hexadecimal digits are as many as asked for, and each is a digit.
pub proof fn lemma_hex_padded(n: nat, width: nat)
    ensures
        hex_padded(n, width).len() == width,
        forall|i: int| 0 <= i < width ==> {
            let b = #[trigger] hex_padded(n, width)[i];
            48 <= b <= 57 || 97 <= b <= 102
        },
    decreases width,
{
    if width > 0 {
        lemma_hex_padded(n / 16, (width - 1) as nat);
    }
}

/// `base` to the power `exponent`.
pub open spec fn power(base: nat, exponent: nat) -> nat
    decreases exponent,
{
    if exponent == 0 {
        1
    } else {
        base * power(base, (exponent - 1) as nat)
    }
}

/// Numbers that fit in the width are told apart by their padded digits.
pub proof fn lemma_hex_padded_injective(m: nat, n: nat, width: nat)
    requires
        m < power(16, width),
        n < power(16, width),
        hex_padded(m, width) == hex_padded(n, width),
    ensures
        m == n,
    decreases width,
{
    if width > 0 {
        let rest = (width - 1) as nat;
        let a = hex_padded(m, width);
        let b = hex_padded(n, width);
        assert(a.drop_last() == hex_padded(m / 16, rest));
        assert(b.drop_last() == hex_padded(n / 16, rest));
        assert(a.last() == b.last());
        assert(m % 16 == n % 16);
        lemma_hex_padded_injective(m / 16, n / 16, rest);
    }
}

} // verus!
