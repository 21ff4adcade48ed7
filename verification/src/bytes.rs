use vstd::prelude::*;

verus! {

/// The number that a byte string denotes when read as a big-endian integer.
pub open spec fn be_nat(bytes: Seq<u8>) -> nat
    decreases bytes.len(),
{
    if bytes.len() == 0 {
        0
    } else {
        be_nat(bytes.drop_last()) * 256 + bytes.last() as nat
    }
}

/// Two byte strings that agree up to `at` and differ there are ordered, as
/// numbers, the way their bytes at `at` are ordered, whatever follows.
pub proof fn lemma_be_nat_first_difference(a: Seq<u8>, b: Seq<u8>, at: int, upto: int)
    requires
        0 <= at < upto <= a.len(),
        upto <= b.len(),
        a.subrange(0, at) == b.subrange(0, at),
        a[at] < b[at],
    ensures
        be_nat(a.subrange(0, upto)) < be_nat(b.subrange(0, upto)),
    decreases upto,
{
    let pa = a.subrange(0, upto);
    let pb = b.subrange(0, upto);
    assert(pa.drop_last() == a.subrange(0, upto - 1));
    assert(pb.drop_last() == b.subrange(0, upto - 1));
    if upto == at + 1 {
        assert(be_nat(pa.drop_last()) == be_nat(pb.drop_last()));
    } else {
        lemma_be_nat_first_difference(a, b, at, upto - 1);
    }
}

/// Two byte strings of one length that denote the same number are equal.
pub proof fn lemma_be_nat_injective(a: Seq<u8>, b: Seq<u8>)
    requires
        a.len() == b.len(),
        be_nat(a) == be_nat(b),
    ensures
        a == b,
    decreases a.len(),
{
    if a.len() > 0 {
        lemma_be_nat_injective(a.drop_last(), b.drop_last());
        assert(a == a.drop_last().push(a.last()));
        assert(b == b.drop_last().push(b.last()));
    } else {
        assert(a =~= b);
    }
}

/// The character of a decimal digit.
pub open spec fn decimal_digit(d: nat) -> char {
    seq!['0', '1', '2', '3', '4', '5', '6', '7', '8', '9'][d as int]
}

/// A number in decimal, without leading zeros; zero is "0".
pub open spec fn decimal_text(n: nat) -> Seq<char>
    decreases n,
{
    if n < 10 {
        seq![decimal_digit(n)]
    } else {
        decimal_text(n / 10).push(decimal_digit(n % 10))
    }
}

/// The value of a decimal digit; nothing for any other character.
pub open spec fn decimal_value(c: char) -> Option<nat> {
    if c == '0' {
        Some(0)
    } else if c == '1' {
        Some(1)
    } else if c == '2' {
        Some(2)
    } else if c == '3' {
        Some(3)
    } else if c == '4' {
        Some(4)
    } else if c == '5' {
        Some(5)
    } else if c == '6' {
        Some(6)
    } else if c == '7' {
        Some(7)
    } else if c == '8' {
        Some(8)
    } else if c == '9' {
        Some(9)
    } else {
        None
    }
}

/// Whether a text is made of decimal digits only.
pub open spec fn is_decimal(digits: Seq<char>) -> bool {
    forall|i: int| 0 <= i < digits.len() ==> decimal_value(#[trigger] digits[i]) is Some
}

/// The number that a text of decimal digits denotes; leading zeros count for
/// nothing.
pub open spec fn digits_value(digits: Seq<char>) -> nat
    decreases digits.len(),
{
    if digits.len() == 0 {
        0
    } else {
        digits_value(digits.drop_last()) * 10 + decimal_value(digits.last())->0
    }
}

/// A text without the plus sign that may stand before a number.
pub open spec fn without_plus_sign(text: Seq<char>) -> Seq<char> {
    if text.len() > 0 && text[0] == '+' {
        text.subrange(1, text.len() as int)
    } else {
        text
    }
}

/// The number that a text gives as a `u64`: the text is one or more decimal
/// digits, with or without a plus sign before them, and what they denote is
/// no more than the greatest `u64`. Any other text gives nothing.
pub open spec fn parsed_u64(text: Seq<char>) -> Option<u64> {
    let digits = without_plus_sign(text);
    if digits.len() > 0 && is_decimal(digits) && digits_value(digits) <= u64::MAX {
        Some(digits_value(digits) as u64)
    } else {
        None
    }
}

/// A decimal digit has the value that it is the digit of.
pub proof fn lemma_decimal_digit_value(d: nat)
    requires
        d < 10,
    ensures
        decimal_value(decimal_digit(d)) == Some(d),
        decimal_digit(d) != '+',
{
    if d == 0 {
    } else if d == 1 {
    } else if d == 2 {
    } else if d == 3 {
    } else if d == 4 {
    } else if d == 5 {
    } else if d == 6 {
    } else if d == 7 {
    } else if d == 8 {
    } else {
    }
}

/// A number in decimal is made of digits, begins with a digit, and denotes
/// the number.
pub proof fn lemma_decimal_text_value(n: nat)
    ensures
        decimal_text(n).len() > 0,
        is_decimal(decimal_text(n)),
        decimal_text(n)[0] != '+',
        digits_value(decimal_text(n)) == n,
    decreases n,
{
    let text = decimal_text(n);
    if n < 10 {
        lemma_decimal_digit_value(n);
        assert(text.drop_last() =~= Seq::<char>::empty());
        assert(digits_value(text.drop_last()) == 0);
    } else {
        lemma_decimal_text_value(n / 10);
        lemma_decimal_digit_value(n % 10);
        let head = decimal_text(n / 10);
        assert(text == head.push(decimal_digit(n % 10)));
        assert(text.drop_last() =~= head);
        assert(text[0] == head[0]);
        assert forall|i: int| 0 <= i < text.len() implies decimal_value(
            #[trigger] text[i],
        ) is Some by {
            if i < head.len() {
                assert(text[i] == head[i]);
            }
        }
    }
}

/// A `u64` written in decimal is read back as itself.
pub proof fn lemma_parse_u64_round_trip(n: u64)
    ensures
        parsed_u64(decimal_text(n as nat)) == Some(n),
{
    lemma_decimal_text_value(n as nat);
}

/// The value of a hexadecimal digit of either case; nothing for any other
/// character.
pub open spec fn hex_value(c: char) -> Option<nat> {
    if decimal_value(c) is Some {
        decimal_value(c)
    } else if c == 'a' || c == 'A' {
        Some(10)
    } else if c == 'b' || c == 'B' {
        Some(11)
    } else if c == 'c' || c == 'C' {
        Some(12)
    } else if c == 'd' || c == 'D' {
        Some(13)
    } else if c == 'e' || c == 'E' {
        Some(14)
    } else if c == 'f' || c == 'F' {
        Some(15)
    } else {
        None
    }
}

/// Whether a text is made of hexadecimal digits only.
pub open spec fn is_hex(digits: Seq<char>) -> bool {
    forall|i: int| 0 <= i < digits.len() ==> hex_value(#[trigger] digits[i]) is Some
}

/// The bytes that a text of hexadecimal digits denotes, two digits to the
/// byte.
pub open spec fn hex_bytes(digits: Seq<char>) -> Seq<u8> {
    Seq::new(
        digits.len() / 2,
        |i: int| (hex_value(digits[2 * i])->0 * 16 + hex_value(digits[2 * i + 1])->0) as u8,
    )
}

/// A text without the "0x" or "0X" that may stand before hexadecimal digits.
pub open spec fn without_hex_prefix(text: Seq<char>) -> Seq<char> {
    if text.len() >= 2 && text[0] == '0' && (text[1] == 'x' || text[1] == 'X') {
        text.subrange(2, text.len() as int)
    } else {
        text
    }
}

/// A character with the hexadecimal letters and the "X" of the prefix in
/// lower case.
pub open spec fn lower_hex_char(c: char) -> char {
    if c == 'A' {
        'a'
    } else if c == 'B' {
        'b'
    } else if c == 'C' {
        'c'
    } else if c == 'D' {
        'd'
    } else if c == 'E' {
        'e'
    } else if c == 'F' {
        'f'
    } else if c == 'X' {
        'x'
    } else {
        c
    }
}

/// A text of hexadecimal digits in lower case.
pub open spec fn lower_hex(text: Seq<char>) -> Seq<char> {
    Seq::new(text.len(), |i: int| lower_hex_char(text[i]))
}

/// A hexadecimal digit has the value that it is the digit of.
pub proof fn lemma_hex_digit_value(d: nat)
    requires
        d < 16,
    ensures
        hex_value(hex_digit(d)) == Some(d),
{
    if d < 10 {
        lemma_decimal_digit_value(d);
        assert(hex_digit(d) == decimal_digit(d));
    } else if d == 10 {
    } else if d == 11 {
    } else if d == 12 {
    } else if d == 13 {
    } else if d == 14 {
    } else {
    }
}

/// The hexadecimal text of a byte string has two digits to the byte, the
/// high half first.
pub proof fn lemma_hex_text_digits(bytes: Seq<u8>, i: int)
    requires
        0 <= i < bytes.len(),
    ensures
        hex_text(bytes).len() == 2 * bytes.len(),
        hex_text(bytes)[2 * i] == hex_digit(bytes[i] as nat / 16),
        hex_text(bytes)[2 * i + 1] == hex_digit(bytes[i] as nat % 16),
    decreases bytes.len(),
{
    lemma_hex_text_len(bytes);
    lemma_hex_text_len(bytes.drop_last());
    if i < bytes.len() - 1 {
        lemma_hex_text_digits(bytes.drop_last(), i);
    }
}

/// The hexadecimal text of a byte string has two digits to the byte.
pub proof fn lemma_hex_text_len(bytes: Seq<u8>)
    ensures
        hex_text(bytes).len() == 2 * bytes.len(),
    decreases bytes.len(),
{
    if bytes.len() > 0 {
        lemma_hex_text_len(bytes.drop_last());
    }
}

/// A byte string written in hexadecimal is read back as itself.
pub proof fn lemma_hex_round_trip(bytes: Seq<u8>)
    ensures
        is_hex(hex_text(bytes)),
        hex_bytes(hex_text(bytes)) == bytes,
{
    let text = hex_text(bytes);
    lemma_hex_text_len(bytes);
    assert forall|k: int| 0 <= k < text.len() implies hex_value(#[trigger] text[k]) is Some by {
        let i = k / 2;
        lemma_hex_text_digits(bytes, i);
        lemma_hex_digit_value(bytes[i] as nat / 16);
        lemma_hex_digit_value(bytes[i] as nat % 16);
        if k == 2 * i {
        } else {
            assert(k == 2 * i + 1);
        }
    }
    assert forall|i: int| 0 <= i < bytes.len() implies #[trigger] hex_bytes(text)[i]
        == bytes[i] by {
        lemma_hex_text_digits(bytes, i);
        lemma_hex_digit_value(bytes[i] as nat / 16);
        lemma_hex_digit_value(bytes[i] as nat % 16);
    }
    assert(hex_bytes(text) =~= bytes);
}

/// The case of its letters does not change what a hexadecimal text denotes.
pub proof fn lemma_hex_ignores_case(text: Seq<char>)
    ensures
        without_hex_prefix(lower_hex(text)) == lower_hex(without_hex_prefix(text)),
        is_hex(lower_hex(text)) == is_hex(text),
        hex_bytes(lower_hex(text)) == hex_bytes(text),
{
    let low = lower_hex(text);
    assert(without_hex_prefix(low) =~= lower_hex(without_hex_prefix(text)));
    assert forall|i: int| 0 <= i < text.len() implies hex_value(#[trigger] low[i]) == hex_value(
        text[i],
    ) by {}
    if is_hex(text) {
        assert forall|i: int| 0 <= i < low.len() implies hex_value(#[trigger] low[i]) is Some by {
            assert(hex_value(text[i]) is Some);
        }
    }
    if is_hex(low) {
        assert forall|i: int| 0 <= i < text.len() implies hex_value(#[trigger] text[i]) is Some by {
            assert(hex_value(low[i]) is Some);
        }
    }
    assert(hex_bytes(low) =~= hex_bytes(text));
}

/// `str::parse::<u64>` of std, which takes an optional plus sign and then
/// decimal digits only, and fails on the empty text, on any other character
/// and on a number too great for a `u64`.
#[verifier::external_body]
pub(crate) fn parse_u64(text: &str) -> (r: Option<u64>)
    ensures
        r == parsed_u64(text@),
{
    text.parse::<u64>().ok()
}

/// `to_string` of std on a `u64`: the number in decimal.
#[verifier::external_body]
pub(crate) fn u64_to_decimal(n: u64) -> (s: String)
    ensures
        s@ == decimal_text(n as nat),
{
    n.to_string()
}

/// The character of a hexadecimal digit, in lower case.
pub open spec fn hex_digit(d: nat) -> char {
    seq!['0', '1', '2', '3', '4', '5', '6', '7', '8', '9', 'a', 'b', 'c', 'd', 'e', 'f'][d as int]
}

/// A byte string in lower-case hexadecimal, two digits to the byte.
pub open spec fn hex_text(bytes: Seq<u8>) -> Seq<char>
    decreases bytes.len(),
{
    if bytes.len() == 0 {
        Seq::empty()
    } else {
        hex_text(bytes.drop_last()).push(hex_digit(bytes.last() as nat / 16)).push(
            hex_digit(bytes.last() as nat % 16),
        )
    }
}

} // verus!
