//! Text encodings used in labels, call payloads and columns: decimal numbers,
//! `0x`-prefixed hexadecimal, and UTF-8.

use vstd::prelude::*;

verus! {

/// The digit that stands for `v` in base 16, in lower case.
pub open spec fn hex_digit(v: int) -> char {
    if v == 0 {
        '0'
    } else if v == 1 {
        '1'
    } else if v == 2 {
        '2'
    } else if v == 3 {
        '3'
    } else if v == 4 {
        '4'
    } else if v == 5 {
        '5'
    } else if v == 6 {
        '6'
    } else if v == 7 {
        '7'
    } else if v == 8 {
        '8'
    } else if v == 9 {
        '9'
    } else if v == 10 {
        'a'
    } else if v == 11 {
        'b'
    } else if v == 12 {
        'c'
    } else if v == 13 {
        'd'
    } else if v == 14 {
        'e'
    } else {
        'f'
    }
}

/// The value of a base-16 digit, in either case; `None` for any other character.
pub open spec fn hex_value(c: char) -> Option<int> {
    if '0' <= c <= '9' {
        Some(c as int - '0' as int)
    } else if 'a' <= c <= 'f' {
        Some(c as int - 'a' as int + 10)
    } else if 'A' <= c <= 'F' {
        Some(c as int - 'A' as int + 10)
    } else {
        None
    }
}

/// `0x` followed by two lower-case digits for each byte, high digit first.
pub open spec fn hex_text(bytes: Seq<u8>) -> Seq<char> {
    seq!['0', 'x'] + Seq::new(
        2 * bytes.len(),
        |i: int|
            hex_digit(
                if i % 2 == 0 {
                    bytes[i / 2] as int / 16
                } else {
                    bytes[i / 2] as int % 16
                },
            ),
    )
}

/// Whether `text` is `0x` followed by an even number of base-16 digits.
pub open spec fn is_hex_text(text: Seq<char>) -> bool {
    &&& text.len() >= 2
    &&& text[0] == '0'
    &&& text[1] == 'x'
    &&& text.len() % 2 == 0
    &&& forall|i: int| 2 <= i < text.len() ==> hex_value(#[trigger] text[i]) is Some
}

/// The bytes that a text of the form `is_hex_text` stands for.
pub open spec fn hex_bytes(text: Seq<char>) -> Seq<u8> {
    Seq::new(
        ((text.len() - 2) / 2) as nat,
        |i: int| (16 * hex_value(text[2 + 2 * i])->0 + hex_value(text[3 + 2 * i])->0) as u8,
    )
}

/// `prefix_hex::Error`: why a text could not be decoded. Nothing is said of
/// what it holds.
#[verifier::external_type_specification]
#[verifier::external_body]
pub struct ExHexError(prefix_hex::Error);

/// `prefix_hex::decode` into a byte vector. It succeeds exactly on `0x`
/// followed by an even number of base-16 digits of either case, and then
/// yields one byte for each pair of digits, the first digit of a pair being
/// the high half of the byte.
///
/// The text must hold two characters at least: to report a wrong prefix the
/// decoder takes the first two characters of any text of two bytes or more,
/// and does not return where such a text holds a single character.
#[verifier::external_body]
pub(crate) fn decode_hex(text: &str) -> (r: Result<Vec<u8>, prefix_hex::Error>)
    requires
        text@.len() >= 2,
    ensures
        r is Ok <==> is_hex_text(text@),
        r matches Ok(bytes) ==> bytes@ == hex_bytes(text@),
{
    prefix_hex::decode(text)
}

/// `prefix_hex::encode` of a byte vector: `0x`, then two lower-case base-16
/// digits for each byte in order, the high half of the byte first.
#[verifier::external_body]
pub(crate) fn encode_hex(bytes: &Vec<u8>) -> (text: String)
    ensures
        text@ == hex_text(bytes@),
{
    prefix_hex::encode(bytes)
}

/// `std::string::FromUtf8Error`: why bytes are not UTF-8. Nothing is said
/// of what it holds.
#[verifier::external_type_specification]
#[verifier::external_body]
pub struct ExFromUtf8Error(std::string::FromUtf8Error);

/// `String::from_utf8` succeeds exactly on well-formed UTF-8, and the string
/// then holds the characters that the bytes encode.
pub assume_specification[ String::from_utf8 ](bytes: Vec<u8>) -> (r: Result<
    String,
    std::string::FromUtf8Error,
>)
    ensures
        r is Ok <==> vstd::utf8::valid_utf8(bytes@),
        r matches Ok(text) ==> text@ == vstd::utf8::decode_utf8(bytes@),
;

/// The text that `bytes` encode in UTF-8, if they encode any.
pub open spec fn utf8_text(bytes: Seq<u8>) -> Option<Seq<char>> {
    if vstd::utf8::valid_utf8(bytes) {
        Some(vstd::utf8::decode_utf8(bytes))
    } else {
        None
    }
}

/// Reads `bytes` as UTF-8 text. Bytes that are not well-formed UTF-8 give
/// `None`: an undecodable value is a missing value, not a failure.
pub fn decode_text(bytes: Vec<u8>) -> (text: Option<String>)
    ensures
        text is Some <==> utf8_text(bytes@) is Some,
        text matches Some(t) ==> Some(t@) == utf8_text(bytes@),
{
    String::from_utf8(bytes).ok()
}

/// The character of a decimal digit.
pub open spec fn decimal_digit(v: int) -> char {
    if v == 0 {
        '0'
    } else if v == 1 {
        '1'
    } else if v == 2 {
        '2'
    } else if v == 3 {
        '3'
    } else if v == 4 {
        '4'
    } else if v == 5 {
        '5'
    } else if v == 6 {
        '6'
    } else if v == 7 {
        '7'
    } else if v == 8 {
        '8'
    } else {
        '9'
    }
}

/// Whether `c` is one of the ten decimal digits.
pub open spec fn is_decimal_digit(c: char) -> bool {
    '0' <= c <= '9'
}

/// `n` in base 10, without sign, padding or leading zeros.
pub open spec fn decimal(n: nat) -> Seq<char>
    decreases n,
{
    if n < 10 {
        seq![decimal_digit(n as int)]
    } else {
        decimal(n / 10).push(decimal_digit((n % 10) as int))
    }
}

fn digit_str(v: u64) -> (s: &'static str)
    requires
        v < 10,
    ensures
        s@ == seq![decimal_digit(v as int)],
{
    proof {
        reveal_strlit("0");
        reveal_strlit("1");
        reveal_strlit("2");
        reveal_strlit("3");
        reveal_strlit("4");
        reveal_strlit("5");
        reveal_strlit("6");
        reveal_strlit("7");
        reveal_strlit("8");
        reveal_strlit("9");
    }
    let s = if v == 0 {
        "0"
    } else if v == 1 {
        "1"
    } else if v == 2 {
        "2"
    } else if v == 3 {
        "3"
    } else if v == 4 {
        "4"
    } else if v == 5 {
        "5"
    } else if v == 6 {
        "6"
    } else if v == 7 {
        "7"
    } else if v == 8 {
        "8"
    } else {
        "9"
    };
    assert(s@ =~= seq![decimal_digit(v as int)]);
    s
}

/// Writes `n` in base 10.
pub fn decimal_text(n: u64) -> (text: String)
    ensures
        text@ == decimal(n as nat),
    decreases n,
{
    if n < 10 {
        String::from_str(digit_str(n))
    } else {
        let mut text = decimal_text(n / 10);
        text.append(digit_str(n % 10));
        assert(text@ =~= decimal(n as nat));
        text
    }
}

/// A decimal number has at least one character, and all of them are digits.
pub proof fn lemma_decimal_digits(n: nat)
    ensures
        decimal(n).len() >= 1,
        forall|i: int| 0 <= i < decimal(n).len() ==> is_decimal_digit(#[trigger] decimal(n)[i]),
    decreases n,
{
    if n >= 10 {
        lemma_decimal_digits(n / 10);
    }
}

/// Different numbers are written differently.
pub proof fn lemma_decimal_injective(a: nat, b: nat)
    requires
        decimal(a) == decimal(b),
    ensures
        a == b,
    decreases a,
{
    lemma_decimal_digits(a / 10);
    lemma_decimal_digits(b / 10);
    if a < 10 && b < 10 {
        assert(decimal(a)[0] == decimal_digit(a as int));
        assert(decimal(b)[0] == decimal_digit(b as int));
    } else if a >= 10 && b >= 10 {
        let x = decimal(a / 10);
        let y = decimal(b / 10);
        let da = decimal_digit((a % 10) as int);
        let db = decimal_digit((b % 10) as int);
        assert(x.push(da).drop_last() =~= x);
        assert(y.push(db).drop_last() =~= y);
        assert(x.push(da).last() == da);
        assert(y.push(db).last() == db);
        lemma_decimal_injective(a / 10, b / 10);
        assert(da == db);
        assert(a % 10 == b % 10);
        assert(a == 10 * (a / 10) + a % 10);
        assert(b == 10 * (b / 10) + b % 10);
    } else {
        assert(decimal(a).len() != decimal(b).len());
    }
}

/// No character of a hexadecimal text is `_`.
pub proof fn lemma_hex_text_chars(bytes: Seq<u8>)
    ensures
        hex_text(bytes).len() == 2 + 2 * bytes.len(),
        hex_text(bytes)[0] == '0',
        forall|i: int| 0 <= i < hex_text(bytes).len() ==> #[trigger] hex_text(bytes)[i] != '_',
{
}

/// Whether `c` is a decimal digit, a lower-case letter or `_`.
pub open spec fn is_plain_char(c: char) -> bool {
    ('0' <= c <= '9') || ('a' <= c <= 'z') || c == '_'
}

/// Whether `text` is made of decimal digits, lower-case letters and `_`.
pub open spec fn is_plain(text: Seq<char>) -> bool {
    forall|i: int| 0 <= i < text.len() ==> is_plain_char(#[trigger] text[i])
}

/// Plain texts put together give a plain text.
pub proof fn lemma_plain_concat(first: Seq<char>, second: Seq<char>)
    requires
        is_plain(first),
        is_plain(second),
    ensures
        is_plain(first + second),
{
    assert forall|i: int| 0 <= i < (first + second).len() implies is_plain_char(
        #[trigger] (first + second)[i],
    ) by {
        if i < first.len() {
            assert((first + second)[i] == first[i]);
        } else {
            assert((first + second)[i] == second[i - first.len()]);
        }
    }
}

/// A decimal number is a plain text.
pub proof fn lemma_decimal_plain(n: nat)
    ensures
        is_plain(decimal(n)),
{
    lemma_decimal_digits(n);
}

/// A hexadecimal text is a plain text.
pub proof fn lemma_hex_text_plain(bytes: Seq<u8>)
    ensures
        is_plain(hex_text(bytes)),
{
}

/// Different byte strings are written differently.
pub proof fn lemma_hex_text_injective(a: Seq<u8>, b: Seq<u8>)
    requires
        hex_text(a) == hex_text(b),
    ensures
        a == b,
{
    lemma_hex_text_chars(a);
    lemma_hex_text_chars(b);
    assert(a.len() == b.len());
    assert forall|i: int| 0 <= i < a.len() implies a[i] == b[i] by {
        let high = 2 + 2 * i;
        let low = 3 + 2 * i;
        assert(hex_text(a)[high] == hex_digit(a[i] as int / 16)) by {
            assert((2 * i) % 2 == 0 && (2 * i) / 2 == i);
        }
        assert(hex_text(b)[high] == hex_digit(b[i] as int / 16)) by {
            assert((2 * i) % 2 == 0 && (2 * i) / 2 == i);
        }
        assert(hex_text(a)[low] == hex_digit(a[i] as int % 16)) by {
            assert((2 * i + 1) % 2 == 1 && (2 * i + 1) / 2 == i);
        }
        assert(hex_text(b)[low] == hex_digit(b[i] as int % 16)) by {
            assert((2 * i + 1) % 2 == 1 && (2 * i + 1) / 2 == i);
        }
        assert(a[i] as int / 16 == b[i] as int / 16);
        assert(a[i] as int % 16 == b[i] as int % 16);
    }
    assert(a =~= b);
}

/// A text that starts with a run of characters of one class can be split in
/// one way only into the run and what follows it, if what follows is empty or
/// starts with a character outside the class.
pub proof fn lemma_split_unique(
    run1: Seq<char>,
    rest1: Seq<char>,
    run2: Seq<char>,
    rest2: Seq<char>,
    class: spec_fn(char) -> bool,
)
    requires
        run1 + rest1 == run2 + rest2,
        forall|i: int| 0 <= i < run1.len() ==> class(#[trigger] run1[i]),
        forall|i: int| 0 <= i < run2.len() ==> class(#[trigger] run2[i]),
        rest1.len() > 0 ==> !class(rest1[0]),
        rest2.len() > 0 ==> !class(rest2[0]),
    ensures
        run1 == run2,
        rest1 == rest2,
{
    let whole = run1 + rest1;
    assert(whole.len() == run1.len() + rest1.len());
    assert(whole.len() == run2.len() + rest2.len());
    if run1.len() < run2.len() {
        assert(whole[run1.len() as int] == rest1[0]);
        assert((run2 + rest2)[run1.len() as int] == run2[run1.len() as int]);
        assert(false);
    }
    if run2.len() < run1.len() {
        assert((run2 + rest2)[run2.len() as int] == rest2[0]);
        assert(whole[run2.len() as int] == run1[run2.len() as int]);
        assert(false);
    }
    assert forall|i: int| 0 <= i < run1.len() implies run1[i] == run2[i] by {
        assert(whole[i] == run1[i]);
        assert((run2 + rest2)[i] == run2[i]);
    }
    assert(run1 =~= run2);
    assert forall|i: int| 0 <= i < rest1.len() implies rest1[i] == rest2[i] by {
        assert(whole[run1.len() + i] == rest1[i]);
        assert((run2 + rest2)[run2.len() + i] == rest2[i]);
    }
    assert(rest1 =~= rest2);
}

} // verus!
