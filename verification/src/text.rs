//! Directive arguments as text: UTF-8, decimal numbers, ASCII case and hex.
//!
//! NGINX hands a directive's argument over as bytes. Numbers and keywords need
//! valid UTF-8; free text is taken as it is displayed, with every byte that is
//! no part of a UTF-8 encoded character written as `\xNN`.
use crate::verify::decimal_text;
use vstd::prelude::*;
use vstd::utf8::*;

verus! {

/// The lower-case hex digit of a number below sixteen.
pub open spec fn hex_char(n: int) -> char
    recommends
        0 <= n < 16,
{
    if n < 10 {
        ('0' as int + n) as char
    } else {
        ('a' as int + n - 10) as char
    }
}

/// How a byte that belongs to no character is written out: `\x` and two hex
/// digits.
pub open spec fn escaped(byte: u8) -> Seq<char> {
    seq!['\\', 'x', hex_char(byte as int / 16), hex_char(byte as int % 16)]
}

/// Bytes as text: the characters they encode, with a byte that starts no
/// UTF-8 encoded character escaped.
pub open spec fn displayed(bytes: Seq<u8>) -> Seq<char>
    decreases bytes.len(),
{
    if bytes.len() == 0 {
        seq![]
    } else if valid_first_scalar(bytes) {
        seq![decode_first_scalar(bytes) as char] + displayed(pop_first_scalar(bytes))
    } else {
        escaped(bytes[0]) + displayed(bytes.drop_first())
    }
}

/// Bytes read as UTF-8, where they are UTF-8.
pub open spec fn utf8_decoded(bytes: Seq<u8>) -> Option<Seq<char>> {
    if valid_utf8(bytes) {
        Some(decode_utf8(bytes))
    } else {
        None
    }
}

/// Whether a character is a decimal digit.
pub open spec fn is_digit(c: char) -> bool {
    '0' <= c <= '9'
}

/// Whether every character is a decimal digit.
pub open spec fn all_digits(s: Seq<char>) -> bool {
    forall|i: int| 0 <= i < s.len() ==> is_digit(#[trigger] s[i])
}

/// The number that a string of decimal digits denotes.
pub open spec fn decimal_value(s: Seq<char>) -> nat
    decreases s.len(),
{
    if s.len() == 0 {
        0
    } else {
        decimal_value(s.drop_last()) * 10 + (s.last() as int - '0' as int) as nat
    }
}

/// The number that a text denotes: decimal digits, at least one, behind an
/// optional plus sign. Any other text denotes none.
pub open spec fn unsigned_value(s: Seq<char>) -> Option<nat> {
    let digits = if s.len() > 0 && s[0] == '+' {
        s.drop_first()
    } else {
        s
    };
    if digits.len() > 0 && all_digits(digits) {
        Some(decimal_value(digits))
    } else {
        None
    }
}

/// An ASCII capital as its small letter; any other character as it is.
pub open spec fn ascii_lower(c: char) -> char {
    if 'A' <= c <= 'Z' {
        (c as int + 32) as char
    } else {
        c
    }
}

/// A text with its ASCII capitals made small.
pub open spec fn ascii_lowercase(s: Seq<char>) -> Seq<char> {
    s.map_values(|c: char| ascii_lower(c))
}

/// Whether a character is a hex digit of either case.
pub open spec fn is_hex_digit(c: char) -> bool {
    '0' <= c <= '9' || 'a' <= c <= 'f' || 'A' <= c <= 'F'
}

/// Whether a text is hex: at least one character, and hex digits only.
pub open spec fn is_hex(s: Seq<char>) -> bool {
    s.len() > 0 && forall|i: int| 0 <= i < s.len() ==> is_hex_digit(#[trigger] s[i])
}

/// `std::str::from_utf8`: the text that the bytes encode if they are valid
/// UTF-8, and an error, here `None`, if they are not.
#[verifier::external_body]
pub(crate) fn utf8_text(bytes: &[u8]) -> (r: Option<&str>)
    ensures
        r is Some <==> valid_utf8(bytes@),
        r matches Some(s) ==> s@ == decode_utf8(bytes@),
{
    match std::str::from_utf8(bytes) {
        Ok(s) => Some(s),
        Err(_) => None,
    }
}

/// What makes up the first character depends on the bytes that encode it and
/// on nothing behind them.
proof fn lemma_first_scalar_prefix(bytes: Seq<u8>, k: int)
    requires
        0 < k <= bytes.len(),
        valid_first_scalar(bytes.take(k)),
    ensures
        valid_first_scalar(bytes),
        length_of_first_scalar(bytes) == length_of_first_scalar(bytes.take(k)),
        decode_first_scalar(bytes) == decode_first_scalar(bytes.take(k)),
{
    let t = bytes.take(k);
    assert forall|i: int| 0 <= i < k implies t[i] == bytes[i] by {}
}

/// The bytes that encode the first character are, on their own, valid UTF-8,
/// and encode that character.
proof fn lemma_first_scalar_alone(bytes: Seq<u8>)
    requires
        valid_first_scalar(bytes),
    ensures
        1 <= length_of_first_scalar(bytes) <= 4,
        length_of_first_scalar(bytes) <= bytes.len(),
        valid_utf8(bytes.take(length_of_first_scalar(bytes))),
        decode_utf8(bytes.take(length_of_first_scalar(bytes))) == seq![
            decode_first_scalar(bytes) as char,
        ],
{
    let n = length_of_first_scalar(bytes);
    let t = bytes.take(n);
    assert forall|i: int| 0 <= i < n implies t[i] == bytes[i] by {}
    assert(valid_first_scalar(t));
    assert(pop_first_scalar(t) =~= Seq::<u8>::empty());
    assert(valid_utf8(Seq::<u8>::empty()));
    assert(valid_utf8(t));
    assert(decode_utf8(pop_first_scalar(t)) =~= Seq::<char>::empty());
    assert(decode_utf8(t) =~= seq![decode_first_scalar(bytes) as char]);
}

/// How many bytes encode the character that starts at `at`, or zero if none
/// starts there.
fn scalar_len_at(bytes: &[u8], at: usize) -> (n: usize)
    requires
        at < bytes@.len(),
    ensures
        n > 0 <==> valid_first_scalar(bytes@.skip(at as int)),
        n > 0 ==> n == length_of_first_scalar(bytes@.skip(at as int)),
{
    let ghost rest = bytes@.skip(at as int);
    let mut k: usize = 1;
    while k <= 4 && k <= bytes.len() - at
        invariant
            1 <= k <= 5,
            at < bytes@.len(),
            k <= bytes@.len() - at + 1,
            rest == bytes@.skip(at as int),
            forall|j: int| 1 <= j < k ==> !valid_utf8(#[trigger] rest.take(j)),
        decreases 5 - k,
    {
        let chunk = vstd::slice::slice_subrange(bytes, at, at + k);
        assert(chunk@ =~= rest.take(k as int));
        if utf8_text(chunk).is_some() {
            proof {
                let t = rest.take(k as int);
                lemma_first_scalar_alone(t);
                let n = length_of_first_scalar(t);
                assert(t.take(n) =~= rest.take(n));
                lemma_first_scalar_prefix(rest, k as int);
            }
            return k;
        }
        k = k + 1;
    }
    proof {
        if valid_first_scalar(rest) {
            lemma_first_scalar_alone(rest);
        }
    }
    0
}

/// The lower-case hex digit of a number below sixteen, as text.
fn hex_digit(n: u8) -> (s: &'static str)
    requires
        n < 16,
    ensures
        s@ == seq![hex_char(n as int)],
{
    proof {
        reveal_strlit("0");
        reveal_strlit("1");
        reveal_strlit("2");
        reveal_strlit("3");
        reveal_strlit("4");
        reveal_strlit("5");
        reveal_strlit("6");
        reveal_strlit("7");
        reveal_strlit("8");
        reveal_strlit("9");
        reveal_strlit("a");
        reveal_strlit("b");
        reveal_strlit("c");
        reveal_strlit("d");
        reveal_strlit("e");
        reveal_strlit("f");
    }
    match n {
        0 => "0",
        1 => "1",
        2 => "2",
        3 => "3",
        4 => "4",
        5 => "5",
        6 => "6",
        7 => "7",
        8 => "8",
        9 => "9",
        10 => "a",
        11 => "b",
        12 => "c",
        13 => "d",
        14 => "e",
        _ => "f",
    }
}

/// Bytes as text, with every byte that starts no UTF-8 encoded character
/// written as `\xNN`.
pub fn display_bytes(bytes: &[u8]) -> (text: String)
    ensures
        text@ == displayed(bytes@),
{
    let mut text = String::new();
    let mut at: usize = 0;
    assert(bytes@.skip(0) =~= bytes@);
    assert(Seq::<char>::empty() + displayed(bytes@) =~= displayed(bytes@));
    while at < bytes.len()
        invariant
            at <= bytes@.len(),
            text@ + displayed(bytes@.skip(at as int)) == displayed(bytes@),
        decreases bytes@.len() - at,
    {
        let ghost rest = bytes@.skip(at as int);
        let ghost before = text@;
        let n = scalar_len_at(bytes, at);
        if n > 0 {
            let chunk = vstd::slice::slice_subrange(bytes, at, at + n);
            assert(chunk@ =~= rest.take(n as int));
            proof {
                lemma_first_scalar_alone(rest);
            }
            if let Some(s) = utf8_text(chunk) {
                text.append(s);
            }
            proof {
                assert(pop_first_scalar(rest) =~= bytes@.skip(at + n));
                assert(text@ + displayed(bytes@.skip(at + n)) =~= before + displayed(rest));
            }
            at = at + n;
        } else {
            let b = bytes[at];
            proof {
                reveal_strlit("\\x");
            }
            text.append("\\x");
            text.append(hex_digit(b / 16));
            text.append(hex_digit(b % 16));
            proof {
                assert(rest[0] == b);
                assert(rest.drop_first() =~= bytes@.skip(at + 1));
                assert(text@ =~= before + escaped(b));
                assert(text@ + displayed(bytes@.skip(at + 1)) =~= before + displayed(rest));
            }
            at = at + 1;
        }
    }
    assert(bytes@.skip(at as int) =~= Seq::<u8>::empty());
    assert(text@ + Seq::<char>::empty() =~= text@);
    text
}

/// Valid UTF-8 is displayed as the text it encodes: nothing in it is escaped.
pub proof fn displayed_utf8_is_its_text(bytes: Seq<u8>)
    requires
        valid_utf8(bytes),
    ensures
        displayed(bytes) == decode_utf8(bytes),
    decreases bytes.len(),
{
    if bytes.len() > 0 {
        displayed_utf8_is_its_text(pop_first_scalar(bytes));
        assert(displayed(bytes) =~= decode_utf8(bytes));
    } else {
        assert(displayed(bytes) =~= decode_utf8(bytes));
    }
}

/// More digits never make a smaller number.
proof fn lemma_decimal_value_grows(s: Seq<char>, k: int)
    requires
        0 <= k <= s.len(),
        all_digits(s),
    ensures
        decimal_value(s.take(k)) <= decimal_value(s),
    decreases s.len() - k,
{
    if k < s.len() {
        let t = s.take(k + 1);
        assert(t.drop_last() =~= s.take(k));
        lemma_decimal_value_grows(s, k + 1);
        assert(is_digit(t.last()));
    } else {
        assert(s.take(k) =~= s);
    }
}

/// The number that a text denotes, if it denotes one that fits.
pub fn parse_unsigned(s: &str) -> (r: Option<u64>)
    ensures
        r == (match unsigned_value(s@) {
            Some(n) if n <= u64::MAX => Some(n as u64),
            _ => None::<u64>,
        }),
{
    broadcast use vstd::string::is_ascii_spec_bytes;

    if !s.is_ascii() {
        proof {
            let i = choose|i: int| 0 <= i < s@.len() && !('\0' <= #[trigger] s@[i] <= '\u{7f}');
            assert(!is_digit(s@[i]) && s@[i] != '+');
            if s@.len() > 0 && s@[0] == '+' {
                assert(s@.drop_first()[i - 1] == s@[i]);
            }
        }
        return None;
    }
    let b = s.as_bytes();
    let n = b.len();
    let mut i: usize = 0;
    if n > 0 && b[0] == 43 {
        i = 1;
    }
    let start = i;
    let ghost digits = s@.skip(start as int);
    proof {
        assert(s@.len() == n);
        if start == 1 {
            assert(s@[0] == '+');
            assert(digits =~= s@.drop_first());
        } else {
            assert(digits =~= s@);
        }
    }
    if i == n {
        return None;
    }
    let mut value: u64 = 0;
    assert(digits.take(0) =~= Seq::<char>::empty());
    while i < n
        invariant
            start <= i <= n,
            n == b@.len(),
            s@.len() == n,
            b@ == Seq::new(s@.len(), |k: int| s@[k] as u8),
            forall|k: int| 0 <= k < s@.len() ==> '\0' <= #[trigger] s@[k] <= '\u{7f}',
            digits == s@.skip(start as int),
            digits.len() > 0,
            unsigned_value(s@) == (if all_digits(digits) {
                Some(decimal_value(digits))
            } else {
                None
            }),
            forall|k: int| 0 <= k < i - start ==> is_digit(#[trigger] digits[k]),
            value == decimal_value(digits.take(i - start)),
        decreases n - i,
    {
        let c = b[i];
        assert(s@[i as int] == digits[i - start]);
        assert(c == s@[i as int] as u8);
        if c < 48 || c > 57 {
            assert(!is_digit(digits[i - start]));
            return None;
        }
        let d: u64 = (c - 48) as u64;
        proof {
            let t = digits.take(i - start + 1);
            assert(t.drop_last() =~= digits.take(i - start));
            assert(decimal_value(t) == value * 10 + d);
            if all_digits(digits) {
                lemma_decimal_value_grows(digits, i - start + 1);
            }
        }
        if value > (u64::MAX - d) / 10 {
            return None;
        }
        value = value * 10 + d;
        i = i + 1;
    }
    assert(digits.take(n - start) =~= digits);
    Some(value)
}

/// Whether a text, with its ASCII capitals made small, is the given ASCII
/// word.
pub fn is_word(s: &str, word: &str) -> (r: bool)
    requires
        word.is_ascii(),
    ensures
        r == (ascii_lowercase(s@) == word@),
{
    broadcast use vstd::string::is_ascii_spec_bytes;

    if !s.is_ascii() {
        proof {
            let i = choose|i: int| 0 <= i < s@.len() && !('\0' <= #[trigger] s@[i] <= '\u{7f}');
            if ascii_lowercase(s@) == word@ {
                assert(ascii_lowercase(s@)[i] == s@[i]);
                assert('\0' <= word@[i] <= '\u{7f}');
            }
        }
        return false;
    }
    let b = s.as_bytes();
    let w = word.as_bytes();
    if b.len() != w.len() {
        assert(ascii_lowercase(s@).len() == s@.len());
        return false;
    }
    let n = b.len();
    for i in 0..n
        invariant
            n == b@.len(),
            n == w@.len(),
            s@.len() == n,
            word@.len() == n,
            b@ == Seq::new(s@.len(), |k: int| s@[k] as u8),
            w@ == Seq::new(word@.len(), |k: int| word@[k] as u8),
            forall|k: int| 0 <= k < s@.len() ==> '\0' <= #[trigger] s@[k] <= '\u{7f}',
            forall|k: int| 0 <= k < word@.len() ==> '\0' <= #[trigger] word@[k] <= '\u{7f}',
            forall|k: int| 0 <= k < i ==> ascii_lower(#[trigger] s@[k]) == word@[k],
    {
        let c = b[i];
        let lower: u8 = if c >= 65 && c <= 90 {
            c + 32
        } else {
            c
        };
        assert(c == s@[i as int] as u8);
        assert(w@[i as int] == word@[i as int] as u8);
        if lower != w[i] {
            assert(ascii_lowercase(s@)[i as int] == ascii_lower(s@[i as int]));
            return false;
        }
    }
    assert(ascii_lowercase(s@) =~= word@);
    true
}

/// Whether a text is hex: at least one character, and hex digits only.
pub fn is_hex_text(s: &str) -> (r: bool)
    ensures
        r == is_hex(s@),
{
    broadcast use vstd::string::is_ascii_spec_bytes;

    if !s.is_ascii() {
        proof {
            let i = choose|i: int| 0 <= i < s@.len() && !('\0' <= #[trigger] s@[i] <= '\u{7f}');
            assert(!is_hex_digit(s@[i]));
        }
        return false;
    }
    let b = s.as_bytes();
    let n = b.len();
    for i in 0..n
        invariant
            n == b@.len(),
            s@.len() == n,
            b@ == Seq::new(s@.len(), |k: int| s@[k] as u8),
            forall|k: int| 0 <= k < s@.len() ==> '\0' <= #[trigger] s@[k] <= '\u{7f}',
            forall|k: int| 0 <= k < i ==> is_hex_digit(#[trigger] s@[k]),
    {
        let c = b[i];
        assert(c == s@[i as int] as u8);
        if !((c >= 48 && c <= 57) || (c >= 97 && c <= 102) || (c >= 65 && c <= 70)) {
            assert(!is_hex_digit(s@[i as int]));
            return false;
        }
    }
    n > 0
}

/// A hex digit is the one that stands at its number among the sixteen.
pub proof fn hex_digit_stands_at_its_number(n: int)
    requires
        0 <= n < 16,
    ensures
        hex_char(n) == "0123456789abcdef"@[n],
{
    reveal_strlit("0123456789abcdef");
}

/// A byte that starts no character is displayed as a backslash, an `x` and its
/// two hex digits, the high one first, and what follows it as it would be alone.
pub proof fn stray_byte_is_displayed_in_hex(bytes: Seq<u8>)
    requires
        bytes.len() > 0,
        !valid_first_scalar(bytes),
    ensures
        displayed(bytes) == "\\x"@ + seq![
            "0123456789abcdef"@[bytes[0] as int / 16],
            "0123456789abcdef"@[bytes[0] as int % 16],
        ] + displayed(bytes.skip(1)),
{
    reveal_strlit("\\x");
    hex_digit_stands_at_its_number(bytes[0] as int / 16);
    hex_digit_stands_at_its_number(bytes[0] as int % 16);
    assert(bytes.drop_first() =~= bytes.skip(1));
    assert(escaped(bytes[0]) =~= "\\x"@ + seq![
        "0123456789abcdef"@[bytes[0] as int / 16],
        "0123456789abcdef"@[bytes[0] as int % 16],
    ]);
}

/// Valid UTF-8 in front of other bytes is displayed as its text, in front of how
/// those would be displayed alone.
pub proof fn text_is_displayed_in_front(text: Seq<char>, rest: Seq<u8>)
    ensures
        displayed(encode_utf8(text) + rest) == text + displayed(rest),
    decreases text.len(),
{
    let bytes = encode_utf8(text);
    if text.len() == 0 {
        assert(bytes + rest =~= rest);
        assert(text + displayed(rest) =~= displayed(rest));
    } else {
        encode_utf8_valid_utf8(text);
        encode_utf8_decode_utf8(text);
        encode_utf8_first_scalar(text);
        let n = length_of_first_scalar(bytes);
        lemma_first_scalar_alone(bytes);
        let all = bytes + rest;
        assert(all.take(bytes.len() as int) =~= bytes);
        lemma_first_scalar_prefix(all, bytes.len() as int);
        let tail = pop_first_scalar(bytes);
        encode_utf8_valid_utf8(text.drop_first());
        encode_utf8_decode_utf8(text.drop_first());
        assert(decode_utf8(tail) =~= text.drop_first());
        decode_utf8_encode_utf8(tail);
        assert(tail == encode_utf8(text.drop_first()));
        assert(pop_first_scalar(all) =~= tail + rest);
        text_is_displayed_in_front(text.drop_first(), rest);
        assert(decode_first_scalar(all) as char == text[0]) by {
            char_u32_cast(text[0], text[0] as u32);
        }
        assert(displayed(all) =~= text + displayed(rest));
    }
}

/// Reading as UTF-8 undoes writing as UTF-8, and reads nothing else.
pub proof fn utf8_is_read_back(bytes: Seq<u8>, text: Seq<char>)
    ensures
        utf8_decoded(bytes) == Some(text) <==> bytes == encode_utf8(text),
{
    encode_utf8_valid_utf8(text);
    encode_utf8_decode_utf8(text);
    if valid_utf8(bytes) {
        decode_utf8_encode_utf8(bytes);
    }
}

/// One digit denotes its place in the row of digits, with a plus sign in front
/// or without.
pub proof fn digit_denotes_its_place(n: int)
    requires
        0 <= n < 10,
    ensures
        unsigned_value(seq!["0123456789"@[n]]) == Some(n as nat),
        unsigned_value(seq!['+', "0123456789"@[n]]) == Some(n as nat),
{
    reveal_strlit("0123456789");
    let c = "0123456789"@[n];
    let s = seq![c];
    assert(s.drop_last() =~= Seq::<char>::empty());
    assert(decimal_value(s.drop_last()) == 0);
    assert(all_digits(s));
    assert(decimal_value(s) == n);
    assert(seq!['+', c].drop_first() =~= s);
}

/// One more digit makes a number ten times as large, and adds the digit.
pub proof fn another_digit_counts_tenfold(s: Seq<char>, n: int)
    requires
        0 <= n < 10,
        unsigned_value(s) is Some,
    ensures
        unsigned_value(s.push("0123456789"@[n])) == Some((unsigned_value(s)->0 * 10 + n) as nat),
{
    reveal_strlit("0123456789");
    let c = "0123456789"@[n];
    let t = s.push(c);
    if s[0] == '+' {
        assert(t.drop_first() =~= s.drop_first().push(c));
        assert(t.drop_first().drop_last() =~= s.drop_first());
        assert(all_digits(t.drop_first()));
    } else {
        assert(t.drop_last() =~= s);
        assert(all_digits(t));
    }
}

/// What denotes a number is made of decimal digits, at least one, with nothing
/// but a plus sign in front of them; and all that is so made denotes one.
pub proof fn numbers_are_made_of_digits(s: Seq<char>)
    ensures
        unsigned_value(s) is Some <==> {
            &&& s.len() > 0
            &&& s != "+"@
            &&& forall|i: int|
                0 <= i < s.len() ==> "0123456789"@.contains(#[trigger] s[i]) || (i == 0 && s[i]
                    == '+')
        },
{
    reveal_strlit("0123456789");
    reveal_strlit("+");
    let row = "0123456789"@;
    assert forall|c: char| row.contains(c) <==> is_digit(c) by {
        if is_digit(c) {
            assert(row[c as int - '0' as int] == c);
        }
    }
    let digits = if s.len() > 0 && s[0] == '+' {
        s.drop_first()
    } else {
        s
    };
    let k: int = if s.len() > 0 && s[0] == '+' {
        1
    } else {
        0
    };
    assert(forall|i: int| 0 <= i < digits.len() ==> digits[i] == s[i + k]);
    if s.len() > 0 && s != "+"@ && (forall|i: int|
        0 <= i < s.len() ==> row.contains(#[trigger] s[i]) || (i == 0 && s[i] == '+')) {
        if digits.len() == 0 {
            assert(s =~= "+"@);
        }
        assert forall|i: int| 0 <= i < digits.len() implies is_digit(#[trigger] digits[i]) by {
            assert(row.contains(s[i + k]) || (i + k == 0 && s[i + k] == '+'));
        }
    }
    if unsigned_value(s) is Some {
        assert forall|i: int| 0 <= i < s.len() implies row.contains(#[trigger] s[i]) || (i == 0
            && s[i] == '+') by {
            if i >= k {
                assert(is_digit(digits[i - k]));
            }
        }
        assert(s != "+"@);
    }
}

/// A number is read back from its decimal digits.
pub proof fn decimal_text_is_read_back(n: nat)
    ensures
        unsigned_value(decimal_text(n)) == Some(n),
        all_digits(decimal_text(n)),
        decimal_value(decimal_text(n)) == n,
        decimal_text(n).len() > 0,
    decreases n,
{
    let t = decimal_text(n);
    if n < 10 {
        assert(t.drop_last() =~= Seq::<char>::empty());
    } else {
        decimal_text_is_read_back(n / 10);
        assert(t.drop_last() =~= decimal_text(n / 10));
    }
    assert(t.last() as int == '0' as int + n % 10);
    assert(decimal_value(t) == decimal_value(t.drop_last()) * 10 + n % 10);
    assert(is_digit(t[0]));
}

/// Whether two texts are the same but for the case of ASCII letters, the second
/// having none that is a capital.
pub open spec fn same_but_for_case(s: Seq<char>, word: Seq<char>) -> bool {
    &&& s.len() == word.len()
    &&& forall|i: int|
        0 <= i < s.len() ==> {
            ||| #[trigger] s[i] == word[i] && !('A' <= s[i] <= 'Z')
            ||| exists|k: int|
                0 <= k < 26 && s[i] == #[trigger] "ABCDEFGHIJKLMNOPQRSTUVWXYZ"@[k] && word[i]
                    == "abcdefghijklmnopqrstuvwxyz"@[k]
        }
}

/// Making ASCII capitals small gives the text that is the same but for them.
pub proof fn lowercase_is_the_same_but_for_case(s: Seq<char>, word: Seq<char>)
    ensures
        ascii_lowercase(s) == word <==> same_but_for_case(s, word),
{
    reveal_strlit("ABCDEFGHIJKLMNOPQRSTUVWXYZ");
    reveal_strlit("abcdefghijklmnopqrstuvwxyz");
    let l = ascii_lowercase(s);
    assert(l.len() == s.len());
    assert forall|i: int| 0 <= i < s.len() implies l[i] == ascii_lower(#[trigger] s[i]) by {}
    if l == word {
        assert forall|i: int| 0 <= i < s.len() implies {
            ||| #[trigger] s[i] == word[i] && !('A' <= s[i] <= 'Z')
            ||| exists|k: int|
                0 <= k < 26 && s[i] == #[trigger] "ABCDEFGHIJKLMNOPQRSTUVWXYZ"@[k] && word[i]
                    == "abcdefghijklmnopqrstuvwxyz"@[k]
        } by {
            assert(l[i] == ascii_lower(s[i]));
            if 'A' <= s[i] <= 'Z' {
                let k = s[i] as int - 'A' as int;
                assert("ABCDEFGHIJKLMNOPQRSTUVWXYZ"@[k] == s[i]);
                assert("abcdefghijklmnopqrstuvwxyz"@[k] == word[i]);
            }
        }
    }
    if same_but_for_case(s, word) {
        assert forall|i: int| 0 <= i < s.len() implies l[i] == word[i] by {
            assert(l[i] == ascii_lower(s[i]));
        }
        assert(l =~= word);
    }
}

/// A text is hex if it is not empty and every character of it is one of the
/// digits and of the letters from `a` to `f` in either case.
pub proof fn hex_is_made_of_hex_digits(s: Seq<char>)
    ensures
        is_hex(s) <==> {
            &&& s.len() > 0
            &&& forall|i: int|
                0 <= i < s.len() ==> "0123456789abcdefABCDEF"@.contains(#[trigger] s[i])
        },
{
    reveal_strlit("0123456789abcdefABCDEF");
    let row = "0123456789abcdefABCDEF"@;
    assert forall|c: char| row.contains(c) <==> is_hex_digit(c) by {
        if '0' <= c <= '9' {
            assert(row[c as int - '0' as int] == c);
        } else if 'a' <= c <= 'f' {
            assert(row[c as int - 'a' as int + 10] == c);
        } else if 'A' <= c <= 'F' {
            assert(row[c as int - 'A' as int + 16] == c);
        }
    }
    if s.len() > 0 && is_hex(s) {
        assert forall|i: int| 0 <= i < s.len() implies row.contains(#[trigger] s[i]) by {
            assert(is_hex_digit(s[i]));
        }
    }
    if s.len() > 0 && forall|i: int| 0 <= i < s.len() ==> row.contains(#[trigger] s[i]) {
        assert forall|i: int| 0 <= i < s.len() implies is_hex_digit(#[trigger] s[i]) by {
            assert(row.contains(s[i]));
        }
    }
}

} // verus!
