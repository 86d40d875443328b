//! Strings: comparing, decimal numbers, splitting.

use vstd::prelude::*;
use vstd::string::*;
use vstd::utf8::*;

verus! {

/// Whether two strings hold the same characters.
pub fn same_text(a: &str, b: &str) -> (same: bool)
    ensures
        same == (a@ == b@),
{
    let left = a.as_bytes();
    let right = b.as_bytes();
    proof {
        encode_utf8_decode_utf8(a@);
        encode_utf8_decode_utf8(b@);
    }
    if left.len() != right.len() {
        return false;
    }
    let mut i: usize = 0;
    while i < left.len()
        invariant
            left@ == encode_utf8(a@),
            right@ == encode_utf8(b@),
            left@.len() == right@.len(),
            i <= left@.len(),
            forall|j: int| 0 <= j < i ==> left@[j] == right@[j],
        decreases left@.len() - i,
    {
        if left[i] != right[i] {
            return false;
        }
        i = i + 1;
    }
    assert(left@ =~= right@);
    true
}

/// The first string followed by the second.
pub fn joined(a: &str, b: &str) -> (text: String)
    ensures
        text@ == a@ + b@,
{
    let mut text: String = a.to_owned();
    text.append(b);
    text
}

/// The first string, the second, then the third.
pub fn joined3(a: &str, b: &str, c: &str) -> (text: String)
    ensures
        text@ == a@ + b@ + c@,
{
    let mut text: String = joined(a, b);
    text.append(c);
    text
}

/// The decimal digit for a number below ten.
pub open spec fn digit_char(digit: nat) -> char {
    (48 + digit) as char
}

/// A natural number in decimal, without leading zeros.
pub open spec fn decimal_nat(n: nat) -> Seq<char>
    decreases n,
{
    if n < 10 {
        seq![digit_char(n)]
    } else {
        decimal_nat(n / 10).push(digit_char(n % 10))
    }
}

/// An integer in decimal: a minus sign where it is negative, then its digits.
pub open spec fn decimal(i: int) -> Seq<char> {
    if i < 0 {
        seq!['-'] + decimal_nat((-i) as nat)
    } else {
        decimal_nat(i as nat)
    }
}

/// Whether a character is a decimal digit.
pub open spec fn is_digit(c: char) -> bool {
    '0' <= c && c <= '9'
}

/// The number that a row of decimal digits denotes.
pub open spec fn digits_value(digits: Seq<char>) -> nat
    decreases digits.len(),
{
    if digits.len() == 0 {
        0
    } else {
        (10 * digits_value(digits.drop_last()) + (digits.last() as nat - 48)) as nat
    }
}

/// The 64-bit integer that a text denotes: an optional sign, then at least one
/// digit and nothing else, within range.
pub open spec fn i64_of_text(text: Seq<char>) -> Option<i64> {
    let signed = text.len() > 0 && (text[0] == '-' || text[0] == '+');
    let digits = if signed { text.drop_first() } else { text };
    let value = if signed && text[0] == '-' { -digits_value(digits) } else { digits_value(digits) as int };
    if digits.len() > 0 && (forall|i: int| 0 <= i < digits.len() ==> is_digit(#[trigger] digits[i])) && i64::MIN
        <= value <= i64::MAX {
        Some(value as i64)
    } else {
        None
    }
}

/// What `i64::from_str` says of a text that is no 64-bit integer.
pub uninterp spec fn i64_error_text(text: Seq<char>) -> Seq<char>;

/// Calls `str::parse::<i64>`. It gives the integer exactly where the text is an
/// optional sign followed by digits alone, at least one, of a number in range;
/// elsewhere it gives an error whose wording depends on the text alone.
#[verifier::external_body]
pub(crate) fn parse_i64(text: &str) -> (parsed: Result<i64, String>)
    ensures
        match parsed {
            Ok(value) => i64_of_text(text@) == Some(value),
            Err(message) => i64_of_text(text@) is None && message@ == i64_error_text(text@),
        },
{
    text.parse::<i64>().map_err(|e| e.to_string())
}

fn digit_text(digit: u64) -> (text: &'static str)
    requires
        digit < 10,
    ensures
        text@ == seq![digit_char(digit as nat)],
{
    proof {
        reveal_strlit("0");
        reveal_strlit("1");
        reveal_strlit("2");
        reveal_strlit("3");
        reveal_strlit("4");
        reveal_strlit("5");
        reveal_strlit("6");
        reveal_strlit("7");
        reveal_strlit("8");
        reveal_strlit("9");
    }
    let text = match digit {
        0 => "0",
        1 => "1",
        2 => "2",
        3 => "3",
        4 => "4",
        5 => "5",
        6 => "6",
        7 => "7",
        8 => "8",
        _ => "9",
    };
    assert(text@ =~= seq![digit_char(digit as nat)]);
    text
}

fn append_decimal(text: &mut String, n: u64)
    ensures
        final(text)@ == old(text)@ + decimal_nat(n as nat),
    decreases n,
{
    if n < 10 {
        text.append(digit_text(n));
    } else {
        append_decimal(text, n / 10);
        text.append(digit_text(n % 10));
        assert(old(text)@ + decimal_nat((n / 10) as nat) + seq![digit_char((n % 10) as nat)]
            =~= old(text)@ + decimal_nat(n as nat));
    }
}

/// An integer in decimal.
pub fn decimal_text(i: i64) -> (text: String)
    ensures
        text@ == decimal(i as int),
{
    let mut text: String = String::new();
    if i < 0 {
        let magnitude: u64 = if i == i64::MIN { 0x8000_0000_0000_0000 } else { (-i) as u64 };
        proof {
            reveal_strlit("-");
        }
        text.append("-");
        append_decimal(&mut text, magnitude);
        assert(text@ =~= decimal(i as int));
    } else {
        append_decimal(&mut text, i as u64);
        assert(text@ =~= decimal(i as int));
    }
    text
}

proof fn lemma_decimal_nat(n: nat)
    ensures
        decimal_nat(n).len() > 0,
        digits_value(decimal_nat(n)) == n,
        forall|i: int| 0 <= i < decimal_nat(n).len() ==> is_digit(#[trigger] decimal_nat(n)[i]),
    decreases n,
{
    if n < 10 {
        assert(decimal_nat(n).drop_last() =~= Seq::<char>::empty());
        assert(digits_value(decimal_nat(n).drop_last()) == 0);
    } else {
        lemma_decimal_nat(n / 10);
        assert(decimal_nat(n).drop_last() =~= decimal_nat(n / 10));
    }
}

/// Reading the decimal text of a 64-bit integer gives that integer back.
pub proof fn lemma_decimal_reads_back(i: i64)
    ensures
        i64_of_text(decimal(i as int)) == Some(i),
{
    if i < 0 {
        lemma_decimal_nat((-i) as nat);
        assert(decimal(i as int).drop_first() =~= decimal_nat((-i) as nat));
    } else {
        lemma_decimal_nat(i as nat);
        assert(is_digit(decimal(i as int)[0]));
    }
}

/// No decimal text of an integer holds the given character, where that is
/// neither a digit nor a minus sign.
pub proof fn lemma_decimal_lacks(i: int, c: char)
    requires
        !is_digit(c),
        c != '-',
    ensures
        !decimal(i).contains(c),
{
    if i < 0 {
        lemma_decimal_nat((-i) as nat);
        assert forall|k: int| 0 <= k < decimal(i).len() implies decimal(i)[k] != c by {
            if k > 0 {
                assert(decimal(i)[k] == decimal_nat((-i) as nat)[k - 1]);
            }
        }
    } else {
        lemma_decimal_nat(i as nat);
    }
}

/// Splits a string at the first occurrence of a character, which is left out.
pub fn split_once(text: &str, c: char) -> (parts: Option<(&str, &str)>)
    ensures
        match parts {
            Some((before, after)) => text@ == before@ + seq![c] + after@ && !before@.contains(c),
            None => !text@.contains(c),
        },
{
    let length: usize = text.unicode_len();
    let mut i: usize = 0;
    for d in chars: text.chars()
        invariant
            chars.seq() == text@,
            i == chars.index(),
            length == text@.len(),
            forall|j: int| 0 <= j < i ==> text@[j] != c,
    {
        if d == c {
            let before = text.substring_char(0, i);
            let after = text.substring_char(i + 1, length);
            assert(text@ =~= before@ + seq![c] + after@);
            return Some((before, after));
        }
        i = i + 1;
    }
    None
}

proof fn lemma_decimal_nat_starts(n: nat)
    ensures
        decimal_nat(n).len() > 0,
        decimal_nat(n)[0] == '0' <==> n == 0,
        n == 0 ==> decimal_nat(n).len() == 1,
    decreases n,
{
    if n >= 10 {
        lemma_decimal_nat_starts(n / 10);
    }
}

/// The decimal text of an integer is its shortest: a minus sign for a negative
/// one and nothing for another, then digits alone, with no zero in front of
/// others.
pub proof fn lemma_decimal_is_shortest(i: int)
    ensures
        i < 0 <==> decimal(i).len() > 0 && decimal(i)[0] == '-',
        ({
            let digits = if i < 0 { decimal(i).skip(1) } else { decimal(i) };
            &&& digits.len() > 0
            &&& forall|k: int| 0 <= k < digits.len() ==> '0' <= #[trigger] digits[k] && digits[k] <= '9'
            &&& digits[0] == '0' ==> i == 0 && digits.len() == 1
        }),
{
    let n = (if i < 0 { -i } else { i }) as nat;
    lemma_decimal_nat(n);
    lemma_decimal_nat_starts(n);
    if i < 0 {
        assert(decimal(i).skip(1) =~= decimal_nat(n));
    } else {
        assert(is_digit(decimal(i)[0]));
    }
}

} // verus!
