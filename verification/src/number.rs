//! Natural numbers written in decimal digits.

use vstd::prelude::*;
use vstd::string::*;

verus! {

/// Whether `c` is one of the digits `0` to `9`.
pub open spec fn is_digit(c: char) -> bool {
    '0' as int <= c as int <= '9' as int
}

/// The number that the digit `c` stands for.
pub open spec fn digit_value(c: char) -> nat
    recommends
        is_digit(c),
{
    (c as int - '0' as int) as nat
}

/// The digit that stands for `d`.
pub open spec fn digit_char(d: nat) -> char
    recommends
        d < 10,
{
    ('0' as int + d) as char
}

/// Whether `text` holds digits only.
pub open spec fn all_digits(text: Seq<char>) -> bool {
    forall|at: int| 0 <= at < text.len() ==> is_digit(#[trigger] text[at])
}

/// The number that the digits `text` spell; zero for no digits.
pub open spec fn digits_value(text: Seq<char>) -> nat
    decreases text.len(),
{
    if text.len() == 0 {
        0
    } else {
        digits_value(text.drop_last()) * 10 + digit_value(text.last())
    }
}

/// The number that `text` spells, where `text` is one digit or more and the
/// number fits 64 bits.
pub open spec fn natural_of(text: Seq<char>) -> Option<u64> {
    if text.len() > 0 && all_digits(text) && digits_value(text) <= u64::MAX {
        Some(digits_value(text) as u64)
    } else {
        None
    }
}

/// `text` without the plus sign that may stand in front of a number.
pub open spec fn unsigned(text: Seq<char>) -> Seq<char> {
    if text.len() > 0 && text[0] == '+' {
        text.skip(1)
    } else {
        text
    }
}

/// `n` in decimal digits, without leading zeros.
pub open spec fn decimal_text(n: nat) -> Seq<char>
    decreases n,
{
    if n < 10 {
        seq![digit_char(n)]
    } else {
        decimal_text(n / 10).push(digit_char(n % 10))
    }
}

/// Digits in front of others spell no more than all of them.
pub proof fn lemma_digits_value_grows(text: Seq<char>, len: int)
    requires
        0 <= len <= text.len(),
        all_digits(text),
    ensures
        digits_value(text.take(len)) <= digits_value(text),
    decreases text.len(),
{
    if len == text.len() {
        assert(text.take(len) =~= text);
    } else {
        assert(text.drop_last().take(len) =~= text.take(len));
        lemma_digits_value_grows(text.drop_last(), len);
    }
}

/// Written out and read back, a number is itself: its text is digits only,
/// at least one, starts with no plus sign, and spells the number.
pub proof fn lemma_decimal_text_round_trip(n: nat)
    ensures
        decimal_text(n).len() > 0,
        all_digits(decimal_text(n)),
        digits_value(decimal_text(n)) == n,
        unsigned(decimal_text(n)) == decimal_text(n),
        n <= u64::MAX ==> natural_of(decimal_text(n)) == Some(n as u64),
    decreases n,
{
    if n < 10 {
        let text = seq![digit_char(n)];
        assert(digits_value(text.drop_last()) == 0);
    } else {
        lemma_decimal_text_round_trip(n / 10);
        let text = decimal_text(n);
        assert(text.drop_last() =~= decimal_text(n / 10));
    }
}

/// The number that the digit `c` stands for, where `c` is a digit.
pub fn digit_of(c: char) -> (digit: Option<u8>)
    ensures
        digit == if is_digit(c) {
            Some(digit_value(c) as u8)
        } else {
            None
        },
{
    let code: u32 = c as u32;
    if 48 <= code && code <= 57 {
        Some((code - 48) as u8)
    } else {
        None
    }
}

/// The number that the characters `chars` spell.
pub fn parse_digits(chars: &[char]) -> (value: Option<u64>)
    ensures
        value == natural_of(chars@),
{
    if chars.len() == 0 {
        return None;
    }
    let ghost text = chars@;
    let mut value: u64 = 0;
    let mut at: usize = 0;
    while at < chars.len()
        invariant
            at <= chars.len(),
            text == chars@,
            all_digits(text.take(at as int)),
            value == digits_value(text.take(at as int)),
        decreases chars.len() - at,
    {
        let ghost seen = text.take(at + 1);
        proof {
            assert(seen.drop_last() =~= text.take(at as int));
        }
        let digit = match digit_of(chars[at]) {
            Some(digit) => digit,
            None => {
                return None;
            },
        };
        let next = match value.checked_mul(10) {
            Some(tenfold) => tenfold.checked_add(digit as u64),
            None => None,
        };
        match next {
            Some(next) => {
                value = next;
            },
            None => {
                proof {
                    if all_digits(text) {
                        lemma_digits_value_grows(text, at + 1);
                    }
                }
                return None;
            },
        }
        at += 1;
    }
    assert(text.take(at as int) =~= text);
    Some(value)
}

/// The text of one digit.
fn digit_text(digit: u64) -> (text: &'static str)
    requires
        digit < 10,
    ensures
        text@ == seq![digit_char(digit as nat)],
{
    proof {
        reveal_strlit("0");
        reveal_strlit("1");
        reveal_strlit("2");
        reveal_strlit("3");
        reveal_strlit("4");
        reveal_strlit("5");
        reveal_strlit("6");
        reveal_strlit("7");
        reveal_strlit("8");
        reveal_strlit("9");
    }
    if digit == 0 {
        "0"
    } else if digit == 1 {
        "1"
    } else if digit == 2 {
        "2"
    } else if digit == 3 {
        "3"
    } else if digit == 4 {
        "4"
    } else if digit == 5 {
        "5"
    } else if digit == 6 {
        "6"
    } else if digit == 7 {
        "7"
    } else if digit == 8 {
        "8"
    } else {
        "9"
    }
}

/// Writes `value` in decimal digits behind what `out` holds.
fn write_decimal(value: u64, out: &mut String)
    ensures
        final(out)@ == old(out)@ + decimal_text(value as nat),
    decreases value,
{
    if value >= 10 {
        write_decimal(value / 10, out);
    }
    out.append(digit_text(value % 10));
}

/// `value` in decimal digits, without leading zeros.
pub fn render(value: u64) -> (text: String)
    ensures
        text@ == decimal_text(value as nat),
{
    let mut text = String::new();
    write_decimal(value, &mut text);
    text
}

} // verus!
