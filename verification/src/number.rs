//! Decimal numbers as text.
use vstd::prelude::*;
use vstd::string::*;

use crate::text::chars_of;

verus! {

/// The character of a decimal digit.
pub open spec fn digit_char(digit: int) -> char {
    (48 + digit) as char
}

/// Whether `c` is one of `0` to `9`.
pub open spec fn is_digit(c: char) -> bool {
    48 <= c as u32 <= 57
}

/// The decimal digits of `n`, without leading zeros.
pub open spec fn decimal(n: nat) -> Seq<char>
    decreases n,
{
    if n < 10 {
        seq![digit_char(n as int)]
    } else {
        decimal(n / 10).push(digit_char((n % 10) as int))
    }
}

/// The decimal text of an integer that may be negative.
pub open spec fn signed_decimal(n: int) -> Seq<char> {
    if n < 0 {
        seq!['-'] + decimal((-n) as nat)
    } else {
        decimal(n as nat)
    }
}

/// Whether `text` consists of digits alone.
pub open spec fn all_digits(text: Seq<char>) -> bool {
    forall|i: int| 0 <= i < text.len() ==> is_digit(#[trigger] text[i])
}

/// The number that a text of digits writes.
pub open spec fn digits_value(text: Seq<char>) -> nat
    decreases text.len(),
{
    if text.len() == 0 {
        0
    } else {
        digits_value(text.drop_last()) * 10 + (text.last() as u32 - 48) as nat
    }
}

/// `text` read as an unsigned number up to `max`: digits, after a `+` or alone.
pub open spec fn read_unsigned(text: Seq<char>, max: nat) -> Option<nat> {
    let digits = if text.len() > 0 && text.first() == '+' {
        text.drop_first()
    } else {
        text
    };
    if digits.len() == 0 || !all_digits(digits) || digits_value(digits) > max {
        None
    } else {
        Some(digits_value(digits))
    }
}

/// `text` read as a signed number of 64 bits: digits, after a sign or alone.
pub open spec fn read_signed(text: Seq<char>) -> Option<int> {
    let negative = text.len() > 0 && text.first() == '-';
    let digits = if text.len() > 0 && (text.first() == '+' || text.first() == '-') {
        text.drop_first()
    } else {
        text
    };
    let value = if negative {
        -(digits_value(digits) as int)
    } else {
        digits_value(digits) as int
    };
    if digits.len() == 0 || !all_digits(digits) || !(i64::MIN <= value <= i64::MAX) {
        None
    } else {
        Some(value)
    }
}

fn digit_text(digit: u64) -> (text: &'static str)
    requires
        digit < 10,
    ensures
        text@ == seq![digit_char(digit as int)],
{
    let text: &'static str = match digit {
        0 => "0",
        1 => "1",
        2 => "2",
        3 => "3",
        4 => "4",
        5 => "5",
        6 => "6",
        7 => "7",
        8 => "8",
        _ => "9",
    };
    proof {
        reveal_strlit("0");
        reveal_strlit("1");
        reveal_strlit("2");
        reveal_strlit("3");
        reveal_strlit("4");
        reveal_strlit("5");
        reveal_strlit("6");
        reveal_strlit("7");
        reveal_strlit("8");
        reveal_strlit("9");
        assert(text@ =~= seq![digit_char(digit as int)]);
    }
    text
}

/// The decimal text of `n`.
pub fn decimal_text(n: u64) -> (text: String)
    ensures
        text@ == decimal(n as nat),
    decreases n,
{
    if n < 10 {
        digit_text(n).to_owned()
    } else {
        let mut text: String = decimal_text(n / 10);
        text.append(digit_text(n % 10));
        assert(text@ =~= decimal(n as nat));
        text
    }
}

/// The decimal text of `n`, with a minus sign where it is negative.
pub fn signed_text(n: i64) -> (text: String)
    ensures
        text@ == signed_decimal(n as int),
{
    if n < 0 {
        let magnitude: u64 = (-(n + 1)) as u64 + 1;
        let mut text: String = "-".to_owned();
        text.append(decimal_text(magnitude).as_str());
        proof {
            reveal_strlit("-");
            assert("-"@ =~= seq!['-']);
        }
        text
    } else {
        decimal_text(n as u64)
    }
}

proof fn lemma_value_of_prefix(text: Seq<char>, n: int)
    requires
        0 <= n <= text.len(),
    ensures
        digits_value(text.take(n)) <= digits_value(text),
    decreases text.len() - n,
{
    if n < text.len() {
        lemma_value_of_prefix(text, n + 1);
        assert(text.take(n + 1).drop_last() =~= text.take(n));
    } else {
        assert(text.take(n) =~= text);
    }
}

/// The number that the digits from `from` on write, if there is a digit, there
/// is nothing else and the number is at most `max`.
fn read_digits(chars: &Vec<char>, from: usize, max: u64) -> (value: Option<u64>)
    requires
        from <= chars.len(),
    ensures
        ({
            let digits = chars@.skip(from as int);
            match value {
                Some(v) => digits.len() > 0 && all_digits(digits) && v == digits_value(digits)
                    && v <= max,
                None => digits.len() == 0 || !all_digits(digits) || digits_value(digits) > max,
            }
        }),
{
    let ghost digits = chars@.skip(from as int);
    if from == chars.len() {
        return None;
    }
    let mut value: u64 = 0;
    let mut at: usize = from;
    assert(digits.take(0) =~= Seq::empty());
    while at < chars.len()
        invariant
            from <= at <= chars.len(),
            digits == chars@.skip(from as int),
            all_digits(digits.take(at - from)),
            value == digits_value(digits.take(at - from)),
            value <= max,
        decreases chars.len() - at,
    {
        let code: u32 = chars[at] as u32;
        assert(digits[at - from] == chars@[at as int]);
        if code < 48 || code > 57 {
            assert(!is_digit(digits[at - from]));
            return None;
        }
        let digit: u64 = (code - 48) as u64;
        assert(digits.take(at - from + 1).drop_last() =~= digits.take(at - from));
        proof {
            lemma_value_of_prefix(digits, at - from + 1);
        }
        if value > max / 10 || digit > max - value * 10 {
            return None;
        }
        let ghost before = digits.take(at - from);
        value = value * 10 + digit;
        at = at + 1;
        assert(digits.take(at - from).drop_last() =~= before);
        assert(digits.take(at - from).last() == digits[at - from - 1]);
        assert forall|i: int| 0 <= i < at - from implies is_digit(
            #[trigger] digits.take(at - from)[i],
        ) by {
            if i < at - from - 1 {
                assert(is_digit(before[i]));
                assert(digits.take(at - from)[i] == before[i]);
            } else {
                assert(is_digit(digits[at - from - 1]));
                assert(digits.take(at - from)[i] == digits[at - from - 1]);
            }
        }
    }
    assert(digits.take(at - from) =~= digits);
    Some(value)
}

/// `text` read as an unsigned number up to `max`.
pub fn parse_unsigned(text: &str, max: u64) -> (value: Option<u64>)
    ensures
        match value {
            Some(v) => read_unsigned(text@, max as nat) == Some(v as nat) && v <= max,
            None => read_unsigned(text@, max as nat) is None,
        },
{
    let chars = chars_of(text);
    assert(chars@.skip(0) =~= chars@);
    assert(chars.len() > 0 ==> chars@.skip(1) =~= chars@.drop_first());
    if chars.len() > 0 && chars[0] == '+' {
        read_digits(&chars, 1, max)
    } else {
        read_digits(&chars, 0, max)
    }
}

/// `text` read as a signed number of 64 bits.
pub fn parse_signed(text: &str) -> (value: Option<i64>)
    ensures
        match value {
            Some(v) => read_signed(text@) == Some(v as int),
            None => read_signed(text@) is None,
        },
{
    let chars = chars_of(text);
    assert(chars@.skip(0) =~= chars@);
    assert(chars.len() > 0 ==> chars@.skip(1) =~= chars@.drop_first());
    if chars.len() > 0 && chars[0] == '-' {
        match read_digits(&chars, 1, 0x8000_0000_0000_0000) {
            Some(magnitude) => {
                if magnitude == 0 {
                    Some(0)
                } else {
                    let less: u64 = magnitude - 1;
                    Some(-(less as i64) - 1)
                }
            },
            None => None,
        }
    } else {
        let from: usize = if chars.len() > 0 && chars[0] == '+' {
            1
        } else {
            0
        };
        match read_digits(&chars, from, 0x7fff_ffff_ffff_ffff) {
            Some(magnitude) => Some(magnitude as i64),
            None => None,
        }
    }
}

proof fn lemma_decimal_digits(n: nat)
    ensures
        decimal(n).len() > 0,
        all_digits(decimal(n)),
        digits_value(decimal(n)) == n,
    decreases n,
{
    if n < 10 {
        assert(decimal(n).drop_last() =~= Seq::<char>::empty());
        assert(digits_value(Seq::<char>::empty()) == 0);
        assert(decimal(n).last() as u32 == 48 + n);
    } else {
        lemma_decimal_digits(n / 10);
        let last = digit_char((n % 10) as int);
        assert(decimal(n).drop_last() =~= decimal(n / 10));
        assert(decimal(n).last() == last);
        assert(last as u32 == 48 + n % 10);
        assert forall|i: int| 0 <= i < decimal(n).len() implies is_digit(
            #[trigger] decimal(n)[i],
        ) by {
            if i < decimal(n / 10).len() {
                assert(decimal(n)[i] == decimal(n / 10)[i]);
            }
        }
    }
}

/// A number that is written and read again is the number.
pub proof fn written_number_reads_back(n: nat, max: nat)
    requires
        n <= max,
    ensures
        read_unsigned(decimal(n), max) == Some(n),
{
    lemma_decimal_digits(n);
    assert(is_digit(decimal(n)[0]));
}

/// A signed number that is written and read again is the number.
pub proof fn written_signed_number_reads_back(n: i64)
    ensures
        read_signed(signed_decimal(n as int)) == Some(n as int),
{
    let magnitude = if n < 0 {
        (-n) as nat
    } else {
        n as nat
    };
    lemma_decimal_digits(magnitude);
    assert(is_digit(decimal(magnitude)[0]));
    if n < 0 {
        assert((seq!['-'] + decimal(magnitude)).drop_first() =~= decimal(magnitude));
    }
}

/// Two numbers that are written alike are the same.
pub proof fn written_numbers_differ(m: nat, n: nat)
    requires
        decimal(m) == decimal(n),
    ensures
        m == n,
{
    lemma_decimal_digits(m);
    lemma_decimal_digits(n);
}

} // verus!
