//! Whole numbers written in decimal digits.
use vstd::prelude::*;
use vstd::string::*;
use crate::text::chars_of;

verus! {

/// The value of a decimal digit.
pub open spec fn digit_value(c: char) -> Option<int> {
    if c == '0' {
        Some(0)
    } else if c == '1' {
        Some(1)
    } else if c == '2' {
        Some(2)
    } else if c == '3' {
        Some(3)
    } else if c == '4' {
        Some(4)
    } else if c == '5' {
        Some(5)
    } else if c == '6' {
        Some(6)
    } else if c == '7' {
        Some(7)
    } else if c == '8' {
        Some(8)
    } else if c == '9' {
        Some(9)
    } else {
        None
    }
}

/// The decimal digit of a value below ten.
pub open spec fn digit_char(value: int) -> char {
    if value == 0 {
        '0'
    } else if value == 1 {
        '1'
    } else if value == 2 {
        '2'
    } else if value == 3 {
        '3'
    } else if value == 4 {
        '4'
    } else if value == 5 {
        '5'
    } else if value == 6 {
        '6'
    } else if value == 7 {
        '7'
    } else if value == 8 {
        '8'
    } else {
        '9'
    }
}

/// Whether a text consists of decimal digits only.
pub open spec fn all_digits(text: Seq<char>) -> bool {
    forall|i: int| 0 <= i < text.len() ==> digit_value(#[trigger] text[i]) is Some
}

/// The number that a row of decimal digits denotes, zero for none.
pub open spec fn digits_value(text: Seq<char>) -> int
    decreases text.len(),
{
    if text.len() == 0 {
        0
    } else {
        match digit_value(text.last()) {
            Some(digit) => digits_value(text.drop_last()) * 10 + digit,
            None => digits_value(text.drop_last()) * 10,
        }
    }
}

/// The whole number that a text denotes: decimal digits, at least one, with
/// `-` or `+` before them or neither. A text of another form denotes none,
/// nor does one whose number an `i64` cannot hold.
pub open spec fn parsed_whole(text: Seq<char>) -> Option<i64> {
    let signed = text.len() > 0 && (text[0] == '-' || text[0] == '+');
    let digits = if signed {
        text.skip(1)
    } else {
        text
    };
    let value = if text.len() > 0 && text[0] == '-' {
        -digits_value(digits)
    } else {
        digits_value(digits)
    };
    if digits.len() > 0 && all_digits(digits) && i64::MIN <= value <= i64::MAX {
        Some(value as i64)
    } else {
        None
    }
}

/// The decimal digits of a number that is not negative, without leading
/// zeros.
pub open spec fn digits_of(value: nat) -> Seq<char>
    decreases value,
{
    if value < 10 {
        seq![digit_char(value as int)]
    } else {
        digits_of(value / 10).push(digit_char((value % 10) as int))
    }
}

/// The text that a whole number is written as: its decimal digits, behind
/// `-` where it is negative.
pub open spec fn whole_text(value: int) -> Seq<char> {
    if value < 0 {
        seq!['-'] + digits_of((-value) as nat)
    } else {
        digits_of(value as nat)
    }
}

/// A row of digits denotes no less than any row it begins with.
proof fn lemma_digits_grow(text: Seq<char>, n: int)
    requires
        0 <= n <= text.len(),
    ensures
        0 <= digits_value(text.take(n)) <= digits_value(text),
    decreases text.len() - n,
{
    lemma_digits_not_negative(text.take(n));
    if n < text.len() {
        assert(text.take(n + 1).drop_last() == text.take(n));
        lemma_digits_grow(text, n + 1);
    } else {
        assert(text.take(n) == text);
    }
}

proof fn lemma_digits_not_negative(text: Seq<char>)
    ensures
        digits_value(text) >= 0,
    decreases text.len(),
{
    if text.len() > 0 {
        lemma_digits_not_negative(text.drop_last());
    }
}

/// Reads a decimal digit.
fn read_digit(c: char) -> (r: Option<u8>)
    ensures
        match r {
            Some(digit) => digit_value(c) == Some(digit as int) && digit < 10,
            None => digit_value(c) is None,
        },
{
    if c == '0' {
        Some(0)
    } else if c == '1' {
        Some(1)
    } else if c == '2' {
        Some(2)
    } else if c == '3' {
        Some(3)
    } else if c == '4' {
        Some(4)
    } else if c == '5' {
        Some(5)
    } else if c == '6' {
        Some(6)
    } else if c == '7' {
        Some(7)
    } else if c == '8' {
        Some(8)
    } else if c == '9' {
        Some(9)
    } else {
        None
    }
}

/// Reads a whole number.
pub fn parse_whole(text: &str) -> (r: Option<i64>)
    ensures
        r == parsed_whole(text@),
{
    let chars = chars_of(text);
    let n = chars.len();
    if n == 0 {
        return None;
    }
    let negative = chars[0] == '-';
    let start: usize = if negative || chars[0] == '+' {
        1
    } else {
        0
    };
    if start == n {
        return None;
    }
    let ghost digits = chars@.skip(start as int);
    assert(chars@.skip(0) == chars@);
    let mut value: i128 = 0;
    let mut i: usize = start;
    assert(digits.take(0) == Seq::<char>::empty());
    while i < n
        invariant
            start <= i <= n,
            n == chars.len(),
            n > 0,
            chars@ == text@,
            negative == (chars@[0] == '-'),
            start == if chars@[0] == '-' || chars@[0] == '+' {
                1int
            } else {
                0int
            },
            digits == chars@.skip(start as int),
            start == 0 ==> digits == text@,
            all_digits(digits.take(i - start)),
            value == digits_value(digits.take(i - start)),
            0 <= value <= 0x8000_0000_0000_0000,
        decreases n - i,
    {
        let ghost now = digits.take(i - start + 1);
        assert(now.drop_last() == digits.take(i - start));
        assert(now.last() == chars@[i as int]);
        match read_digit(chars[i]) {
            None => {
                assert(digit_value(digits[i - start]) is None);
                return None;
            },
            Some(digit) => {
                value = value * 10 + digit as i128;
                assert(value == digits_value(now));
                assert forall|k: int| 0 <= k < now.len() implies digit_value(#[trigger] now[k])
                    is Some by {
                    if k < now.len() - 1 {
                        assert(now[k] == digits.take(i - start)[k]);
                    }
                }
                if value > 0x8000_0000_0000_0000 {
                    proof {
                        lemma_digits_grow(digits, i - start + 1);
                        assert(digits_value(digits) > 0x8000_0000_0000_0000);
                    }
                    return None;
                }
            },
        }
        i += 1;
    }
    assert(digits.take(n - start) == digits);
    if negative {
        Some((-value) as i64)
    } else if value <= 0x7fff_ffff_ffff_ffff {
        Some(value as i64)
    } else {
        None
    }
}

/// The text of a decimal digit.
fn digit_text(digit: u64) -> (r: &'static str)
    requires
        digit < 10,
    ensures
        r@ == seq![digit_char(digit as int)],
{
    proof {
        reveal_strlit("0");
        reveal_strlit("1");
        reveal_strlit("2");
        reveal_strlit("3");
        reveal_strlit("4");
        reveal_strlit("5");
        reveal_strlit("6");
        reveal_strlit("7");
        reveal_strlit("8");
        reveal_strlit("9");
    }
    let text = if digit == 0 {
        "0"
    } else if digit == 1 {
        "1"
    } else if digit == 2 {
        "2"
    } else if digit == 3 {
        "3"
    } else if digit == 4 {
        "4"
    } else if digit == 5 {
        "5"
    } else if digit == 6 {
        "6"
    } else if digit == 7 {
        "7"
    } else if digit == 8 {
        "8"
    } else {
        "9"
    };
    assert(text@ =~= seq![digit_char(digit as int)]);
    text
}

/// Writes a number that is not negative.
fn write_digits(value: u64) -> (r: String)
    ensures
        r@ == digits_of(value as nat),
    decreases value,
{
    if value < 10 {
        digit_text(value).to_owned()
    } else {
        let mut text = write_digits(value / 10);
        text.append(digit_text(value % 10));
        text
    }
}

/// Writes a whole number.
pub fn write_whole(value: i64) -> (r: String)
    ensures
        r@ == whole_text(value as int),
{
    if value < 0 {
        proof {
            reveal_strlit("-");
        }
        let magnitude = (-(value as i128)) as u64;
        let mut text = "-".to_owned();
        text.append(write_digits(magnitude).as_str());
        assert("-"@ =~= seq!['-']);
        text
    } else {
        write_digits(value as u64)
    }
}

/// The digits that a number is written in denote the number.
proof fn lemma_digits_round_trip(value: nat)
    ensures
        digits_of(value).len() > 0,
        all_digits(digits_of(value)),
        digits_value(digits_of(value)) == value,
    decreases value,
{
    if value < 10 {
        let text = digits_of(value);
        assert(text.drop_last() == Seq::<char>::empty());
        assert(digits_value(text.drop_last()) == 0);
    } else {
        lemma_digits_round_trip(value / 10);
        let text = digits_of(value);
        let before = digits_of(value / 10);
        assert(text.drop_last() == before);
        assert forall|i: int| 0 <= i < text.len() implies digit_value(#[trigger] text[i]) is Some by {
            if i < before.len() {
                assert(text[i] == before[i]);
            }
        }
    }
}

/// A whole number that is written and read again is the same number.
pub proof fn lemma_whole_round_trip(value: i64)
    ensures
        parsed_whole(whole_text(value as int)) == Some(value),
{
    let text = whole_text(value as int);
    if value < 0 {
        let digits = digits_of((-value) as nat);
        lemma_digits_round_trip((-value) as nat);
        assert(text.skip(1) == digits);
    } else {
        lemma_digits_round_trip(value as nat);
        assert(digit_value(text[0]) is Some);
    }
}

} // verus!
