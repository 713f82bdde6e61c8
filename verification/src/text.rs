//! Numbers as decimal text.

use vstd::prelude::*;
use vstd::string::*;

verus! {

/// The character of a decimal digit.
pub open spec fn digit_char(d: nat) -> char {
    if d == 0 {
        '0'
    } else if d == 1 {
        '1'
    } else if d == 2 {
        '2'
    } else if d == 3 {
        '3'
    } else if d == 4 {
        '4'
    } else if d == 5 {
        '5'
    } else if d == 6 {
        '6'
    } else if d == 7 {
        '7'
    } else if d == 8 {
        '8'
    } else {
        '9'
    }
}

/// The decimal digits of `n`, without leading zeros.
pub open spec fn decimal_spec(n: nat) -> Seq<char>
    decreases n,
{
    if n < 10 {
        seq![digit_char(n)]
    } else {
        decimal_spec(n / 10).push(digit_char(n % 10))
    }
}

/// The text of one decimal digit.
fn digit_text(d: u32) -> (s: &'static str)
    requires
        d < 10,
    ensures
        s@ == seq![digit_char(d as nat)],
{
    proof {
        reveal_strlit("0");
        reveal_strlit("1");
        reveal_strlit("2");
        reveal_strlit("3");
        reveal_strlit("4");
        reveal_strlit("5");
        reveal_strlit("6");
        reveal_strlit("7");
        reveal_strlit("8");
        reveal_strlit("9");
    }
    let s: &'static str = if d == 0 {
        "0"
    } else if d == 1 {
        "1"
    } else if d == 2 {
        "2"
    } else if d == 3 {
        "3"
    } else if d == 4 {
        "4"
    } else if d == 5 {
        "5"
    } else if d == 6 {
        "6"
    } else if d == 7 {
        "7"
    } else if d == 8 {
        "8"
    } else {
        "9"
    };
    assert(s@ =~= seq![digit_char(d as nat)]);
    s
}

/// Writes `n` in decimal digits.
pub fn decimal(n: u32) -> (s: String)
    ensures
        s@ == decimal_spec(n as nat),
    decreases n,
{
    if n < 10 {
        String::from_str(digit_text(n))
    } else {
        let mut s: String = decimal(n / 10);
        s.append(digit_text(n % 10));
        assert(s@ =~= decimal_spec((n / 10) as nat).push(digit_char((n % 10) as nat)));
        s
    }
}

/// The characters `0` to `9`.
pub open spec fn is_digit(c: char) -> bool {
    '0' <= c && c <= '9'
}

/// The number that decimal digits stand for.
pub open spec fn digits_value(digits: Seq<char>) -> nat
    decreases digits.len(),
{
    if digits.len() == 0 {
        0
    } else {
        digits_value(digits.drop_last()) * 10 + ((digits.last() as int - '0' as int) as nat)
    }
}

/// Every character is a decimal digit.
pub open spec fn all_digits(digits: Seq<char>) -> bool {
    forall|i: int| 0 <= i < digits.len() ==> is_digit(#[trigger] digits[i])
}

/// The text without a plus sign in front.
pub open spec fn unsigned_part(text: Seq<char>) -> Seq<char> {
    if text.len() > 0 && text[0] == '+' {
        text.skip(1)
    } else {
        text
    }
}

/// The number that a text stands for: one or more decimal digits, with or
/// without a plus sign in front, that stay within 32 bits.
pub open spec fn parse_spec(text: Seq<char>) -> Option<u32> {
    let digits = unsigned_part(text);
    if digits.len() > 0 && all_digits(digits) && digits_value(digits) <= u32::MAX {
        Some(digits_value(digits) as u32)
    } else {
        None
    }
}

/// More digits never stand for less.
pub proof fn lemma_digits_value_grows(digits: Seq<char>, k: int)
    requires
        0 <= k <= digits.len(),
    ensures
        digits_value(digits.take(k)) <= digits_value(digits),
    decreases digits.len() - k,
{
    if k < digits.len() {
        lemma_digits_value_grows(digits, k + 1);
        assert(digits.take(k + 1).drop_last() =~= digits.take(k));
    } else {
        assert(digits.take(k) =~= digits);
    }
}

/// Reads a number from a text. Returns `None` unless the text is one or more
/// decimal digits, with or without a plus sign in front, that stay within 32
/// bits.
pub fn parse_decimal(text: &str) -> (r: Option<u32>)
    ensures
        r == parse_spec(text@),
{
    broadcast use vstd::string::is_ascii_spec_bytes;

    if !text.is_ascii() {
        proof {
            let digits = unsigned_part(text@);
            if digits.len() > 0 && all_digits(digits) {
                assert forall|i: int| 0 <= i < text@.len() implies '\0' <= #[trigger] text@[i]
                    <= '\u{7f}' by {
                    if text@[0] == '+' {
                        if i > 0 {
                            assert(is_digit(digits[i - 1]));
                        }
                    } else {
                        assert(is_digit(digits[i]));
                    }
                }
                assert(vstd::utf8::is_ascii_chars(text@));
            }
        }
        return None;
    }
    let bytes: &[u8] = text.as_bytes();
    assert(bytes@.len() == text@.len());
    assert(forall|i: int| 0 <= i < text@.len() ==> bytes@[i] == text@[i] as u8);
    let n: usize = bytes.len();
    let start: usize = if n > 0 && bytes[0] == 43u8 { 1 } else { 0 };
    assert(text@.len() > 0 ==> (bytes@[0] == 43u8 <==> text@[0] == '+')) by {
        if text@.len() > 0 {
            assert('\0' <= text@[0] <= '\u{7f}');
        }
    }
    let ghost digits = unsigned_part(text@);
    assert(digits =~= text@.skip(start as int));
    if start == n {
        return None;
    }
    let mut value: u32 = 0;
    let mut i: usize = start;
    assert(digits.take(0) =~= Seq::<char>::empty());
    while i < n
        invariant
            start <= i <= n,
            n == bytes@.len(),
            n == text@.len(),
            digits == text@.skip(start as int),
            digits == unsigned_part(text@),
            forall|k: int| 0 <= k < text@.len() ==> bytes@[k] == text@[k] as u8,
            forall|k: int| 0 <= k < text@.len() ==> '\0' <= #[trigger] text@[k] <= '\u{7f}',
            all_digits(digits.take(i - start)),
            value == digits_value(digits.take(i - start)),
        decreases n - i,
    {
        let b: u8 = bytes[i];
        let ghost c = text@[i as int];
        assert(digits[i - start] == c);
        assert('\0' <= c <= '\u{7f}');
        assert(b == c as u8);
        assert(b as int == c as int);
        if b < 48u8 || b > 57u8 {
            assert(!is_digit(c));
            assert(!all_digits(digits));
            return None;
        }
        assert(is_digit(c));
        let d: u32 = (b - 48u8) as u32;
        assert(d == c as int - '0' as int);
        proof {
            assert(digits.take(i - start + 1).drop_last() =~= digits.take(i - start));
            assert(digits.take(i - start + 1).last() == c);
            assert forall|k: int| 0 <= k < digits.take(i - start + 1).len() implies is_digit(
                #[trigger] digits.take(i - start + 1)[k],
            ) by {
                if k < i - start {
                    assert(digits.take(i - start)[k] == digits.take(i - start + 1)[k]);
                }
            }
            lemma_digits_value_grows(digits, i - start + 1);
        }
        if value > 429_496_729u32 || (value == 429_496_729u32 && d > 5) {
            return None;
        }
        value = value * 10 + d;
        i += 1;
    }
    assert(digits.take(n - start) =~= digits);
    Some(value)
}

/// Reading what [`decimal`] wrote gives the number back.
pub proof fn lemma_parse_decimal(n: u32)
    ensures
        parse_spec(decimal_spec(n as nat)) == Some(n),
{
    lemma_decimal_digits(n as nat);
    let text = decimal_spec(n as nat);
    assert(is_digit(text[0]));
    assert(unsigned_part(text) == text);
}

/// What [`decimal_spec`] writes is one or more digits that stand for the
/// number.
pub proof fn lemma_decimal_digits(n: nat)
    ensures
        decimal_spec(n).len() > 0,
        all_digits(decimal_spec(n)),
        digits_value(decimal_spec(n)) == n,
    decreases n,
{
    if n < 10 {
        let text = decimal_spec(n);
        assert(text.drop_last() =~= Seq::<char>::empty());
        assert(digits_value(text.drop_last()) == 0);
        assert(text.last() == digit_char(n));
    } else {
        lemma_decimal_digits(n / 10);
        let text = decimal_spec(n);
        assert(text.drop_last() =~= decimal_spec(n / 10));
        assert(text.last() == digit_char(n % 10));
        assert forall|i: int| 0 <= i < text.len() implies is_digit(#[trigger] text[i]) by {
            if i < text.len() - 1 {
                assert(text[i] == decimal_spec(n / 10)[i]);
            }
        }
    }
}

} // verus!
