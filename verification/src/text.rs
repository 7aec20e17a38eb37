//! Numbers as text.

use vstd::prelude::*;

verus! {

/// The character of a decimal digit.
pub open spec fn digit_char(digit: int) -> char {
    seq!['0', '1', '2', '3', '4', '5', '6', '7', '8', '9'][digit]
}

/// A number in decimal digits, without leading zeros.
pub open spec fn decimal(number: int) -> Seq<char>
    decreases number,
{
    if number < 10 {
        seq![digit_char(number)]
    } else {
        decimal(number / 10).push(digit_char(number % 10))
    }
}

/// A number below a hundred in exactly two digits.
pub open spec fn two_digits(number: int) -> Seq<char> {
    seq![digit_char(number / 10), digit_char(number % 10)]
}

fn digit_text(digit: u64) -> (text: &'static str)
    requires
        digit < 10,
    ensures
        text@ == seq![digit_char(digit as int)],
{
    proof {
        reveal_strlit("0");
        reveal_strlit("1");
        reveal_strlit("2");
        reveal_strlit("3");
        reveal_strlit("4");
        reveal_strlit("5");
        reveal_strlit("6");
        reveal_strlit("7");
        reveal_strlit("8");
        reveal_strlit("9");
    }
    let text: &'static str = match digit {
        0 => "0",
        1 => "1",
        2 => "2",
        3 => "3",
        4 => "4",
        5 => "5",
        6 => "6",
        7 => "7",
        8 => "8",
        _ => "9",
    };
    assert(text@ =~= seq![digit_char(digit as int)]);
    text
}

/// A number in decimal digits.
pub fn decimal_text(number: u64) -> (text: String)
    ensures
        text@ == decimal(number as int),
    decreases number,
{
    if number < 10 {
        let mut text: String = String::new();
        text.append(digit_text(number));
        assert(text@ =~= decimal(number as int));
        return text;
    }
    let mut text: String = decimal_text(number / 10);
    text.append(digit_text(number % 10));
    assert(text@ =~= decimal(number as int));
    text
}

/// A number below a hundred in exactly two digits.
pub fn two_digit_text(number: u64) -> (text: String)
    requires
        number < 100,
    ensures
        text@ == two_digits(number as int),
{
    let mut text: String = String::new();
    text.append(digit_text(number / 10));
    text.append(digit_text(number % 10));
    assert(text@ =~= two_digits(number as int));
    text
}

/// Two numbers that differ have texts that differ.
pub proof fn decimal_texts_are_unique(a: int, b: int)
    requires
        0 <= a,
        0 <= b,
        decimal(a) == decimal(b),
    ensures
        a == b,
    decreases a,
{
    lemma_decimal_len(a);
    lemma_decimal_len(b);
    lemma_digit_char(a % 10);
    lemma_digit_char(b % 10);
    if a < 10 {
        if b >= 10 {
            assert(decimal(b).len() >= 2);
        } else {
            assert(decimal(a)[0] == digit_char(a % 10));
            assert(decimal(b)[0] == digit_char(b % 10));
        }
    } else {
        if b < 10 {
            assert(decimal(a).len() >= 2);
        } else {
            assert(decimal(a).last() == digit_char(a % 10));
            assert(decimal(b).last() == digit_char(b % 10));
            assert(decimal(a).drop_last() =~= decimal(a / 10));
            assert(decimal(b).drop_last() =~= decimal(b / 10));
            decimal_texts_are_unique(a / 10, b / 10);
        }
    }
}

proof fn lemma_digit_char(digit: int)
    requires
        0 <= digit < 10,
    ensures
        digit_char(digit) as int == '0' as int + digit,
{
    let digits = seq!['0', '1', '2', '3', '4', '5', '6', '7', '8', '9'];
    assert(digits[0] == '0' && digits[1] == '1' && digits[2] == '2' && digits[3] == '3'
        && digits[4] == '4' && digits[5] == '5' && digits[6] == '6' && digits[7] == '7'
        && digits[8] == '8' && digits[9] == '9');
}

proof fn lemma_decimal_len(number: int)
    requires
        0 <= number,
    ensures
        decimal(number).len() >= 1,
        number >= 10 ==> decimal(number).len() >= 2,
    decreases number,
{
    if number >= 10 {
        lemma_decimal_len(number / 10);
    }
}

/// The number that a row of decimal digits stands for.
pub open spec fn number_in(digits: Seq<char>) -> int
    decreases digits.len(),
{
    if digits.len() == 0 {
        0
    } else {
        10 * number_in(digits.drop_last()) + (digits.last() as int - '0' as int)
    }
}

/// A number is read back from its text, which has no zero in front.
pub proof fn decimal_texts_read_back(number: int)
    requires
        0 <= number,
    ensures
        number_in(decimal(number)) == number,
        number > 0 ==> decimal(number).first() != '0',
        decimal(0) == seq!['0'],
        forall|k: int| 0 <= k < decimal(number).len() ==> '0' <= #[trigger] decimal(number)[k] <= '9',
    decreases number,
{
    lemma_digit_char(number % 10);
    lemma_digit_char(0);
    reveal_with_fuel(number_in, 2);
    let text = decimal(number);
    if number < 10 {
        assert(text.drop_last() =~= Seq::<char>::empty());
        assert(text.last() == digit_char(number));
    } else {
        decimal_texts_read_back(number / 10);
        let front = decimal(number / 10);
        assert(text.drop_last() =~= front);
        assert(text.last() == digit_char(number % 10));
        lemma_decimal_len(number / 10);
        assert(text.first() == front.first());
        assert forall|k: int| 0 <= k < text.len() implies '0' <= #[trigger] text[k] <= '9' by {
            if k < front.len() {
                assert(text[k] == front[k]);
            }
        }
    }
}

/// A number below a hundred is read back from its two digits.
pub proof fn two_digits_read_back(number: int)
    requires
        0 <= number < 100,
    ensures
        two_digits(number).len() == 2,
        number_in(two_digits(number)) == number,
{
    lemma_digit_char(number / 10);
    lemma_digit_char(number % 10);
    reveal_with_fuel(number_in, 3);
    let text = two_digits(number);
    assert(text.drop_last() =~= seq![digit_char(number / 10)]);
    assert(text.drop_last().drop_last() =~= Seq::<char>::empty());
    assert(text.drop_last().last() == digit_char(number / 10));
}

} // verus!
