//! Text that the status bar and the picker show.

use vstd::prelude::*;

verus! {

/// The character of a decimal digit.
pub open spec fn digit_char(digit: nat) -> char {
    if digit == 0 {
        '0'
    } else if digit == 1 {
        '1'
    } else if digit == 2 {
        '2'
    } else if digit == 3 {
        '3'
    } else if digit == 4 {
        '4'
    } else if digit == 5 {
        '5'
    } else if digit == 6 {
        '6'
    } else if digit == 7 {
        '7'
    } else if digit == 8 {
        '8'
    } else {
        '9'
    }
}

/// The decimal numeral of a number, without leading zeros.
pub open spec fn decimal_text(number: nat) -> Seq<char>
    decreases number,
{
    if number < 10 {
        seq![digit_char(number)]
    } else {
        decimal_text(number / 10).push(digit_char(number % 10))
    }
}

fn digit_text(digit: u64) -> (text: &'static str)
    requires
        digit < 10,
    ensures
        text@ == seq![digit_char(digit as nat)],
{
    proof {
        reveal_strlit("0");
        reveal_strlit("1");
        reveal_strlit("2");
        reveal_strlit("3");
        reveal_strlit("4");
        reveal_strlit("5");
        reveal_strlit("6");
        reveal_strlit("7");
        reveal_strlit("8");
        reveal_strlit("9");
    }
    match digit {
        0 => "0",
        1 => "1",
        2 => "2",
        3 => "3",
        4 => "4",
        5 => "5",
        6 => "6",
        7 => "7",
        8 => "8",
        _ => "9",
    }
}

/// Writes a number in decimal.
pub fn decimal(number: u64) -> (text: String)
    ensures
        text@ == decimal_text(number as nat),
    decreases number,
{
    if number < 10 {
        digit_text(number).to_owned()
    } else {
        let mut text = decimal(number / 10);
        text.append(digit_text(number % 10));
        text
    }
}

/// What is left of a text that may show at most `max_chars` characters: all of
/// it where it fits, else its beginning and an ellipsis.
pub open spec fn trailed_off(text: Seq<char>, max_chars: nat) -> Seq<char> {
    if text.len() <= max_chars {
        text
    } else {
        text.take(max_chars as int).push('…')
    }
}

/// Cuts a text off after `max_chars` characters and marks the cut with an
/// ellipsis; a text that fits is returned as it is.
pub fn truncate_and_trailoff(text: &str, max_chars: usize) -> (shown: String)
    ensures
        shown@ == trailed_off(text@, max_chars as nat),
{
    if text.unicode_len() <= max_chars {
        text.to_owned()
    } else {
        proof {
            reveal_strlit("…");
        }
        let shown = text.substring_char(0, max_chars).to_owned().concat("…");
        assert(shown@ == trailed_off(text@, max_chars as nat));
        shown
    }
}

/// Two numbers with the same numeral are the same number.
pub proof fn law_decimal_text_is_injective(first: nat, second: nat)
    requires
        decimal_text(first) == decimal_text(second),
    ensures
        first == second,
    decreases first,
{
    let a = decimal_text(first);
    let b = decimal_text(second);
    lemma_decimal_text_is_not_empty(first / 10);
    lemma_decimal_text_is_not_empty(second / 10);
    if first >= 10 && second >= 10 {
        assert(a.drop_last() == decimal_text(first / 10));
        assert(b.drop_last() == decimal_text(second / 10));
        law_decimal_text_is_injective(first / 10, second / 10);
        assert(a.last() == digit_char(first % 10));
        assert(b.last() == digit_char(second % 10));
        assert(first % 10 == second % 10);
    } else if first < 10 && second < 10 {
        assert(a[0] == digit_char(first));
        assert(b[0] == digit_char(second));
    } else {
        assert(a.len() != b.len());
    }
}

proof fn lemma_decimal_text_is_not_empty(number: nat)
    ensures
        decimal_text(number).len() > 0,
{
}

/// A text that was cut to fit is at most one character, the ellipsis, longer
/// than the room it has, and begins as the whole text does.
pub proof fn law_trailed_off_fits(text: Seq<char>, max_chars: nat)
    ensures
        trailed_off(text, max_chars).len() <= max_chars + 1,
        text.len() <= max_chars ==> trailed_off(text, max_chars) == text,
        text.len() > max_chars ==> {
            &&& trailed_off(text, max_chars).len() == max_chars + 1
            &&& trailed_off(text, max_chars).take(max_chars as int) == text.take(max_chars as int)
            &&& trailed_off(text, max_chars).last() == '…'
        },
{
    if text.len() > max_chars {
        assert(trailed_off(text, max_chars).take(max_chars as int) =~= text.take(
            max_chars as int,
        ));
    }
}

/// The number that decimal digits say, the last digit counting one.
pub open spec fn digits_value(digits: Seq<char>) -> nat
    decreases digits.len(),
{
    if digits.len() == 0 {
        0
    } else {
        digits_value(digits.drop_last()) * 10 + (digits.last() as nat - '0' as nat) as nat
    }
}

/// A numeral is made of decimal digits that say its number, and none of them is
/// a zero too many.
pub proof fn law_numerals_say_their_number(number: nat)
    ensures
        digits_value(decimal_text(number)) == number,
        forall|i: int|
            0 <= i < decimal_text(number).len() ==> '0' as nat <= (#[trigger] decimal_text(
                number,
            )[i]) as nat <= '9' as nat,
        decimal_text(number).len() > 0,
        decimal_text(number).len() > 1 ==> decimal_text(number)[0] != '0',
    decreases number,
{
    let text = decimal_text(number);
    if number < 10 {
        assert(text.drop_last() =~= Seq::empty());
        assert(digits_value(text.drop_last()) == 0);
    } else {
        law_numerals_say_their_number(number / 10);
        let head = decimal_text(number / 10);
        assert(text.drop_last() =~= head);
        assert(text[0] == head[0]);
        if head.len() == 1 {
            assert(head.drop_last() =~= Seq::empty());
            assert(digits_value(head.drop_last()) == 0);
        }
    }
}

} // verus!
