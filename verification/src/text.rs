//! Numbers as decimal text, for the reports.

use vstd::prelude::*;
use vstd::string::StringExecFns;

verus! {

/// The character of one decimal digit.
pub open spec fn digit_char(digit: nat) -> char {
    if digit == 0 {
        '0'
    } else if digit == 1 {
        '1'
    } else if digit == 2 {
        '2'
    } else if digit == 3 {
        '3'
    } else if digit == 4 {
        '4'
    } else if digit == 5 {
        '5'
    } else if digit == 6 {
        '6'
    } else if digit == 7 {
        '7'
    } else if digit == 8 {
        '8'
    } else {
        '9'
    }
}

/// The decimal digits of `n`, the most significant first, without leading
/// zeros.
pub open spec fn decimal_text(n: nat) -> Seq<char>
    decreases n,
{
    if n < 10 {
        seq![digit_char(n)]
    } else {
        decimal_text(n / 10).push(digit_char(n % 10))
    }
}

/// The characters of digits that are held the least significant first.
pub open spec fn reversed_text(digits: Seq<u8>) -> Seq<char>
    decreases digits.len(),
{
    if digits.len() == 0 {
        Seq::empty()
    } else {
        seq![digit_char(digits.last() as nat)] + reversed_text(digits.drop_last())
    }
}

fn digit_text(digit: u8) -> (text: &'static str)
    requires
        digit < 10,
    ensures
        text@ == seq![digit_char(digit as nat)],
{
    proof {
        reveal_strlit("0");
        reveal_strlit("1");
        reveal_strlit("2");
        reveal_strlit("3");
        reveal_strlit("4");
        reveal_strlit("5");
        reveal_strlit("6");
        reveal_strlit("7");
        reveal_strlit("8");
        reveal_strlit("9");
    }
    let text = match digit {
        0 => "0",
        1 => "1",
        2 => "2",
        3 => "3",
        4 => "4",
        5 => "5",
        6 => "6",
        7 => "7",
        8 => "8",
        _ => "9",
    };
    proof {
        assert(text@ =~= seq![digit_char(digit as nat)]);
    }
    text
}

/// Appends `n` in decimal to `text`.
pub fn append_decimal(text: &mut String, n: u64)
    ensures
        final(text)@ == old(text)@ + decimal_text(n as nat),
{
    let mut digits: Vec<u8> = Vec::new();
    let mut rest = n;
    while rest >= 10
        invariant
            decimal_text(n as nat) == decimal_text(rest as nat) + reversed_text(digits@),
            forall|i: int| 0 <= i < digits.len() ==> digits[i] < 10,
        decreases rest,
    {
        let digit = (rest % 10) as u8;
        proof {
            let longer = digits@.push(digit);
            assert(longer.drop_last() =~= digits@);
            assert(decimal_text((rest / 10) as nat) + reversed_text(longer) =~= decimal_text(rest as nat)
                + reversed_text(digits@));
        }
        digits.push(digit);
        rest = rest / 10;
    }
    proof {
        let longer = digits@.push(rest as u8);
        assert(longer.drop_last() =~= digits@);
        assert(reversed_text(longer) =~= decimal_text(rest as nat) + reversed_text(digits@));
    }
    digits.push(rest as u8);

    let mut index = digits.len();
    proof {
        assert(digits@.take(index as int) =~= digits@);
    }
    while index > 0
        invariant
            index <= digits.len(),
            reversed_text(digits@) == decimal_text(n as nat),
            forall|i: int| 0 <= i < digits.len() ==> digits[i] < 10,
            text@ + reversed_text(digits@.take(index as int)) == old(text)@ + reversed_text(digits@),
        decreases index,
    {
        proof {
            let head = digits@.take(index as int);
            assert(head.drop_last() =~= digits@.take(index - 1));
            assert((text@ + seq![digit_char(digits[index - 1] as nat)]) + reversed_text(
                digits@.take(index - 1),
            ) =~= text@ + reversed_text(head));
        }
        index -= 1;
        text.append(digit_text(digits[index]));
    }
    proof {
        assert(text@ + reversed_text(digits@.take(0)) =~= text@);
    }
}

} // verus!
