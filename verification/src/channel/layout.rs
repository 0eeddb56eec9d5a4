//! The layout of a directory queue: segment `n` is the file named `n`.
//!
//! The name is the decimal numeral of the index, without sign, padding or
//! extension. Nothing else in the directory says in which order the segments
//! come, so that distinct indices need distinct names.
use vstd::prelude::*;
use vstd::string::*;

verus! {

/// The character for a decimal digit.
pub open spec fn digit(value: nat) -> char {
    if value == 0 {
        '0'
    } else if value == 1 {
        '1'
    } else if value == 2 {
        '2'
    } else if value == 3 {
        '3'
    } else if value == 4 {
        '4'
    } else if value == 5 {
        '5'
    } else if value == 6 {
        '6'
    } else if value == 7 {
        '7'
    } else if value == 8 {
        '8'
    } else {
        '9'
    }
}

/// The value of a decimal digit.
pub open spec fn digit_value(character: char) -> nat {
    if character == '0' {
        0
    } else if character == '1' {
        1
    } else if character == '2' {
        2
    } else if character == '3' {
        3
    } else if character == '4' {
        4
    } else if character == '5' {
        5
    } else if character == '6' {
        6
    } else if character == '7' {
        7
    } else if character == '8' {
        8
    } else {
        9
    }
}

/// The decimal numeral of a number: its digits, the most significant first,
/// and a single `0` for zero.
pub open spec fn decimal(number: nat) -> Seq<char>
    decreases number,
{
    if number < 10 {
        seq![digit(number)]
    } else {
        decimal(number / 10).push(digit(number % 10))
    }
}

/// The number that a row of decimal digits stands for.
pub open spec fn number_of(digits: Seq<char>) -> nat
    decreases digits.len(),
{
    if digits.len() == 0 {
        0
    } else {
        number_of(digits.drop_last()) * 10 + digit_value(digits.last())
    }
}

/// A numeral stands for the number it was made of.
pub proof fn lemma_decimal_reads_back(number: nat)
    ensures
        number_of(decimal(number)) == number,
        decimal(number).len() >= 1,
    decreases number,
{
    if number < 10 {
        let numeral = decimal(number);
        assert(numeral.drop_last() =~= Seq::<char>::empty());
        assert(numeral.last() == digit(number));
        reveal_with_fuel(number_of, 2);
    } else {
        lemma_decimal_reads_back(number / 10);
        let numeral = decimal(number);
        assert(numeral.drop_last() =~= decimal(number / 10));
        assert(numeral.last() == digit(number % 10));
    }
}

/// Distinct segments have distinct names.
pub proof fn law_segment_names_are_unique(left: nat, right: nat)
    requires
        decimal(left) == decimal(right),
    ensures
        left == right,
{
    lemma_decimal_reads_back(left);
    lemma_decimal_reads_back(right);
}

fn digit_str(value: u64) -> (text: &'static str)
    requires
        value < 10,
    ensures
        text@ == seq![digit(value as nat)],
{
    proof {
        reveal_strlit("0");
        reveal_strlit("1");
        reveal_strlit("2");
        reveal_strlit("3");
        reveal_strlit("4");
        reveal_strlit("5");
        reveal_strlit("6");
        reveal_strlit("7");
        reveal_strlit("8");
        reveal_strlit("9");
    }
    let text = if value == 0 {
        "0"
    } else if value == 1 {
        "1"
    } else if value == 2 {
        "2"
    } else if value == 3 {
        "3"
    } else if value == 4 {
        "4"
    } else if value == 5 {
        "5"
    } else if value == 6 {
        "6"
    } else if value == 7 {
        "7"
    } else if value == 8 {
        "8"
    } else {
        "9"
    };
    assert(text@ =~= seq![digit(value as nat)]);
    text
}

/// The name of the file that holds the segment with this index.
pub fn segment_file_name(index: u64) -> (name: String)
    ensures
        name@ == decimal(index as nat),
    decreases index,
{
    if index < 10 {
        String::from_str(digit_str(index))
    } else {
        let mut name = segment_file_name(index / 10);
        name.append(digit_str(index % 10));
        assert(name@ =~= decimal(index as nat));
        name
    }
}

} // verus!
