//! End-of-round reporting: the panel the renderer is asked to show, and the
//! exact lines of text it carries.

use vstd::prelude::*;
use vstd::arithmetic::div_mod::lemma_div_decreases;
use vstd::string::StringExecFns;

verus! {

/// The character of one decimal digit.
pub open spec fn spec_digit(d: int) -> char {
    if d == 0 {
        '0'
    } else if d == 1 {
        '1'
    } else if d == 2 {
        '2'
    } else if d == 3 {
        '3'
    } else if d == 4 {
        '4'
    } else if d == 5 {
        '5'
    } else if d == 6 {
        '6'
    } else if d == 7 {
        '7'
    } else if d == 8 {
        '8'
    } else {
        '9'
    }
}

/// The usual decimal writing of a non-negative integer: no leading zeros,
/// except that zero itself is written "0".
pub open spec fn spec_decimal(n: int) -> Seq<char>
    decreases n,
    when n >= 0
    via spec_decimal_decreases
{
    if n < 10 {
        seq![spec_digit(n)]
    } else {
        spec_decimal(n / 10) + seq![spec_digit(n % 10)]
    }
}

#[via_fn]
proof fn spec_decimal_decreases(n: int) {
    if n >= 10 {
        lemma_div_decreases(n, 10);
    }
}

/// The one-character string of a decimal digit.
fn digit_str(d: u32) -> (s: &'static str)
    requires
        d < 10,
    ensures
        s@ =~= seq![spec_digit(d as int)],
{
    proof {
        reveal_strlit("0");
        reveal_strlit("1");
        reveal_strlit("2");
        reveal_strlit("3");
        reveal_strlit("4");
        reveal_strlit("5");
        reveal_strlit("6");
        reveal_strlit("7");
        reveal_strlit("8");
        reveal_strlit("9");
    }
    match d {
        0 => "0",
        1 => "1",
        2 => "2",
        3 => "3",
        4 => "4",
        5 => "5",
        6 => "6",
        7 => "7",
        8 => "8",
        _ => "9",
    }
}

/// The low-to-high digit sequence `ds`, read back most significant first.
pub open spec fn digits_reversed(ds: Seq<u32>) -> Seq<char> {
    Seq::new(ds.len(), |i: int| spec_digit(ds[ds.len() - 1 - i] as int))
}

/// Write a number in decimal.
pub fn u32_decimal(n: u32) -> (s: String)
    ensures
        s@ == spec_decimal(n as int),
{
    let mut digits: Vec<u32> = Vec::new();
    let mut m: u32 = n;
    while m >= 10
        invariant
            spec_decimal(n as int) =~= spec_decimal(m as int) + digits_reversed(digits@),
            forall|i: int| 0 <= i < digits@.len() ==> #[trigger] digits@[i] < 10,
        decreases m,
    {
        let d: u32 = m % 10;
        proof {
            let ghost old_digits = digits@;
            assert(digits_reversed(old_digits.push(d)) =~= seq![spec_digit(d as int)]
                + digits_reversed(old_digits));
            assert(spec_decimal(m as int) == spec_decimal(m as int / 10) + seq![
                spec_digit(m as int % 10),
            ]);
        }
        digits.push(d);
        m = m / 10;
        proof {
            assert(spec_decimal(n as int) =~= spec_decimal(m as int) + digits_reversed(digits@));
        }
    }
    let mut s: String = String::from_str(digit_str(m));
    let total: usize = digits.len();
    let mut k: usize = 0;
    while k < total
        invariant
            total == digits@.len(),
            0 <= k <= total,
            forall|i: int| 0 <= i < total ==> #[trigger] digits@[i] < 10,
            s@ =~= spec_decimal(m as int) + digits_reversed(digits@).take(k as int),
            spec_decimal(n as int) =~= spec_decimal(m as int) + digits_reversed(digits@),
            m < 10,
        decreases total - k,
    {
        let d: u32 = digits[total - 1 - k];
        s.append(digit_str(d));
        proof {
            assert(digits_reversed(digits@)[k as int] == spec_digit(d as int));
            assert(digits_reversed(digits@).take(k as int + 1) =~= digits_reversed(
                digits@,
            ).take(k as int).push(spec_digit(d as int)));
            assert(s@ =~= spec_decimal(m as int) + digits_reversed(digits@).take(k as int + 1));
        }
        k = k + 1;
    }
    proof {
        assert(digits_reversed(digits@).take(total as int) =~= digits_reversed(digits@));
        assert(s@ =~= spec_decimal(n as int));
    }
    s
}

/// How the finished round's score compares to the remembered one.
#[derive(PartialEq, Eq, Structural, Clone, Copy, Debug)]
pub enum Comparison {
    Higher,
    Lower,
    Same,
}

/// The comparison of a finished round's score with the one remembered from
/// the round before.
pub open spec fn spec_compare(score: int, last: int) -> Comparison {
    if score > last {
        Comparison::Higher
    } else if score < last {
        Comparison::Lower
    } else {
        Comparison::Same
    }
}

/// Compare the finished round's score with the remembered one.
pub fn compare_scores(score: u32, last: u32) -> (c: Comparison)
    ensures
        c == spec_compare(score as int, last as int),
{
    if score > last {
        Comparison::Higher
    } else if score < last {
        Comparison::Lower
    } else {
        Comparison::Same
    }
}

/// The end-of-round panel the renderer is asked to show: which headline to
/// draw, the final score to print after it, and the comparison line, absent
/// on the very first round.
#[derive(PartialEq, Eq, Structural, Clone, Copy, Debug)]
pub struct Panel {
    pub won: bool,
    pub score: u32,
    pub compare: Option<Comparison>,
}

/// The headline opener; the renderer prints the final score after it.
pub fn headline_text(won: bool) -> (s: &'static str)
    ensures
        won ==> s@ == "Congratulations! Final Score: "@,
        !won ==> s@ == "Game Over! Final Score: "@,
{
    if won {
        "Congratulations! Final Score: "
    } else {
        "Game Over! Final Score: "
    }
}

/// The full headline of the panel: the opener for the outcome, then the
/// final score in decimal.
pub fn headline_line(won: bool, score: u32) -> (s: String)
    ensures
        won ==> s@ == "Congratulations! Final Score: "@ + spec_decimal(score as int),
        !won ==> s@ == "Game Over! Final Score: "@ + spec_decimal(score as int),
{
    let mut s: String = String::from_str(headline_text(won));
    let num: String = u32_decimal(score);
    s.append(num.as_str());
    s
}

/// The comparison line shown under the headline.
pub fn comparison_text(c: Comparison) -> (s: &'static str)
    ensures
        c == Comparison::Higher ==> s@ == "Better than just now"@,
        c == Comparison::Lower ==> s@ == "Keep up the good work"@,
        c == Comparison::Same ==> s@ == "Keep it up"@,
{
    match c {
        Comparison::Higher => "Better than just now",
        Comparison::Lower => "Keep up the good work",
        Comparison::Same => "Keep it up",
    }
}

/// The static restart hint shown at the bottom of the panel.
pub fn restart_hint_text() -> (s: &'static str)
    ensures
        s@ == "Press R to restart"@,
{
    "Press R to restart"
}

} // verus!
