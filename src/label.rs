//! Labels written from numbers.
use vstd::prelude::*;

verus! {

/// The decimal digit `d`.
pub open spec fn digit_char(d: nat) -> char {
    if d == 0 { '0' } else if d == 1 { '1' } else if d == 2 { '2' } else if d == 3 { '3' }
    else if d == 4 { '4' } else if d == 5 { '5' } else if d == 6 { '6' } else if d == 7 { '7' }
    else if d == 8 { '8' } else { '9' }
}

/// The decimal digits of `n`, most significant first.
pub open spec fn decimal(n: nat) -> Seq<char>
    decreases n,
{
    if n < 10 {
        seq![digit_char(n)]
    } else {
        decimal(n / 10).push(digit_char(n % 10))
    }
}

/// The first two digits of `n`, the second a blank where `n` has one digit.
pub open spec fn two_digit_label(n: nat) -> (char, char) {
    (decimal(n)[0], if decimal(n).len() >= 2 { decimal(n)[1] } else { ' ' })
}

proof fn lemma_decimal_len(n: nat)
    ensures
        decimal(n).len() >= 1,
        n >= 10 ==> decimal(n).len() >= 2,
    decreases n,
{
    if n >= 10 {
        lemma_decimal_len(n / 10);
    }
}

proof fn lemma_label_of_prefix(n: nat)
    requires
        n >= 100,
    ensures
        two_digit_label(n / 10) == two_digit_label(n),
{
    lemma_decimal_len(n / 10);
    assert(decimal(n) == decimal(n / 10).push(digit_char(n % 10)));
}

fn digit(d: u32) -> (c: char)
    requires
        d < 10,
    ensures
        c == digit_char(d as nat),
{
    if d == 0 { '0' } else if d == 1 { '1' } else if d == 2 { '2' } else if d == 3 { '3' }
    else if d == 4 { '4' } else if d == 5 { '5' } else if d == 6 { '6' } else if d == 7 { '7' }
    else if d == 8 { '8' } else { '9' }
}

/// The two glyphs that label a count: its first two decimal digits, or its one
/// digit and a blank.
pub fn count_label(count: u32) -> (r: (char, char))
    ensures
        r == two_digit_label(count as nat),
{
    let mut m: u32 = count;
    while m >= 100
        invariant
            two_digit_label(m as nat) == two_digit_label(count as nat),
        decreases m,
    {
        proof {
            lemma_label_of_prefix(m as nat);
        }
        m = m / 10;
    }
    if m >= 10 {
        proof {
            let hi = (m / 10) as nat;
            assert(hi < 10);
            assert(decimal(hi) == seq![digit_char(hi)]);
            assert(decimal(m as nat) == decimal(hi).push(digit_char((m % 10) as nat)));
            assert(decimal(m as nat)[0] == digit_char(hi));
            assert(decimal(m as nat)[1] == digit_char((m % 10) as nat));
        }
        (digit(m / 10), digit(m % 10))
    } else {
        (digit(m), ' ')
    }
}

} // verus!
