//! Layout arithmetic for rendering diagnostics.
use vstd::prelude::*;

use crate::text::push_char;

verus! {

/// The number of decimal digits of a positive number; 0 for the rest.
pub open spec fn digit_count(n: int) -> int
    decreases n,
{
    if n <= 0 {
        0
    } else {
        1 + digit_count(n / 10)
    }
}

spec fn ten_to(k: nat) -> int
    decreases k,
{
    if k == 0 {
        1
    } else {
        10 * ten_to((k - 1) as nat)
    }
}

proof fn lemma_digit_count_bound(n: int, k: nat)
    requires
        n < ten_to(k),
    ensures
        0 <= digit_count(n) <= k,
    decreases k,
{
    if n > 0 && k > 0 {
        let t = ten_to((k - 1) as nat);
        assert(n / 10 < t) by (nonlinear_arith)
            requires
                n < 10 * t,
                n > 0,
        ;
        lemma_digit_count_bound(n / 10, (k - 1) as nat);
    } else if n > 0 {
        assert(ten_to(0) == 1);
    }
}

/// The number of decimal digits of `number`, or 0 when it is not positive.
pub fn get_count_of_digits(number: i32) -> (r: i32)
    ensures
        r == digit_count(number as int),
{
    proof {
        reveal_with_fuel(ten_to, 11);
        lemma_digit_count_bound(number as int, 10);
    }
    let mut number_of_digits: i32 = 0;
    let mut tmp_num = number;
    while tmp_num > 0
        invariant
            0 <= number_of_digits <= 10 - digit_count(tmp_num as int),
            number_of_digits + digit_count(tmp_num as int) == digit_count(number as int),
            digit_count(number as int) <= 10,
        decreases tmp_num,
    {
        proof {
            reveal_with_fuel(ten_to, 11);
            lemma_digit_count_bound(tmp_num / 10, 10);
        }
        number_of_digits = number_of_digits + 1;
        tmp_num = tmp_num / 10;
    }
    number_of_digits
}

/// `amount` spaces; none when `amount` is not positive.
pub fn generate_spaces(amount: i32) -> (r: String)
    ensures
        r@ == Seq::new(if amount > 0 { amount as nat } else { 0 }, |i: int| ' '),
{
    let mut spaces = String::new();
    let mut i: i32 = 0;
    while i < amount
        invariant
            0 <= i,
            amount > 0 ==> i <= amount,
            amount <= 0 ==> i == 0,
            spaces@ == Seq::new(i as nat, |j: int| ' '),
        decreases amount - i,
    {
        push_char(&mut spaces, ' ');
        i = i + 1;
        assert(spaces@ =~= Seq::new(i as nat, |j: int| ' '));
    }
    assert(spaces@ =~= Seq::new(if amount > 0 { amount as nat } else { 0 }, |j: int| ' '));
    spaces
}

} // verus!
