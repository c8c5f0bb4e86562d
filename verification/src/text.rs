//! Text for the screen and for HTTP headers: decimal numbers and the pieces put round them.

use vstd::arithmetic::div_mod;
use vstd::arithmetic::power;
use vstd::prelude::*;
use vstd::string::*;

verus! {

/// The character of a decimal digit.
pub open spec fn digit(d: int) -> char {
    (48 + d) as char
}

/// The decimal notation of a number, without leading zeros.
pub open spec fn decimal(n: nat) -> Seq<char>
    decreases n,
{
    if n < 10 {
        seq![digit(n as int)]
    } else {
        decimal(n / 10).push(digit((n % 10) as int))
    }
}

/// The number that a sequence of decimal digits denotes.
pub open spec fn decimal_value(s: Seq<char>) -> int
    decreases s.len(),
{
    if s.len() == 0 {
        0
    } else {
        10 * decimal_value(s.drop_last()) + (s.last() as int - 48)
    }
}

/// The notation of a number denotes that number.
pub proof fn decimal_denotes(n: nat)
    ensures
        decimal_value(decimal(n)) == n,
    decreases n,
{
    if n < 10 {
        assert(decimal(n).drop_last() =~= Seq::<char>::empty());
        assert(decimal_value(decimal(n).drop_last()) == 0);
    } else {
        decimal_denotes(n / 10);
        assert(decimal(n).drop_last() =~= decimal(n / 10));
    }
}

fn digit_text(d: u8) -> (s: &'static str)
    requires
        d < 10,
    ensures
        s@ == seq![digit(d as int)],
{
    proof {
        reveal_strlit("0");
        reveal_strlit("1");
        reveal_strlit("2");
        reveal_strlit("3");
        reveal_strlit("4");
        reveal_strlit("5");
        reveal_strlit("6");
        reveal_strlit("7");
        reveal_strlit("8");
        reveal_strlit("9");
    }
    match d {
        0 => "0",
        1 => "1",
        2 => "2",
        3 => "3",
        4 => "4",
        5 => "5",
        6 => "6",
        7 => "7",
        8 => "8",
        _ => "9",
    }
}

/// Appends the decimal notation of `n`.
pub fn push_decimal(out: &mut String, n: u128)
    ensures
        final(out)@ == old(out)@ + decimal(n as nat),
    decreases n,
{
    if n >= 10 {
        push_decimal(out, n / 10);
    }
    out.append(digit_text((n % 10) as u8));
    assert(out@ =~= old(out)@ + decimal(n as nat));
}

/// The decimal notation of `n`.
pub fn decimal_text(n: u128) -> (s: String)
    ensures
        s@ == decimal(n as nat),
{
    let mut s = String::new();
    push_decimal(&mut s, n);
    assert(s@ =~= decimal(n as nat));
    s
}

/// The notation of a number has as many characters as the number has decimal places, and the
/// character at each place is the digit `0` to `9` that the number has there. In particular it
/// holds nothing but digits and, but for zero itself, starts with none that is zero.
pub proof fn decimal_has_the_digit_of_each_place(n: nat)
    ensures
        decimal(n).len() >= 1,
        n == 0 ==> decimal(n).len() == 1,
        n > 0 ==> power::pow(10, (decimal(n).len() - 1) as nat) <= n,
        n < power::pow(10, decimal(n).len()),
        forall|i: int|
            0 <= i < decimal(n).len() ==> (#[trigger] decimal(n)[i]) as int == '0' as int + n as int
                / power::pow(10, (decimal(n).len() - 1 - i) as nat) % 10,
        forall|i: int| 0 <= i < decimal(n).len() ==> '0' <= #[trigger] decimal(n)[i] <= '9',
        n > 0 ==> decimal(n)[0] != '0',
    decreases n,
{
    power::lemma_pow0(10);
    power::lemma_pow1(10);
    let s = decimal(n);
    if n < 10 {
        assert(s.len() == 1);
        assert(n as int / 1 == n);
    } else {
        let q = n / 10;
        let rest = decimal(q);
        let len = s.len() as int;
        decimal_has_the_digit_of_each_place(q);
        assert(rest.len() == len - 1);
        assert forall|e: nat| #[trigger] power::pow(10, e + 1) == 10 * power::pow(10, e) by {
            reveal(power::pow);
        }
        assert(power::pow(10, ((len - 2) as nat) + 1) == 10 * power::pow(10, (len - 2) as nat));
        assert(power::pow(10, ((len - 1) as nat) + 1) == 10 * power::pow(10, (len - 1) as nat));
        assert forall|i: int| 0 <= i < len implies (#[trigger] s[i]) as int == '0' as int + n as int
            / power::pow(10, (len - 1 - i) as nat) % 10 by {
            if i < len - 1 {
                let e = (len - 2 - i) as nat;
                power::lemma_pow_positive(10, e);
                div_mod::lemma_div_denominator(n as int, 10, power::pow(10, e));
                assert(s[i] == rest[i]);
                assert(power::pow(10, e + 1) == 10 * power::pow(10, e));
            } else {
                assert(n as int / 1 == n);
            }
        }
        assert(s[0] == rest[0]);
        assert forall|i: int| 0 <= i < len implies '0' <= #[trigger] s[i] <= '9' by {
            if i < len - 1 {
                assert(s[i] == rest[i]);
            }
        }
    }
}

/// Two numbers with the same notation are the same number.
pub proof fn decimal_is_injective(m: nat, n: nat)
    requires
        decimal(m) == decimal(n),
    ensures
        m == n,
{
    decimal_denotes(m);
    decimal_denotes(n);
}

} // verus!
