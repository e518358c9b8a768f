//! Decimal numerals.
use vstd::prelude::*;

verus! {

/// The character of the digit `d`, for `d < 10`.
pub open spec fn digit(d: nat) -> char {
    ('0' as nat + d) as char
}

/// Whether `c` is one of `0` to `9`.
pub open spec fn is_digit(c: char) -> bool {
    '0' <= c <= '9'
}

/// The decimal numeral of `n`, without leading zeros.
pub open spec fn decimal(n: nat) -> Seq<char>
    decreases n,
{
    if n < 10 {
        seq![digit(n)]
    } else {
        decimal(n / 10).push(digit(n % 10))
    }
}

/// A numeral is not empty and holds digits only.
pub proof fn lemma_decimal_digits(n: nat)
    ensures
        decimal(n).len() > 0,
        forall|i: int| 0 <= i < decimal(n).len() ==> is_digit(#[trigger] decimal(n)[i]),
    decreases n,
{
    if n >= 10 {
        lemma_decimal_digits(n / 10);
    }
}

/// Different numbers have different numerals.
pub proof fn law_decimal_injective(m: nat, n: nat)
    requires
        decimal(m) == decimal(n),
    ensures
        m == n,
    decreases m,
{
    lemma_decimal_digits(m / 10);
    lemma_decimal_digits(n / 10);
    assert(decimal(m).last() == digit(m % 10));
    assert(decimal(n).last() == digit(n % 10));
    if m >= 10 && n >= 10 {
        assert(decimal(m).drop_last() =~= decimal(m / 10));
        assert(decimal(n).drop_last() =~= decimal(n / 10));
        law_decimal_injective(m / 10, n / 10);
    }
}

/// The number that a string of digits stands for, by the places of its digits.
pub open spec fn value(s: Seq<char>) -> int
    decreases s.len(),
{
    if s.len() == 0 {
        0
    } else {
        10 * value(s.drop_last()) + (s.last() as int - '0' as int)
    }
}

/// Whether the string is how `n` is written: digits that stand for `n`, the first of them no zero
/// unless it is alone.
pub open spec fn is_numeral(s: Seq<char>, n: int) -> bool {
    &&& s.len() > 0
    &&& forall|i: int| 0 <= i < s.len() ==> '0' <= #[trigger] s[i] <= '9'
    &&& s.len() > 1 ==> s[0] != '0'
    &&& value(s) == n
}

/// A string of digits that does not begin with a zero stands for no less than 1.
proof fn lemma_value_positive(s: Seq<char>)
    requires
        s.len() > 0,
        forall|i: int| 0 <= i < s.len() ==> '0' <= #[trigger] s[i] <= '9',
        s[0] != '0',
    ensures
        value(s) >= 1,
    decreases s.len(),
{
    reveal_with_fuel(value, 2);
    if s.len() > 1 {
        assert(s.drop_last()[0] == s[0]);
        lemma_value_positive(s.drop_last());
    }
}

/// `decimal` writes every number, and in the one way in which it can be written.
pub proof fn law_decimal_is_the_numeral(n: nat)
    ensures
        is_numeral(decimal(n), n as int),
        forall|s: Seq<char>| #[trigger] is_numeral(s, n as int) ==> s == decimal(n),
{
    lemma_decimal_is_numeral(n);
    assert forall|s: Seq<char>| #[trigger] is_numeral(s, n as int) implies s == decimal(n) by {
        lemma_numeral_is_decimal(s, n);
    }
}

/// [`push_decimal`] leaves what is there and appends the number as it is written.
pub proof fn law_numeral_is_appended(out: &mut String, n: u32)
    requires
        call_ensures(push_decimal, (out, n), ()),
    ensures
        old(out)@.is_prefix_of(final(out)@),
        is_numeral(final(out)@.skip(old(out)@.len() as int), n as int),
{
    law_decimal_is_the_numeral(n as nat);
    assert(final(out)@.skip(old(out)@.len() as int) =~= decimal(n as nat));
}

/// What `decimal` writes is a numeral of the number.
proof fn lemma_decimal_is_numeral(n: nat)
    ensures
        is_numeral(decimal(n), n as int),
        n > 0 ==> decimal(n)[0] != '0',
    decreases n,
{
    reveal_with_fuel(value, 2);
    lemma_decimal_digits(n);
    if n >= 10 {
        lemma_decimal_is_numeral(n / 10);
        assert(decimal(n).drop_last() =~= decimal(n / 10));
        assert(decimal(n)[0] == decimal(n / 10)[0]);
    }
}

/// A numeral of the number is what `decimal` writes.
proof fn lemma_numeral_is_decimal(s: Seq<char>, n: nat)
    requires
        is_numeral(s, n as int),
    ensures
        s == decimal(n),
    decreases s.len(),
{
    reveal_with_fuel(value, 2);
    let last = s.last();
    assert(s[s.len() - 1] == last);
    if s.len() == 1 {
        assert(s.drop_last().len() == 0);
        assert(s =~= seq![digit(n)]);
    } else {
        let rest = s.drop_last();
        assert forall|i: int| 0 <= i < rest.len() implies '0' <= #[trigger] rest[i] <= '9' by {
            assert(rest[i] == s[i]);
        }
        assert(rest[0] == s[0]);
        lemma_value_positive(rest);
        assert(n / 10 == value(rest) && n % 10 == last as int - '0' as int);
        lemma_numeral_is_decimal(rest, n / 10);
        assert(s =~= rest.push(last));
    }
}

/// The one-character string of the digit `d`.
fn digit_str(d: u32) -> (s: &'static str)
    requires
        d < 10,
    ensures
        s@ == seq![digit(d as nat)],
{
    proof {
        reveal_strlit("0");
        reveal_strlit("1");
        reveal_strlit("2");
        reveal_strlit("3");
        reveal_strlit("4");
        reveal_strlit("5");
        reveal_strlit("6");
        reveal_strlit("7");
        reveal_strlit("8");
        reveal_strlit("9");
    }
    if d == 0 {
        "0"
    } else if d == 1 {
        "1"
    } else if d == 2 {
        "2"
    } else if d == 3 {
        "3"
    } else if d == 4 {
        "4"
    } else if d == 5 {
        "5"
    } else if d == 6 {
        "6"
    } else if d == 7 {
        "7"
    } else if d == 8 {
        "8"
    } else {
        "9"
    }
}

/// Appends the decimal numeral of `n` to `out`.
pub fn push_decimal(out: &mut String, n: u32)
    ensures
        final(out)@ == old(out)@ + decimal(n as nat),
    decreases n,
{
    if n >= 10 {
        push_decimal(out, n / 10);
    }
    out.append(digit_str(n % 10));
}

} // verus!
