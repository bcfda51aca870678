//! Decimal rendering of integers, as the protocol writes them: plain digits,
//! no leading zeros, no separators, and a minus sign only for negative values.
use vstd::prelude::*;

verus! {

/// The character that stands for the digit `d`, for `0 <= d <= 9`.
pub open spec fn digit_char(d: int) -> char {
    ('0' as int + d) as char
}

/// The digit that the character `c` stands for.
pub open spec fn digit_value(c: char) -> int {
    c as int - '0' as int
}

/// Whether `c` is one of the ten decimal digits.
pub open spec fn is_digit(c: char) -> bool {
    '0' <= c <= '9'
}

/// The decimal numeral of `n`.
pub open spec fn decimal(n: nat) -> Seq<char>
    decreases n,
{
    if n < 10 {
        seq![digit_char(n as int)]
    } else {
        decimal(n / 10).push(digit_char((n % 10) as int))
    }
}

/// The decimal numeral of `i`, with a leading minus sign exactly when `i` is negative.
pub open spec fn signed_decimal(i: int) -> Seq<char> {
    if i < 0 {
        seq!['-'] + decimal((-i) as nat)
    } else {
        decimal(i as nat)
    }
}

/// The number that a string of digits denotes, read most significant digit first.
pub open spec fn decimal_value(s: Seq<char>) -> nat
    decreases s.len(),
{
    if s.len() == 0 {
        0
    } else {
        (decimal_value(s.drop_last()) * 10 + digit_value(s.last())) as nat
    }
}

/// A canonical numeral: at least one digit, digits only, and no leading zero
/// except for the numeral `0` itself.
pub open spec fn is_numeral(s: Seq<char>) -> bool {
    &&& s.len() >= 1
    &&& forall|k: int| 0 <= k < s.len() ==> is_digit(#[trigger] s[k])
    &&& (s[0] == '0' ==> s.len() == 1)
}

/// Appends the decimal numeral of `n` to `out`.
pub fn push_decimal(out: &mut String, n: u64)
    ensures
        final(out)@ == old(out)@ + decimal(n as nat),
    decreases n,
{
    if n >= 10 {
        push_decimal(out, n / 10);
    }
    let d: u8 = (n % 10) as u8;
    let c: char = (48u8 + d) as char;
    assert(c == digit_char((n % 10) as int));
    out.push(c);
    assert(out@ =~= old(out)@ + decimal(n as nat));
}

/// Appends the decimal numeral of `i` to `out`, after a minus sign if `i` is negative.
pub fn push_signed_decimal(out: &mut String, i: i64)
    ensures
        final(out)@ == old(out)@ + signed_decimal(i as int),
{
    if i < 0 {
        out.push('-');
        let magnitude: u64 = if i == i64::MIN {
            9223372036854775808u64
        } else {
            (-i) as u64
        };
        push_decimal(out, magnitude);
        assert(out@ =~= old(out)@ + signed_decimal(i as int));
    } else {
        push_decimal(out, i as u64);
    }
}

/// The number that a numeral with an optional leading minus sign denotes.
pub open spec fn signed_decimal_value(s: Seq<char>) -> int {
    if s.len() > 0 && s[0] == '-' {
        -(decimal_value(s.skip(1)) as int)
    } else {
        decimal_value(s) as int
    }
}

/// The numeral of a natural number is canonical: digits only, at least one,
/// and a leading zero only for zero itself.
pub proof fn lemma_decimal_is_numeral(n: nat)
    ensures
        is_numeral(decimal(n)),
        decimal(n)[0] == '0' ==> n == 0,
    decreases n,
{
    if n >= 10 {
        lemma_decimal_is_numeral(n / 10);
    }
}

/// Reading a numeral back gives the number it was written for.
pub proof fn lemma_decimal_value(n: nat)
    ensures
        decimal_value(decimal(n)) == n,
    decreases n,
{
    let s = decimal(n);
    if n < 10 {
        assert(s.drop_last() =~= Seq::<char>::empty());
        assert(decimal_value(s.drop_last()) == 0);
        assert(digit_value(s.last()) == n);
    } else {
        lemma_decimal_value(n / 10);
        assert(s.drop_last() =~= decimal(n / 10));
        assert(digit_value(s.last()) == n % 10);
    }
}

/// Every canonical numeral is the numeral of the number it denotes, so no
/// number has a second canonical spelling.
pub proof fn lemma_numeral_is_canonical(s: Seq<char>)
    requires
        is_numeral(s),
    ensures
        decimal(decimal_value(s)) == s,
    decreases s.len(),
{
    let last = s.last();
    let front = s.drop_last();
    assert(is_digit(last));
    if s.len() == 1 {
        assert(front =~= Seq::<char>::empty());
        assert(decimal_value(front) == 0);
        assert(decimal_value(s) == digit_value(last));
        assert(digit_char(digit_value(last)) == last);
        assert(decimal(decimal_value(s)) =~= s);
    } else {
        assert(front[0] == s[0]);
        assert(forall|k: int| 0 <= k < front.len() ==> front[k] == s[k]);
        lemma_numeral_is_canonical(front);
        let v = decimal_value(front);
        if v == 0 {
            assert(decimal(v)[0] == '0');
        }
        let d = digit_value(last);
        assert(decimal_value(s) == v * 10 + d);
        assert((v * 10 + d) / 10 == v && (v * 10 + d) % 10 == d);
        assert(digit_char(d) == last);
        assert(decimal(decimal_value(s)) =~= s);
    }
}

/// Different numbers have different numerals.
pub proof fn lemma_decimal_injective(a: nat, b: nat)
    requires
        decimal(a) == decimal(b),
    ensures
        a == b,
{
    lemma_decimal_value(a);
    lemma_decimal_value(b);
}

/// A signed numeral starts with a minus sign exactly when the number is
/// negative, and what follows the sign is the numeral of the magnitude.
pub proof fn lemma_signed_decimal_sign(i: int)
    ensures
        signed_decimal(i).len() >= 1,
        signed_decimal(i)[0] == '-' <==> i < 0,
        i < 0 ==> signed_decimal(i).skip(1) == decimal((-i) as nat),
{
    if i < 0 {
        lemma_decimal_is_numeral((-i) as nat);
        assert(signed_decimal(i).skip(1) =~= decimal((-i) as nat));
    } else {
        lemma_decimal_is_numeral(i as nat);
        assert(is_digit(decimal(i as nat)[0]));
    }
}

/// Reading a signed numeral back gives the number it was written for.
pub proof fn lemma_signed_decimal_value(i: int)
    ensures
        signed_decimal_value(signed_decimal(i)) == i,
{
    lemma_signed_decimal_sign(i);
    if i < 0 {
        lemma_decimal_value((-i) as nat);
    } else {
        lemma_decimal_value(i as nat);
    }
}

/// Different integers have different signed numerals.
pub proof fn lemma_signed_decimal_injective(i: int, j: int)
    requires
        signed_decimal(i) == signed_decimal(j),
    ensures
        i == j,
{
    lemma_signed_decimal_value(i);
    lemma_signed_decimal_value(j);
}

} // verus!
