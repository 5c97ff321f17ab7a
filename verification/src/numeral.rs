//! Decimal numerals.

use vstd::prelude::*;

verus! {

/// The character of a decimal digit.
pub open spec fn digit(d: int) -> char
    recommends
        0 <= d < 10,
{
    (48 + d) as char
}

/// The decimal numeral of a natural number, without leading zeros.
pub open spec fn decimal(n: nat) -> Seq<char>
    decreases n,
{
    if n < 10 {
        seq![digit(n as int)]
    } else {
        decimal(n / 10).push(digit((n % 10) as int))
    }
}

/// The decimal numeral of an integer, with a minus sign if it is negative.
pub open spec fn signed_decimal(n: int) -> Seq<char> {
    if n < 0 {
        seq!['-'] + decimal((-n) as nat)
    } else {
        decimal(n as nat)
    }
}

/// Appends a decimal numeral.
pub fn push_decimal(out: &mut String, n: u64)
    ensures
        final(out)@ == old(out)@ + decimal(n as nat),
    decreases n,
{
    if n >= 10 {
        push_decimal(out, n / 10);
    }
    out.push((48u8 + (n % 10) as u8) as char);
    assert(out@ =~= old(out)@ + decimal(n as nat));
}

/// Appends a decimal numeral with its sign.
pub fn push_signed_decimal(out: &mut String, n: i32)
    ensures
        final(out)@ == old(out)@ + signed_decimal(n as int),
{
    if n < 0 {
        out.push('-');
        push_decimal(out, (-(n as i64)) as u64);
    } else {
        push_decimal(out, n as u64);
    }
    assert(out@ =~= old(out)@ + signed_decimal(n as int));
}

/// Whether a character is a decimal digit.
pub open spec fn is_digit(c: char) -> bool {
    '0' <= c <= '9'
}

/// The number that a sequence of decimal digits stands for.
pub open spec fn numeral_value(s: Seq<char>) -> nat
    decreases s.len(),
{
    if s.len() == 0 {
        0
    } else {
        10 * numeral_value(s.drop_last()) + (s.last() as nat - 48) as nat
    }
}

/// A decimal numeral without the plus sign that may stand before it.
pub open spec fn unsigned_part(s: Seq<char>) -> Seq<char> {
    if s.len() > 0 && s.first() == '+' {
        s.drop_first()
    } else {
        s
    }
}

/// The number that a text names: at least one decimal digit and nothing but
/// digits, after an optional plus sign, with a value that fits in 64 bits.
pub open spec fn parsed_u64(s: Seq<char>) -> Option<u64> {
    let digits = unsigned_part(s);
    if digits.len() > 0 && (forall|i: int| 0 <= i < digits.len() ==> is_digit(#[trigger] digits[i]))
        && numeral_value(digits) <= u64::MAX {
        Some(numeral_value(digits) as u64)
    } else {
        None
    }
}

proof fn lemma_value_monotone(s: Seq<char>, at: int)
    requires
        0 <= at <= s.len(),
    ensures
        numeral_value(s.take(at)) <= numeral_value(s),
    decreases s.len(),
{
    if at == s.len() {
        assert(s.take(at) =~= s);
    } else {
        lemma_value_monotone(s.drop_last(), at);
        assert(s.drop_last().take(at) =~= s.take(at));
    }
}

/// Reads a decimal numeral of at most 64 bits.
pub fn parse_u64(s: &str) -> (n: Option<u64>)
    ensures
        n == parsed_u64(s@),
{
    let len: usize = s.unicode_len();
    let digits: &str = if len > 0 && s.get_char(0) == '+' {
        assert(s@.subrange(1, len as int) =~= s@.drop_first());
        s.substring_char(1, len)
    } else {
        s
    };
    if digits.is_empty() {
        return None;
    }
    let mut value: u64 = 0;
    assert(digits@.take(0) =~= Seq::<char>::empty());
    for c in it: digits.chars()
        invariant
            it.seq() == digits@,
            digits@ == unsigned_part(s@),
            forall|i: int| 0 <= i < it.index() ==> is_digit(#[trigger] digits@[i]),
            value == numeral_value(digits@.take(it.index() as int)),
    {
        assert(digits@[it.index() as int] == c);
        if !('0' <= c && c <= '9') {
            return None;
        }
        let ghost shorter = digits@.take(it.index() as int);
        let ghost longer = digits@.take(it.index() + 1);
        assert(longer.drop_last() =~= shorter);
        let d: u64 = (c as u32 - 48) as u64;
        proof {
            lemma_value_monotone(digits@, it.index() + 1);
        }
        if value > (u64::MAX - d) / 10 {
            return None;
        }
        value = value * 10 + d;
    }
    assert(digits@.take(digits@.len() as int) =~= digits@);
    Some(value)
}

proof fn lemma_decimal(n: nat)
    ensures
        decimal(n).len() > 0,
        forall|i: int| 0 <= i < decimal(n).len() ==> is_digit(#[trigger] decimal(n)[i]),
        numeral_value(decimal(n)) == n,
    decreases n,
{
    if n < 10 {
        assert(decimal(n).drop_last() =~= Seq::<char>::empty());
        assert(numeral_value(decimal(n).drop_last()) == 0);
    } else {
        lemma_decimal(n / 10);
        assert(decimal(n).drop_last() =~= decimal(n / 10));
        assert forall|i: int| 0 <= i < decimal(n).len() implies is_digit(#[trigger] decimal(n)[i]) by {
            if i < decimal(n / 10).len() {
                assert(decimal(n)[i] == decimal(n / 10)[i]);
            }
        }
    }
}

/// Reading back a written numeral gives the number that was written.
pub proof fn law_decimal_round_trip(n: u64)
    ensures
        parsed_u64(decimal(n as nat)) == Some(n),
{
    lemma_decimal(n as nat);
    assert(is_digit(decimal(n as nat)[0]));
}

/// A numeral consists of digits only, and of at least one.
pub proof fn law_decimal_is_digits(n: nat)
    ensures
        decimal(n).len() > 0,
        forall|i: int| 0 <= i < decimal(n).len() ==> is_digit(#[trigger] decimal(n)[i]),
{
    lemma_decimal(n);
}

/// In a decimal numeral every digit counts ten times as much as the one after it.
pub proof fn law_numerals_are_positional(s: Seq<char>, c: char)
    requires
        is_digit(c),
    ensures
        numeral_value(Seq::<char>::empty()) == 0,
        numeral_value(s.push(c)) == 10 * numeral_value(s) + (c as int - '0' as int),
{
    assert(s.push(c).drop_last() =~= s);
}

/// A written numeral has the value that was written and does not begin with a
/// zero, unless it is zero.
pub proof fn law_decimal_has_its_value(n: nat)
    ensures
        numeral_value(decimal(n)) == n,
        n > 0 ==> decimal(n).first() != '0',
        n == 0 ==> decimal(n) == seq!['0'],
    decreases n,
{
    lemma_decimal(n);
    if n >= 10 {
        law_decimal_has_its_value(n / 10);
        law_decimal_is_digits(n / 10);
        assert(decimal(n).first() == decimal(n / 10).first());
    }
}

/// A number is read from a text exactly if the text is made of digits, with or
/// without a plus sign before them, and that number is their value.
pub proof fn law_numbers_are_read_from_digits_only(s: Seq<char>, n: u64)
    ensures
        parsed_u64(s) == Some(n) <==> exists|digits: Seq<char>|
            {
                &&& s == digits || s == seq!['+'] + digits
                &&& digits.len() > 0
                &&& forall|i: int| 0 <= i < digits.len() ==> '0' <= #[trigger] digits[i] <= '9'
                &&& #[trigger] numeral_value(digits) == n
            },
{
    if parsed_u64(s) == Some(n) {
        let digits = unsigned_part(s);
        assert(s == digits || s =~= seq!['+'] + digits);
        assert forall|i: int| 0 <= i < digits.len() implies '0' <= #[trigger] digits[i] <= '9' by {
            assert(is_digit(digits[i]));
        }
        assert(numeral_value(digits) == n);
    }
    if exists|digits: Seq<char>|
        {
            &&& s == digits || s == seq!['+'] + digits
            &&& digits.len() > 0
            &&& forall|i: int| 0 <= i < digits.len() ==> '0' <= #[trigger] digits[i] <= '9'
            &&& #[trigger] numeral_value(digits) == n
        } {
        let digits = choose|digits: Seq<char>|
            {
                &&& s == digits || s == seq!['+'] + digits
                &&& digits.len() > 0
                &&& forall|i: int| 0 <= i < digits.len() ==> '0' <= #[trigger] digits[i] <= '9'
                &&& #[trigger] numeral_value(digits) == n
            };
        assert('0' <= digits[0] <= '9');
        if s == seq!['+'] + digits {
            assert(s.drop_first() =~= digits);
        }
        assert(unsigned_part(s) == digits);
    }
}

/// A negative number is written as a minus sign and the numeral of its opposite,
/// any other number as its numeral.
pub proof fn law_signed_numerals(n: nat)
    ensures
        signed_decimal(n as int) == decimal(n),
        n > 0 ==> signed_decimal(-n) == seq!['-'] + decimal(n),
{
}


} // verus!
