//! Decimal rendering of integers, as `Display` writes them.
use vstd::prelude::*;

verus! {

/// The character of a decimal digit.
pub open spec fn digit_char(d: nat) -> char {
    (d + 48) as char
}

/// The decimal digits of `n`, most significant first, without leading zeros.
pub open spec fn digits(n: nat) -> Seq<char>
    decreases n,
{
    if n < 10 {
        seq![digit_char(n)]
    } else {
        digits(n / 10).push(digit_char(n % 10))
    }
}

/// `n` written in decimal, with a leading `-` when it is negative.
pub open spec fn decimal(n: int) -> Seq<char> {
    if n < 0 {
        seq!['-'].add(digits((-n) as nat))
    } else {
        digits(n as nat)
    }
}

fn digit_str(d: u32) -> (s: &'static str)
    requires
        d < 10,
    ensures
        s@ == seq![digit_char(d as nat)],
{
    proof {
        reveal_strlit("0");
        reveal_strlit("1");
        reveal_strlit("2");
        reveal_strlit("3");
        reveal_strlit("4");
        reveal_strlit("5");
        reveal_strlit("6");
        reveal_strlit("7");
        reveal_strlit("8");
        reveal_strlit("9");
    }
    match d {
        0 => "0",
        1 => "1",
        2 => "2",
        3 => "3",
        4 => "4",
        5 => "5",
        6 => "6",
        7 => "7",
        8 => "8",
        _ => "9",
    }
}

fn append_digits(s: &mut String, n: u32)
    ensures
        final(s)@ == old(s)@ + digits(n as nat),
    decreases n,
{
    if n >= 10 {
        append_digits(s, n / 10);
    }
    s.append(digit_str(n % 10));
}

/// Appends `n` in decimal to `s`.
pub fn append_decimal(s: &mut String, n: i32)
    ensures
        final(s)@ == old(s)@ + decimal(n as int),
{
    if n < 0 {
        proof { reveal_strlit("-"); }
        s.append("-");
        let magnitude: u32 = (0i64 - (n as i64)) as u32;
        append_digits(s, magnitude);
        assert(s@ =~= old(s)@ + decimal(n as int));
    } else {
        append_digits(s, n as u32);
    }
}

/// Whether `c` is one of the characters `0` to `9`.
pub open spec fn is_digit(c: char) -> bool {
    48 <= (c as int) <= 57
}

/// The number that the decimal digits `s` stand for, most significant first.
pub open spec fn digits_value(s: Seq<char>) -> int
    decreases s.len(),
{
    if s.len() == 0 {
        0
    } else {
        digits_value(s.drop_last()) * 10 + ((s.last() as int) - 48)
    }
}

/// Rendering a natural number and reading the digits back gives the number:
/// every character is a digit, there is no leading zero, and the digits
/// stand for `n`.
pub proof fn lemma_digits_read_back(n: nat)
    ensures
        digits(n).len() >= 1,
        forall|i: int| 0 <= i < digits(n).len() ==> is_digit(#[trigger] digits(n)[i]),
        digits(n)[0] == '0' ==> n == 0,
        digits_value(digits(n)) == n,
    decreases n,
{
    if n >= 10 {
        lemma_digits_read_back(n / 10);
        let d = digits(n / 10);
        assert(digits(n).drop_last() =~= d);
        assert(digits(n).last() == digit_char(n % 10));
        assert((digit_char(n % 10) as int) - 48 == n % 10);
        assert(n == (n / 10) * 10 + n % 10);
        assert(digits_value(digits(n)) == digits_value(digits(n).drop_last()) * 10 + ((digits(
            n,
        ).last() as int) - 48));
        assert forall|i: int| 0 <= i < digits(n).len() implies is_digit(#[trigger] digits(n)[i]) by {
            if i < d.len() {
                assert(digits(n)[i] == d[i]);
            }
        }
    } else {
        assert(digits(n).drop_last().len() == 0);
        assert(digits_value(digits(n).drop_last()) == 0);
        assert((digit_char(n) as int) - 48 == n);
    }
}

/// Rendering an integer and reading it back gives the integer: a
/// non-negative one is its digits; a negative one is `-` followed by the
/// digits of its magnitude.
pub proof fn lemma_decimal_read_back(n: int)
    ensures
        n >= 0 ==> digits_value(decimal(n)) == n && decimal(n)[0] != '-',
        n < 0 ==> decimal(n)[0] == '-' && digits_value(decimal(n).drop_first()) == -n,
        n < 0 ==> forall|i: int| 1 <= i < decimal(n).len() ==> is_digit(#[trigger] decimal(n)[i]),
        n >= 0 ==> forall|i: int| 0 <= i < decimal(n).len() ==> is_digit(#[trigger] decimal(n)[i]),
{
    if n < 0 {
        lemma_digits_read_back((-n) as nat);
        assert(decimal(n).drop_first() =~= digits((-n) as nat));
        assert forall|i: int| 1 <= i < decimal(n).len() implies is_digit(#[trigger] decimal(n)[i]) by {
            assert(decimal(n)[i] == digits((-n) as nat)[i - 1]);
        }
    } else {
        lemma_digits_read_back(n as nat);
        assert(is_digit(decimal(n)[0]));
    }
}

/// `s` is a decimal numeral for `n`: digits standing for `n` when `n` is
/// not negative, and `-` followed by digits standing for `-n` otherwise.
pub open spec fn reads_as(s: Seq<char>, n: int) -> bool {
    if n >= 0 {
        &&& s.len() >= 1
        &&& forall|i: int| 0 <= i < s.len() ==> is_digit(#[trigger] s[i])
        &&& digits_value(s) == n
    } else {
        &&& s.len() >= 2
        &&& s[0] == '-'
        &&& forall|i: int| 1 <= i < s.len() ==> is_digit(#[trigger] s[i])
        &&& digits_value(s.drop_first()) == -n
    }
}

/// The decimal rendering of every integer reads back as that integer.
pub proof fn lemma_decimal_reads_as(n: int)
    ensures
        reads_as(decimal(n), n),
{
    lemma_decimal_read_back(n);
    if n < 0 {
        lemma_digits_read_back((-n) as nat);
    } else {
        lemma_digits_read_back(n as nat);
    }
}

} // verus!
