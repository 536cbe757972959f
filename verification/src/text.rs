//! Decimal rendering of integers, as `{}` formatting writes them.

use vstd::prelude::*;

verus! {

/// The digit character for `d` (0 to 9).
pub open spec fn digit_char(d: int) -> char {
    if d == 0 {
        '0'
    } else if d == 1 {
        '1'
    } else if d == 2 {
        '2'
    } else if d == 3 {
        '3'
    } else if d == 4 {
        '4'
    } else if d == 5 {
        '5'
    } else if d == 6 {
        '6'
    } else if d == 7 {
        '7'
    } else if d == 8 {
        '8'
    } else {
        '9'
    }
}

/// The decimal digits of `n`, most significant first, with no leading zero.
pub open spec fn digits(n: nat) -> Seq<char>
    decreases n,
{
    if n < 10 {
        seq![digit_char(n as int)]
    } else {
        digits(n / 10).push(digit_char((n % 10) as int))
    }
}

/// `n` in decimal, with a leading `-` when it is negative.
pub open spec fn decimal(n: int) -> Seq<char> {
    if n < 0 {
        seq!['-'] + digits((-n) as nat)
    } else {
        digits(n as nat)
    }
}

/// The number a run of decimal digit characters stands for, read most
/// significant first: each character counts for its code minus the code of
/// `'0'`.
pub open spec fn digits_value(s: Seq<char>) -> int
    decreases s.len(),
{
    if s.len() == 0 {
        0
    } else {
        digits_value(s.drop_last()) * 10 + ((s.last() as int) - ('0' as int))
    }
}

/// The number a decimal text stands for: a leading `-` negates the digits
/// after it.
pub open spec fn decimal_value(s: Seq<char>) -> int {
    if s.len() > 0 && s[0] == '-' {
        -digits_value(s.drop_first())
    } else {
        digits_value(s)
    }
}

/// The digit for `d` is the character whose code is `d` past the code of
/// `'0'`.
pub proof fn law_digit_char_code(d: int)
    requires
        0 <= d <= 9,
    ensures
        (digit_char(d) as int) == ('0' as int) + d,
{
}

/// The digits of `n` start with a digit character, never a sign, and read
/// back as `n`.
proof fn lemma_digits_read_back(n: nat)
    ensures
        digits(n).len() > 0,
        ('0' as int) <= (digits(n)[0] as int) <= ('0' as int) + 9,
        digits_value(digits(n)) == n,
    decreases n,
{
    if n < 10 {
        law_digit_char_code(n as int);
        assert(digits(n) == seq![digit_char(n as int)]);
        assert(digits(n)[0] == digit_char(n as int));
        assert(digits(n).drop_last() =~= Seq::<char>::empty());
        assert(digits_value(Seq::<char>::empty()) == 0);
        assert(digits(n).last() == digit_char(n as int));
    } else {
        lemma_digits_read_back(n / 10);
        law_digit_char_code((n % 10) as int);
        let ds = digits(n);
        assert(ds.drop_last() =~= digits(n / 10));
        assert(ds[0] == digits(n / 10)[0]);
        assert(ds.last() == digit_char((n % 10) as int));
        assert(digits_value(ds) == digits_value(digits(n / 10)) * 10 + ((ds.last() as int) - ('0' as int)));
        assert(n == (n / 10) * 10 + n % 10);
    }
}

/// Decimal text reads back as the number it was written from, so two
/// different numbers never get the same text.
pub proof fn law_decimal_reads_back(n: int, m: int)
    ensures
        decimal_value(decimal(n)) == n,
        decimal(n) == decimal(m) ==> n == m,
{
    if n < 0 {
        lemma_digits_read_back((-n) as nat);
        assert((seq!['-'] + digits((-n) as nat)).drop_first() =~= digits((-n) as nat));
    } else {
        lemma_digits_read_back(n as nat);
    }
    if m < 0 {
        lemma_digits_read_back((-m) as nat);
        assert((seq!['-'] + digits((-m) as nat)).drop_first() =~= digits((-m) as nat));
    } else {
        lemma_digits_read_back(m as nat);
    }
}

fn digit_str(d: u64) -> (s: &'static str)
    requires
        d < 10,
    ensures
        s@ == seq![digit_char(d as int)],
{
    proof {
        reveal_strlit("0");
        reveal_strlit("1");
        reveal_strlit("2");
        reveal_strlit("3");
        reveal_strlit("4");
        reveal_strlit("5");
        reveal_strlit("6");
        reveal_strlit("7");
        reveal_strlit("8");
        reveal_strlit("9");
    }
    if d == 0 {
        "0"
    } else if d == 1 {
        "1"
    } else if d == 2 {
        "2"
    } else if d == 3 {
        "3"
    } else if d == 4 {
        "4"
    } else if d == 5 {
        "5"
    } else if d == 6 {
        "6"
    } else if d == 7 {
        "7"
    } else if d == 8 {
        "8"
    } else {
        "9"
    }
}

fn push_digits(out: &mut String, m: u64)
    ensures
        final(out)@ == old(out)@ + digits(m as nat),
    decreases m,
{
    if m >= 10 {
        push_digits(out, m / 10);
    }
    out.append(digit_str(m % 10));
    assert(final(out)@ =~= old(out)@ + digits(m as nat));
}

/// `n` written in decimal.
pub fn decimal_text(n: i64) -> (s: String)
    ensures
        s@ == decimal(n as int),
{
    let mut s = String::new();
    if n < 0 {
        s.append("-");
        proof {
            reveal_strlit("-");
        }
        let magnitude = (-(n as i128)) as u64;
        push_digits(&mut s, magnitude);
    } else {
        push_digits(&mut s, n as u64);
    }
    assert(s@ =~= decimal(n as int));
    s
}

} // verus!
