//! Calendar dates and the text `YYYY-MM-DD` that names a day's log file.

use vstd::prelude::*;
use vstd::string::*;

verus! {

/// A day of the proleptic Gregorian calendar, as plain numbers.
#[derive(Clone, Copy, Debug, PartialEq, Eq, Structural)]
pub struct CalendarDate {
    pub year: i32,
    pub month: u32,
    pub day: u32,
}

/// The character that writes the decimal digit `d`.
#[verifier::opaque]
pub open spec fn digit_char(d: int) -> char {
    if d == 0 {
        '0'
    } else if d == 1 {
        '1'
    } else if d == 2 {
        '2'
    } else if d == 3 {
        '3'
    } else if d == 4 {
        '4'
    } else if d == 5 {
        '5'
    } else if d == 6 {
        '6'
    } else if d == 7 {
        '7'
    } else if d == 8 {
        '8'
    } else {
        '9'
    }
}

/// `n` below one hundred, written with exactly two digits.
pub open spec fn two_digits(n: int) -> Seq<char> {
    seq![digit_char(n / 10), digit_char(n % 10)]
}

/// `n` written in decimal without leading zeros (`0` as one digit).
pub open spec fn decimal(n: int) -> Seq<char>
    decreases n,
{
    if n < 10 {
        seq![digit_char(n)]
    } else {
        decimal(n / 10).push(digit_char(n % 10))
    }
}

/// `n` written in decimal and padded with zeros to at least four digits.
pub open spec fn at_least_four(n: int) -> Seq<char> {
    if n <= 9999 {
        two_digits(n / 100) + two_digits(n % 100)
    } else {
        decimal(n)
    }
}

/// A year as the date text shows it: four digits for the years 0 to 9999,
/// otherwise a sign followed by at least four digits.
pub open spec fn year_text(year: int) -> Seq<char> {
    if 0 <= year <= 9999 {
        at_least_four(year)
    } else if year < 0 {
        seq!['-'] + at_least_four(-year)
    } else {
        seq!['+'] + at_least_four(year)
    }
}

/// The date as `YYYY-MM-DD`: year, month and day separated by hyphens, month
/// and day with two digits each.
pub open spec fn date_text(date: CalendarDate) -> Seq<char> {
    year_text(date.year as int) + seq!['-'] + two_digits(date.month as int) + seq!['-']
        + two_digits(date.day as int)
}

fn push_digit(s: &mut String, d: u32)
    requires
        d < 10,
    ensures
        final(s)@ == old(s)@.push(digit_char(d as int)),
{
    proof {
        reveal(digit_char);
        reveal_strlit("0");
        reveal_strlit("1");
        reveal_strlit("2");
        reveal_strlit("3");
        reveal_strlit("4");
        reveal_strlit("5");
        reveal_strlit("6");
        reveal_strlit("7");
        reveal_strlit("8");
        reveal_strlit("9");
    }
    let ghost before = s@;
    let text: &str = if d == 0 {
        "0"
    } else if d == 1 {
        "1"
    } else if d == 2 {
        "2"
    } else if d == 3 {
        "3"
    } else if d == 4 {
        "4"
    } else if d == 5 {
        "5"
    } else if d == 6 {
        "6"
    } else if d == 7 {
        "7"
    } else if d == 8 {
        "8"
    } else {
        "9"
    };
    proof {
        assert(text@ =~= seq![digit_char(d as int)]);
    }
    s.append(text);
    proof {
        assert(s@ =~= before.push(digit_char(d as int)));
    }
}

fn push_two_digits(s: &mut String, n: u32)
    requires
        n < 100,
    ensures
        final(s)@ == old(s)@ + two_digits(n as int),
{
    let ghost before = s@;
    push_digit(s, n / 10);
    push_digit(s, n % 10);
    proof {
        assert(s@ =~= before + two_digits(n as int));
    }
}

fn push_decimal(s: &mut String, n: u32)
    ensures
        final(s)@ == old(s)@ + decimal(n as int),
    decreases n,
{
    let ghost before = s@;
    if n >= 10 {
        push_decimal(s, n / 10);
    }
    push_digit(s, n % 10);
    proof {
        assert(s@ =~= before + decimal(n as int));
    }
}

fn push_at_least_four(s: &mut String, n: u32)
    ensures
        final(s)@ == old(s)@ + at_least_four(n as int),
{
    let ghost before = s@;
    if n <= 9999 {
        push_two_digits(s, n / 100);
        push_two_digits(s, n % 100);
        proof {
            assert(s@ =~= before + at_least_four(n as int));
        }
    } else {
        push_decimal(s, n);
    }
}

fn push_year(s: &mut String, year: i32)
    ensures
        final(s)@ == old(s)@ + year_text(year as int),
{
    let ghost before = s@;
    proof {
        reveal_strlit("-");
        reveal_strlit("+");
    }
    if year < 0 {
        let magnitude: u32 = (-(year as i64)) as u32;
        s.append("-");
        push_at_least_four(s, magnitude);
        proof {
            assert("-"@ =~= seq!['-']);
            assert(s@ =~= before + year_text(year as int));
        }
    } else if year > 9999 {
        s.append("+");
        push_at_least_four(s, year as u32);
        proof {
            assert("+"@ =~= seq!['+']);
            assert(s@ =~= before + year_text(year as int));
        }
    } else {
        push_at_least_four(s, year as u32);
    }
}

impl CalendarDate {
    /// The month lies in 1 to 12 and the day in 1 to 31.
    pub open spec fn wf(&self) -> bool {
        1 <= self.month <= 12 && 1 <= self.day <= 31
    }

    /// The date with these numbers, where month and day are in range.
    pub fn new(year: i32, month: u32, day: u32) -> (date: Option<CalendarDate>)
        ensures
            date is Some <==> (1 <= month <= 12 && 1 <= day <= 31),
            date is Some ==> date.unwrap() == (CalendarDate { year, month, day }),
    {
        if 1 <= month && month <= 12 && 1 <= day && day <= 31 {
            Some(CalendarDate { year, month, day })
        } else {
            None
        }
    }

    /// Writes the date as `YYYY-MM-DD`.
    pub fn to_text(&self) -> (out: String)
        requires
            self.wf(),
        ensures
            out@ == date_text(*self),
    {
        let mut out = String::new();
        proof {
            reveal_strlit("-");
            assert("-"@ =~= seq!['-']);
        }
        push_year(&mut out, self.year);
        out.append("-");
        push_two_digits(&mut out, self.month);
        out.append("-");
        push_two_digits(&mut out, self.day);
        proof {
            assert(out@ =~= date_text(*self));
        }
        out
    }
}

/// The digit that `c` writes; 9 for every character that writes none.
#[verifier::opaque]
spec fn digit_value(c: char) -> int {
    if c == '0' {
        0
    } else if c == '1' {
        1
    } else if c == '2' {
        2
    } else if c == '3' {
        3
    } else if c == '4' {
        4
    } else if c == '5' {
        5
    } else if c == '6' {
        6
    } else if c == '7' {
        7
    } else if c == '8' {
        8
    } else {
        9
    }
}

/// The number that a run of digits writes in base ten.
spec fn decimal_value(digits: Seq<char>) -> int
    decreases digits.len(),
{
    if digits.len() == 0 {
        0
    } else {
        decimal_value(digits.drop_last()) * 10 + digit_value(digits.last())
    }
}

proof fn lemma_digit_round_trip(d: int)
    requires
        0 <= d <= 9,
    ensures
        digit_value(digit_char(d)) == d,
        digit_char(d) != '-',
        digit_char(d) != '+',
{
    reveal(digit_char);
    reveal(digit_value);
}

proof fn lemma_value_push(digits: Seq<char>, d: int)
    requires
        0 <= d <= 9,
    ensures
        decimal_value(digits.push(digit_char(d))) == decimal_value(digits) * 10 + d,
{
    lemma_digit_round_trip(d);
    assert(digits.push(digit_char(d)).drop_last() =~= digits);
}

proof fn lemma_decimal_value(n: int)
    requires
        0 <= n,
    ensures
        decimal_value(decimal(n)) == n,
        decimal(n).len() >= 1,
        decimal(n)[0] != '-',
        decimal(n)[0] != '+',
    decreases n,
{
    if n < 10 {
        lemma_digit_round_trip(n);
        lemma_value_push(Seq::empty(), n);
        assert(decimal(n) =~= Seq::<char>::empty().push(digit_char(n)));
    } else {
        lemma_decimal_value(n / 10);
        lemma_value_push(decimal(n / 10), n % 10);
    }
}

proof fn lemma_four_digits_value(a: int, b: int, c: int, d: int)
    requires
        0 <= a <= 9,
        0 <= b <= 9,
        0 <= c <= 9,
        0 <= d <= 9,
    ensures
        decimal_value(seq![digit_char(a), digit_char(b)] + seq![digit_char(c), digit_char(d)])
            == a * 1000 + b * 100 + c * 10 + d,
{
    let s0 = Seq::<char>::empty();
    let s1 = s0.push(digit_char(a));
    let s2 = s1.push(digit_char(b));
    let s3 = s2.push(digit_char(c));
    let s4 = s3.push(digit_char(d));
    lemma_value_push(s0, a);
    lemma_value_push(s1, b);
    lemma_value_push(s2, c);
    lemma_value_push(s3, d);
    assert(seq![digit_char(a), digit_char(b)] + seq![digit_char(c), digit_char(d)] =~= s4);
}

proof fn lemma_at_least_four_value(n: int)
    requires
        0 <= n,
    ensures
        decimal_value(at_least_four(n)) == n,
        at_least_four(n).len() >= 1,
        at_least_four(n)[0] != '-',
        at_least_four(n)[0] != '+',
{
    if n <= 9999 {
        let hi = n / 100;
        let lo = n % 100;
        lemma_four_digits_value(hi / 10, hi % 10, lo / 10, lo % 10);
        lemma_digit_round_trip(hi / 10);
        assert(at_least_four(n)[0] == digit_char(hi / 10));
    } else {
        lemma_decimal_value(n);
    }
}

/// Two years that read the same are the same year.
pub proof fn lemma_year_text_injective(a: int, b: int)
    requires
        year_text(a) == year_text(b),
    ensures
        a == b,
{
    let abs_a = if a < 0 { -a } else { a };
    let abs_b = if b < 0 { -b } else { b };
    lemma_at_least_four_value(abs_a);
    lemma_at_least_four_value(abs_b);
    let ta = at_least_four(abs_a);
    let tb = at_least_four(abs_b);
    assert(year_text(a)[0] == year_text(b)[0]);
    if a < 0 {
        assert(year_text(a)[0] == '-');
        assert(b < 0);
        assert(ta =~= year_text(a).subrange(1, year_text(a).len() as int));
        assert(tb =~= year_text(b).subrange(1, year_text(b).len() as int));
    } else if a > 9999 {
        assert(year_text(a)[0] == '+');
        assert(b > 9999);
        assert(ta =~= year_text(a).subrange(1, year_text(a).len() as int));
        assert(tb =~= year_text(b).subrange(1, year_text(b).len() as int));
    } else {
        assert(year_text(a)[0] == ta[0]);
        assert(0 <= b <= 9999);
    }
}

proof fn lemma_two_digits_injective(a: int, b: int)
    requires
        0 <= a < 100,
        0 <= b < 100,
        two_digits(a) == two_digits(b),
    ensures
        a == b,
{
    assert(two_digits(a)[0] == two_digits(b)[0]);
    assert(two_digits(a)[1] == two_digits(b)[1]);
    lemma_digit_round_trip(a / 10);
    lemma_digit_round_trip(b / 10);
    lemma_digit_round_trip(a % 10);
    lemma_digit_round_trip(b % 10);
}

/// Two dates that read the same are the same day: no other day's text can be
/// taken for today's.
pub proof fn lemma_date_text_injective(a: CalendarDate, b: CalendarDate)
    requires
        a.wf(),
        b.wf(),
        date_text(a) == date_text(b),
    ensures
        a == b,
{
    let ya = year_text(a.year as int);
    let yb = year_text(b.year as int);
    let ta = date_text(a);
    let tb = date_text(b);
    let n = ya.len() as int;
    assert(ta.len() == ya.len() + 6);
    assert(tb.len() == yb.len() + 6);
    assert(ya =~= ta.subrange(0, n));
    assert(yb =~= tb.subrange(0, n));
    lemma_year_text_injective(a.year as int, b.year as int);
    assert(two_digits(a.month as int) =~= ta.subrange(n + 1, n + 3));
    assert(two_digits(b.month as int) =~= tb.subrange(n + 1, n + 3));
    assert(two_digits(a.day as int) =~= ta.subrange(n + 4, n + 6));
    assert(two_digits(b.day as int) =~= tb.subrange(n + 4, n + 6));
    lemma_two_digits_injective(a.month as int, b.month as int);
    lemma_two_digits_injective(a.day as int, b.day as int);
}

} // verus!
