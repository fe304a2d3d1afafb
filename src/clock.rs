//! Wall-clock instants as plain calendar fields, and their text.

use chrono::{Datelike, Timelike};
use vstd::prelude::*;

verus! {

/// An instant in UTC, down to the minute, as its calendar fields.
#[derive(Clone, Copy, Debug, PartialEq, Eq)]
pub struct Timestamp {
    pub year: i32,
    pub month: u32,
    pub day: u32,
    pub hour: u32,
    pub minute: u32,
}

/// The latest year that the system clock can report.
pub const LAST_YEAR: i32 = 262142;

impl Timestamp {
    /// Every field lies in its calendar range; the year is one that the
    /// system clock can report (the clock does not go before 1970).
    pub open spec fn wf(&self) -> bool {
        &&& 1970 <= self.year <= LAST_YEAR
        &&& 1 <= self.month <= 12
        &&& 1 <= self.day <= 31
        &&& self.hour < 24
        &&& self.minute < 60
    }
}

/// The decimal digit `d` as a character.
pub open spec fn digit_char(d: nat) -> char {
    if d == 0 {
        '0'
    } else if d == 1 {
        '1'
    } else if d == 2 {
        '2'
    } else if d == 3 {
        '3'
    } else if d == 4 {
        '4'
    } else if d == 5 {
        '5'
    } else if d == 6 {
        '6'
    } else if d == 7 {
        '7'
    } else if d == 8 {
        '8'
    } else {
        '9'
    }
}

/// The last `w` decimal digits of `n`, most significant first, with leading zeros.
pub open spec fn padded(n: nat, w: nat) -> Seq<char>
    decreases w,
{
    if w == 0 {
        Seq::empty()
    } else {
        padded(n / 10, (w - 1) as nat).push(digit_char(n % 10))
    }
}

/// A year as `%Y` writes it: four digits, or a plus sign and all digits past 9999.
pub open spec fn year_text(y: int) -> Seq<char> {
    if y <= 9999 {
        padded(y as nat, 4)
    } else if y <= 99999 {
        seq!['+'] + padded(y as nat, 5)
    } else {
        seq!['+'] + padded(y as nat, 6)
    }
}

/// `HH:MM`, 24-hour clock, both zero-padded.
pub open spec fn clock_text(t: Timestamp) -> Seq<char> {
    padded(t.hour as nat, 2) + seq![':'] + padded(t.minute as nat, 2)
}

/// `HH:MM DD/MM/YYYY`.
pub open spec fn clock_date_text(t: Timestamp) -> Seq<char> {
    clock_text(t) + seq![' '] + padded(t.day as nat, 2) + seq!['/'] + padded(t.month as nat, 2)
        + seq!['/'] + year_text(t.year as int)
}

fn digit_str(d: u32) -> (r: &'static str)
    requires
        d < 10,
    ensures
        r@ == seq![digit_char(d as nat)],
{
    proof {
        reveal_strlit("0");
        reveal_strlit("1");
        reveal_strlit("2");
        reveal_strlit("3");
        reveal_strlit("4");
        reveal_strlit("5");
        reveal_strlit("6");
        reveal_strlit("7");
        reveal_strlit("8");
        reveal_strlit("9");
    }
    if d == 0 {
        "0"
    } else if d == 1 {
        "1"
    } else if d == 2 {
        "2"
    } else if d == 3 {
        "3"
    } else if d == 4 {
        "4"
    } else if d == 5 {
        "5"
    } else if d == 6 {
        "6"
    } else if d == 7 {
        "7"
    } else if d == 8 {
        "8"
    } else {
        "9"
    }
}

/// Appends the last `w` decimal digits of `n` to `out`, with leading zeros.
pub fn push_padded(out: &mut String, n: u32, w: usize)
    ensures
        final(out)@ == old(out)@ + padded(n as nat, w as nat),
    decreases w,
{
    if w > 0 {
        push_padded(out, n / 10, w - 1);
        out.append(digit_str(n % 10));
        proof {
            assert(padded(n as nat, w as nat) == padded((n / 10) as nat, (w - 1) as nat).push(
                digit_char((n % 10) as nat),
            ));
        }
    } else {
        proof {
            assert(padded(n as nat, 0) == Seq::<char>::empty());
            assert(old(out)@ + Seq::<char>::empty() =~= old(out)@);
        }
    }
}


fn push_year(out: &mut String, y: i32)
    requires
        1970 <= y <= LAST_YEAR,
    ensures
        final(out)@ == old(out)@ + year_text(y as int),
{
    proof {
        reveal_strlit("+");
    }
    if y <= 9999 {
        push_padded(out, y as u32, 4);
    } else if y <= 99999 {
        out.append("+");
        push_padded(out, y as u32, 5);
    } else {
        out.append("+");
        push_padded(out, y as u32, 6);
    }
}

impl Timestamp {
    /// The instant as `HH:MM`.
    pub fn clock(&self) -> (r: String)
        requires
            self.wf(),
        ensures
            r@ == clock_text(*self),
    {
        proof {
            reveal_strlit(":");
        }
        let mut out = String::new();
        push_padded(&mut out, self.hour, 2);
        out.append(":");
        push_padded(&mut out, self.minute, 2);
        proof {
            assert(out@ =~= clock_text(*self));
        }
        out
    }

    /// The instant as `HH:MM DD/MM/YYYY`.
    pub fn clock_date(&self) -> (r: String)
        requires
            self.wf(),
        ensures
            r@ == clock_date_text(*self),
    {
        proof {
            reveal_strlit(" ");
            reveal_strlit("/");
        }
        let mut out = self.clock();
        out.append(" ");
        push_padded(&mut out, self.day, 2);
        out.append("/");
        push_padded(&mut out, self.month, 2);
        out.append("/");
        push_year(&mut out, self.year);
        proof {
            assert(out@ =~= clock_date_text(*self));
        }
        out
    }
}

/// Relies on chrono's `Utc::now` and its `Datelike` / `Timelike` accessors:
/// the current UTC instant, whose fields lie in their calendar ranges. `Utc::now`
/// fails before 1970 and past chrono's last year, so the year lies between them.
#[verifier::external_body]
pub(crate) fn now_utc() -> (r: Timestamp)
    ensures
        r.wf(),
{
    let t = chrono::Utc::now();
    Timestamp { year: t.year(), month: t.month(), day: t.day(), hour: t.hour(), minute: t.minute() }
}


/// `c` is a decimal digit.
pub open spec fn is_digit(c: char) -> bool {
    '0' <= c && c <= '9'
}

/// Padded digits are digits, as many as asked for.
pub proof fn lemma_padded_digits(n: nat, w: nat)
    ensures
        padded(n, w).len() == w,
        forall|i: int| 0 <= i < w ==> is_digit(#[trigger] padded(n, w)[i]),
    decreases w,
{
    if w > 0 {
        lemma_padded_digits(n / 10, (w - 1) as nat);
        let p = padded(n, w);
        assert forall|i: int| 0 <= i < w implies is_digit(#[trigger] p[i]) by {
            if i < w - 1 {
                assert(p[i] == padded(n / 10, (w - 1) as nat)[i]);
            }
        }
    }
}

proof fn lemma_padded_two(n: nat)
    requires
        n < 100,
    ensures
        padded(n, 2) == seq![digit_char(n / 10), digit_char(n % 10)],
{
    assert(padded(n / 10, 1) == padded(n / 10 / 10, 0).push(digit_char(n / 10 % 10)));
    assert(padded(n / 10 / 10, 0) == Seq::<char>::empty());
    assert(n / 10 / 10 == 0);
    assert((n / 10) % 10 == n / 10);
    assert(padded(n, 2) =~= seq![digit_char(n / 10), digit_char(n % 10)]);
}

proof fn lemma_padded_four(n: nat)
    requires
        n < 10000,
    ensures
        padded(n, 4) == seq![
            digit_char(n / 1000),
            digit_char(n / 100 % 10),
            digit_char(n / 10 % 10),
            digit_char(n % 10),
        ],
{
    assert(n / 10 / 10 == n / 100) by (nonlinear_arith);
    assert(n / 10 / 10 / 10 == n / 1000) by (nonlinear_arith);
    assert(n / 1000 < 10);
    assert(padded(n / 10, 3) == padded(n / 10 / 10, 2).push(digit_char(n / 10 % 10)));
    assert(padded(n / 10 / 10, 2) == padded(n / 10 / 10 / 10, 1).push(
        digit_char(n / 10 / 10 % 10),
    ));
    assert(padded(n / 10 / 10 / 10, 1) == padded(n / 10 / 10 / 10 / 10, 0).push(
        digit_char(n / 10 / 10 / 10 % 10),
    ));
    assert(padded(n / 10 / 10 / 10 / 10, 0) == Seq::<char>::empty());
    assert(padded(n, 4) =~= seq![
        digit_char(n / 1000),
        digit_char(n / 100 % 10),
        digit_char(n / 10 % 10),
        digit_char(n % 10),
    ]);
}

/// The clock reads `HH:MM`: two digits of the hour, a colon, two digits of the minute.
pub proof fn lemma_clock_shape(t: Timestamp)
    requires
        t.wf(),
    ensures
        clock_text(t) == seq![
            digit_char((t.hour / 10) as nat),
            digit_char((t.hour % 10) as nat),
            ':',
            digit_char((t.minute / 10) as nat),
            digit_char((t.minute % 10) as nat),
        ],
{
    lemma_padded_two(t.hour as nat);
    lemma_padded_two(t.minute as nat);
    assert(clock_text(t) =~= seq![
        digit_char((t.hour / 10) as nat),
        digit_char((t.hour % 10) as nat),
        ':',
        digit_char((t.minute / 10) as nat),
        digit_char((t.minute % 10) as nat),
    ]);
}

/// Up to year 9999 the clock with its date reads `HH:MM DD/MM/YYYY`, every field
/// zero-padded; later years carry a plus sign and all their digits.
pub proof fn lemma_clock_date_shape(t: Timestamp)
    requires
        t.wf(),
    ensures
        t.year <= 9999 ==> clock_date_text(t) == clock_text(t) + seq![
            ' ',
            digit_char((t.day / 10) as nat),
            digit_char((t.day % 10) as nat),
            '/',
            digit_char((t.month / 10) as nat),
            digit_char((t.month % 10) as nat),
            '/',
            digit_char((t.year / 1000) as nat),
            digit_char((t.year / 100 % 10) as nat),
            digit_char((t.year / 10 % 10) as nat),
            digit_char((t.year % 10) as nat),
        ],
        t.year <= 9999 ==> clock_date_text(t).len() == 16,
        t.year > 9999 ==> clock_date_text(t)[12] == '+',
{
    lemma_clock_shape(t);
    lemma_padded_two(t.day as nat);
    lemma_padded_two(t.month as nat);
    if t.year <= 9999 {
        lemma_padded_four(t.year as nat);
        assert(clock_date_text(t) =~= clock_text(t) + seq![
            ' ',
            digit_char((t.day / 10) as nat),
            digit_char((t.day % 10) as nat),
            '/',
            digit_char((t.month / 10) as nat),
            digit_char((t.month % 10) as nat),
            '/',
            digit_char((t.year / 1000) as nat),
            digit_char((t.year / 100 % 10) as nat),
            digit_char((t.year / 10 % 10) as nat),
            digit_char((t.year % 10) as nat),
        ]);
    } else {
        lemma_padded_digits(t.hour as nat, 2);
        lemma_padded_digits(t.minute as nat, 2);
        lemma_padded_digits(t.day as nat, 2);
        lemma_padded_digits(t.month as nat, 2);
        let head = clock_text(t) + seq![' '] + padded(t.day as nat, 2) + seq!['/'] + padded(
            t.month as nat,
            2,
        ) + seq!['/'];
        assert(clock_text(t).len() == 5);
        assert(head.len() == 12);
        assert(clock_date_text(t) == head + year_text(t.year as int));
    }
}

} // verus!
