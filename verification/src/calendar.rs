//! The in-game calendar and its display form.

use vstd::prelude::*;
use vstd::string::StringExecFns;

verus! {

/// The in-game date and time.
#[derive(Clone, Copy, PartialEq, Eq, Structural, Debug)]
pub struct Calendar {
    pub year: u16,
    pub month: u8,
    pub day: u8,
    pub hour: u8,
    pub minute: u8,
    pub second: u8,
}

/// The character of one decimal digit.
pub open spec fn spec_digit(d: nat) -> char {
    if d == 0 {
        '0'
    } else if d == 1 {
        '1'
    } else if d == 2 {
        '2'
    } else if d == 3 {
        '3'
    } else if d == 4 {
        '4'
    } else if d == 5 {
        '5'
    } else if d == 6 {
        '6'
    } else if d == 7 {
        '7'
    } else if d == 8 {
        '8'
    } else {
        '9'
    }
}

/// The decimal digits of `v`, most significant first.
pub open spec fn spec_decimal(v: nat) -> Seq<char>
    decreases v,
{
    if v < 10 {
        seq![spec_digit(v)]
    } else {
        spec_decimal(v / 10) + seq![spec_digit(v % 10)]
    }
}

/// The decimal digits of `v`, zero-padded on the left to two characters.
pub open spec fn spec_pad2(v: nat) -> Seq<char> {
    if v < 10 {
        seq!['0', spec_digit(v)]
    } else {
        spec_decimal(v)
    }
}

/// The three-letter name of month number `m` (0-based; 11 and above
/// render as December).
pub open spec fn spec_month_name(m: u8) -> Seq<char> {
    if m == 0 {
        "Jan"@
    } else if m == 1 {
        "Feb"@
    } else if m == 2 {
        "Mar"@
    } else if m == 3 {
        "Apr"@
    } else if m == 4 {
        "May"@
    } else if m == 5 {
        "Jun"@
    } else if m == 6 {
        "Jul"@
    } else if m == 7 {
        "Aug"@
    } else if m == 8 {
        "Sep"@
    } else if m == 9 {
        "Oct"@
    } else if m == 10 {
        "Nov"@
    } else {
        "Dec"@
    }
}

/// The display form of a calendar value: zero-padded day of month
/// (1-based), month name, year, and a zero-padded `hour:minute` clock.
pub open spec fn spec_date_time(c: Calendar) -> Seq<char> {
    spec_pad2((c.day + 1) as nat) + " "@ + spec_month_name(c.month) + " "@ + spec_decimal(
        c.year as nat,
    ) + " "@ + spec_pad2(c.hour as nat) + ":"@ + spec_pad2(c.minute as nat)
}

/// Appends the character of one decimal digit.
fn append_digit(s: &mut String, d: u8)
    requires
        d < 10,
    ensures
        final(s)@ == old(s)@ + seq![spec_digit(d as nat)],
{
    proof {
        reveal_strlit("0");
        reveal_strlit("1");
        reveal_strlit("2");
        reveal_strlit("3");
        reveal_strlit("4");
        reveal_strlit("5");
        reveal_strlit("6");
        reveal_strlit("7");
        reveal_strlit("8");
        reveal_strlit("9");
    }
    match d {
        0 => s.append("0"),
        1 => s.append("1"),
        2 => s.append("2"),
        3 => s.append("3"),
        4 => s.append("4"),
        5 => s.append("5"),
        6 => s.append("6"),
        7 => s.append("7"),
        8 => s.append("8"),
        _ => s.append("9"),
    }
    assert(final(s)@ =~= old(s)@ + seq![spec_digit(d as nat)]);
}

/// Appends the decimal digits of `v`, most significant first.
fn append_decimal(s: &mut String, v: u16)
    ensures
        final(s)@ == old(s)@ + spec_decimal(v as nat),
    decreases v,
{
    if v >= 10 {
        append_decimal(s, v / 10);
        append_digit(s, (v % 10) as u8);
        assert(final(s)@ =~= old(s)@ + spec_decimal(v as nat));
    } else {
        append_digit(s, v as u8);
    }
}

/// Appends the decimal digits of `v`, zero-padded to two characters.
fn append_pad2(s: &mut String, v: u8)
    ensures
        final(s)@ == old(s)@ + spec_pad2(v as nat),
{
    if v < 10 {
        proof {
            reveal_strlit("0");
        }
        s.append("0");
        append_digit(s, v);
        assert(final(s)@ =~= old(s)@ + spec_pad2(v as nat));
    } else {
        append_decimal(s, v as u16);
    }
}

impl Calendar {
    /// Renders the date and the clock, e.g. `01 Jan 2525 08:30`.
    pub fn get_date_time(&self) -> (r: String)
        requires
            self.day < 255,
        ensures
            r@ == spec_date_time(*self),
    {
        let mut s = String::new();
        append_pad2(&mut s, self.day + 1);
        s.append(" ");
        match self.month {
            0 => s.append("Jan"),
            1 => s.append("Feb"),
            2 => s.append("Mar"),
            3 => s.append("Apr"),
            4 => s.append("May"),
            5 => s.append("Jun"),
            6 => s.append("Jul"),
            7 => s.append("Aug"),
            8 => s.append("Sep"),
            9 => s.append("Oct"),
            10 => s.append("Nov"),
            _ => s.append("Dec"),
        }
        s.append(" ");
        append_decimal(&mut s, self.year);
        s.append(" ");
        append_pad2(&mut s, self.hour);
        s.append(":");
        append_pad2(&mut s, self.minute);
        assert(s@ =~= spec_date_time(*self));
        s
    }
}

} // verus!
