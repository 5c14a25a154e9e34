//! Decimal rendering of the integers that appear on the dashboard: plain
//! counts, signed counts, right-aligned percentages, money amounts with two
//! decimal places, and signed tenths of a percentage point.

use vstd::prelude::*;

verus! {

/// The decimal digit character for a value below ten.
pub open spec fn digit_char(d: nat) -> char {
    if d == 0 {
        '0'
    } else if d == 1 {
        '1'
    } else if d == 2 {
        '2'
    } else if d == 3 {
        '3'
    } else if d == 4 {
        '4'
    } else if d == 5 {
        '5'
    } else if d == 6 {
        '6'
    } else if d == 7 {
        '7'
    } else if d == 8 {
        '8'
    } else {
        '9'
    }
}

/// The usual decimal form of a non-negative integer, most significant digit
/// first, with no leading zeros (zero itself is "0").
pub open spec fn dec_digits(n: nat) -> Seq<char>
    decreases n,
{
    if n < 10 {
        seq![digit_char(n)]
    } else {
        dec_digits(n / 10).push(digit_char(n % 10))
    }
}

/// The decimal form of a signed integer: a leading '-' for negative values.
pub open spec fn dec_signed(n: int) -> Seq<char> {
    if n < 0 {
        seq!['-'] + dec_digits((-n) as nat)
    } else {
        dec_digits(n as nat)
    }
}

fn digit_str(d: u64) -> (r: &'static str)
    requires
        d < 10,
    ensures
        r@ == seq![digit_char(d as nat)],
{
    proof {
        reveal_strlit("0");
        reveal_strlit("1");
        reveal_strlit("2");
        reveal_strlit("3");
        reveal_strlit("4");
        reveal_strlit("5");
        reveal_strlit("6");
        reveal_strlit("7");
        reveal_strlit("8");
        reveal_strlit("9");
    }
    let r = match d {
        0 => "0",
        1 => "1",
        2 => "2",
        3 => "3",
        4 => "4",
        5 => "5",
        6 => "6",
        7 => "7",
        8 => "8",
        _ => "9",
    };
    proof {
        assert(r@ =~= seq![digit_char(d as nat)]);
    }
    r
}

/// Render a non-negative integer in decimal.
pub fn u64_to_dec(n: u64) -> (r: String)
    ensures
        r@ == dec_digits(n as nat),
    decreases n,
{
    if n < 10 {
        digit_str(n).to_owned()
    } else {
        let mut s = u64_to_dec(n / 10);
        s.append(digit_str(n % 10));
        proof {
            assert(s@ =~= dec_digits(n as nat));
        }
        s
    }
}

/// Render a signed integer in decimal.
pub fn i64_to_dec(n: i64) -> (r: String)
    ensures
        r@ == dec_signed(n as int),
{
    if n >= 0 {
        u64_to_dec(n as u64)
    } else {
        let m: u64 = (-(n as i128)) as u64;
        let mut s = "-".to_owned();
        let digits = u64_to_dec(m);
        s.append(digits.as_str());
        proof {
            reveal_strlit("-");
            assert("-"@ =~= seq!['-']);
            assert(s@ =~= dec_signed(n as int));
        }
        s
    }
}

/// A money amount carried in cents, rendered with a dollar sign and exactly
/// two decimal places, e.g. "$12.50" or "$-3.05".
pub open spec fn money_text(cents: int) -> Seq<char> {
    let mag = if cents < 0 {
        -cents
    } else {
        cents
    };
    let sign = if cents < 0 {
        seq!['-']
    } else {
        Seq::<char>::empty()
    };
    seq!['$'] + sign + dec_digits((mag / 100) as nat) + seq!['.'] + seq![
        digit_char(((mag % 100) / 10) as nat),
        digit_char((mag % 10) as nat),
    ]
}

/// Render a money amount held in cents.
pub fn money_to_dec(cents: i64) -> (r: String)
    ensures
        r@ == money_text(cents as int),
{
    proof {
        reveal_strlit("$");
        reveal_strlit("$-");
        reveal_strlit(".");
    }
    let mut s: String;
    let mag: u64;
    if cents < 0 {
        s = "$-".to_owned();
        mag = (-(cents as i128)) as u64;
    } else {
        s = "$".to_owned();
        mag = cents as u64;
    }
    s.append(u64_to_dec(mag / 100).as_str());
    s.append(".");
    s.append(u64_to_dec((mag % 100) / 10).as_str());
    s.append(u64_to_dec(mag % 10).as_str());
    proof {
        assert(s@ =~= money_text(cents as int));
    }
    s
}

} // verus!
