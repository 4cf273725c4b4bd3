//! Numbers as text.

use vstd::prelude::*;
use vstd::string::StringExecFns;

verus! {

/// The character of a decimal digit.
pub open spec fn spec_digit(d: int) -> char {
    if d == 0 {
        '0'
    } else if d == 1 {
        '1'
    } else if d == 2 {
        '2'
    } else if d == 3 {
        '3'
    } else if d == 4 {
        '4'
    } else if d == 5 {
        '5'
    } else if d == 6 {
        '6'
    } else if d == 7 {
        '7'
    } else if d == 8 {
        '8'
    } else {
        '9'
    }
}

/// The decimal digits of `n`, without leading zeros.
pub open spec fn spec_decimal(n: nat) -> Seq<char>
    decreases n,
{
    if n < 10 {
        seq![spec_digit(n as int)]
    } else {
        spec_decimal(n / 10).push(spec_digit((n % 10) as int))
    }
}

/// The decimal digits of `i`, after a minus sign if it is negative.
pub open spec fn spec_signed_decimal(i: int) -> Seq<char> {
    if i < 0 {
        seq!['-'] + spec_decimal((-i) as nat)
    } else {
        spec_decimal(i as nat)
    }
}

/// A number of millimetres written in metres, with three decimal places:
/// `-1250` reads `-1.250`.
pub open spec fn spec_metres(mm: int) -> Seq<char> {
    let size = if mm < 0 {
        -mm
    } else {
        mm
    };
    let sign = if mm < 0 {
        seq!['-']
    } else {
        Seq::<char>::empty()
    };
    sign + spec_decimal((size / 1000) as nat) + seq![
        '.',
        spec_digit(size / 100 % 10),
        spec_digit(size / 10 % 10),
        spec_digit(size % 10),
    ]
}

/// The text of one decimal digit.
pub fn digit_str(d: u64) -> (s: &'static str)
    requires
        d < 10,
    ensures
        s@ == seq![spec_digit(d as int)],
{
    proof {
        reveal_strlit("0");
        reveal_strlit("1");
        reveal_strlit("2");
        reveal_strlit("3");
        reveal_strlit("4");
        reveal_strlit("5");
        reveal_strlit("6");
        reveal_strlit("7");
        reveal_strlit("8");
        reveal_strlit("9");
    }
    let s: &'static str = if d == 0 {
        "0"
    } else if d == 1 {
        "1"
    } else if d == 2 {
        "2"
    } else if d == 3 {
        "3"
    } else if d == 4 {
        "4"
    } else if d == 5 {
        "5"
    } else if d == 6 {
        "6"
    } else if d == 7 {
        "7"
    } else if d == 8 {
        "8"
    } else {
        "9"
    };
    assert(s@ =~= seq![spec_digit(d as int)]);
    s
}

/// Writes `n` in decimal digits.
pub fn decimal(n: u64) -> (s: String)
    ensures
        s@ == spec_decimal(n as nat),
    decreases n,
{
    if n < 10 {
        String::from_str(digit_str(n))
    } else {
        let mut s: String = decimal(n / 10);
        s.append(digit_str(n % 10));
        assert(s@ =~= spec_decimal(n as nat));
        s
    }
}

/// Writes `i` in decimal digits, after a minus sign if it is negative.
pub fn signed_decimal(i: i64) -> (s: String)
    ensures
        s@ == spec_signed_decimal(i as int),
{
    if i < 0 {
        let size: u64 = (-(i as i128)) as u64;
        let mut s: String = String::from_str("-");
        proof {
            reveal_strlit("-");
        }
        let digits: String = decimal(size);
        s.append(digits.as_str());
        assert(s@ =~= spec_signed_decimal(i as int));
        s
    } else {
        decimal(i as u64)
    }
}

/// Writes a number of millimetres in metres, with three decimal places.
pub fn metres(mm: i64) -> (s: String)
    ensures
        s@ == spec_metres(mm as int),
{
    let size: u64 = if mm < 0 {
        (-(mm as i128)) as u64
    } else {
        mm as u64
    };
    let mut s: String = if mm < 0 {
        String::from_str("-")
    } else {
        String::from_str("")
    };
    proof {
        reveal_strlit("-");
        reveal_strlit("");
        reveal_strlit(".");
    }
    let whole: String = decimal(size / 1000);
    s.append(whole.as_str());
    s.append(".");
    s.append(digit_str(size / 100 % 10));
    s.append(digit_str(size / 10 % 10));
    s.append(digit_str(size % 10));
    assert(s@ =~= spec_metres(mm as int));
    s
}

} // verus!
