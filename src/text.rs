//! Rendering of numbers as text.
use vstd::prelude::*;
use vstd::string::*;

verus! {

pub open spec fn digit_char(d: int) -> char {
    seq!['0', '1', '2', '3', '4', '5', '6', '7', '8', '9'][d]
}

/// The decimal digits of `n`, without leading zeros.
pub open spec fn decimal(n: nat) -> Seq<char>
    decreases n,
{
    if n < 10 {
        seq![digit_char(n as int)]
    } else {
        decimal(n / 10).push(digit_char((n % 10) as int))
    }
}

/// At least two digits, with a leading zero where needed.
pub open spec fn two_digit(n: nat) -> Seq<char> {
    if n < 10 {
        seq!['0'] + decimal(n)
    } else {
        decimal(n)
    }
}

/// A UTC offset of `secs` seconds written as `+HH:MM`, or `+HH:MM:SS` when
/// it is not a whole number of minutes.
pub open spec fn offset_text(secs: int) -> Seq<char> {
    let sign = if secs < 0 {
        '-'
    } else {
        '+'
    };
    let a: nat = (if secs < 0 {
        -secs
    } else {
        secs
    }) as nat;
    let hm = seq![sign] + two_digit(a / 3600) + seq![':'] + two_digit((a / 60) % 60);
    if a % 60 == 0 {
        hm
    } else {
        hm + seq![':'] + two_digit(a % 60)
    }
}

fn digit_str(d: u64) -> (r: &'static str)
    requires
        d < 10,
    ensures
        r@ == seq![digit_char(d as int)],
{
    proof {
        reveal_strlit("0");
        reveal_strlit("1");
        reveal_strlit("2");
        reveal_strlit("3");
        reveal_strlit("4");
        reveal_strlit("5");
        reveal_strlit("6");
        reveal_strlit("7");
        reveal_strlit("8");
        reveal_strlit("9");
    }
    if d == 0 {
        "0"
    } else if d == 1 {
        "1"
    } else if d == 2 {
        "2"
    } else if d == 3 {
        "3"
    } else if d == 4 {
        "4"
    } else if d == 5 {
        "5"
    } else if d == 6 {
        "6"
    } else if d == 7 {
        "7"
    } else if d == 8 {
        "8"
    } else {
        "9"
    }
}

/// Appends the decimal digits of `n` to `out`.
pub fn push_decimal(out: &mut String, n: u64)
    ensures
        final(out)@ == old(out)@ + decimal(n as nat),
    decreases n,
{
    if n < 10 {
        out.append(digit_str(n));
    } else {
        push_decimal(out, n / 10);
        out.append(digit_str(n % 10));
        assert(old(out)@ + decimal(n as nat) =~= old(out)@ + decimal((n / 10) as nat) + seq![
            digit_char((n % 10) as int),
        ]);
    }
}

/// Appends `n` with at least two digits.
pub fn push_two_digit(out: &mut String, n: u64)
    ensures
        final(out)@ == old(out)@ + two_digit(n as nat),
{
    proof {
        reveal_strlit("0");
    }
    if n < 10 {
        out.append("0");
        assert(old(out)@ + two_digit(n as nat) =~= old(out)@ + seq!['0'] + decimal(n as nat));
    }
    push_decimal(out, n);
}

/// The decimal text of `n`.
pub fn decimal_text(n: u64) -> (r: String)
    ensures
        r@ == decimal(n as nat),
{
    let mut r = String::new();
    push_decimal(&mut r, n);
    assert(Seq::<char>::empty() + decimal(n as nat) =~= decimal(n as nat));
    r
}

/// The text of a UTC offset of `seconds`, as the metadata tool takes it.
pub fn offset_string(seconds: i32) -> (r: String)
    ensures
        r@ == offset_text(seconds as int),
{
    proof {
        reveal_strlit("+");
        reveal_strlit("-");
        reveal_strlit(":");
    }
    let a: u64 = if seconds < 0 {
        (-(seconds as i64)) as u64
    } else {
        seconds as u64
    };
    let mut r = if seconds < 0 {
        String::from_str("-")
    } else {
        String::from_str("+")
    };
    push_two_digit(&mut r, a / 3600);
    r.append(":");
    push_two_digit(&mut r, (a / 60) % 60);
    if a % 60 != 0 {
        r.append(":");
        push_two_digit(&mut r, a % 60);
    }
    r
}

} // verus!
