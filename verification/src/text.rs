//! Decimal text of integers, appended to strings.
use vstd::prelude::*;

verus! {

/// The character of the decimal digit `d` (`0 <= d < 10`).
pub open spec fn digit_char(d: int) -> char {
    if d == 0 {
        '0'
    } else if d == 1 {
        '1'
    } else if d == 2 {
        '2'
    } else if d == 3 {
        '3'
    } else if d == 4 {
        '4'
    } else if d == 5 {
        '5'
    } else if d == 6 {
        '6'
    } else if d == 7 {
        '7'
    } else if d == 8 {
        '8'
    } else {
        '9'
    }
}

/// The decimal digits of `n`, most significant first, without leading
/// zeros (`"0"` for zero).
pub open spec fn decimal(n: nat) -> Seq<char>
    decreases n,
{
    if n < 10 {
        seq![digit_char(n as int)]
    } else {
        decimal(n / 10).push(digit_char((n % 10) as int))
    }
}

/// The decimal text of the integer `i`, with a leading `-` when negative.
pub open spec fn signed_decimal(i: int) -> Seq<char> {
    if i < 0 {
        seq!['-'] + decimal((-i) as nat)
    } else {
        decimal(i as nat)
    }
}

/// The one-character string of the digit `d`.
fn digit_str(d: u64) -> (s: &'static str)
    requires
        d < 10,
    ensures
        s@ == seq![digit_char(d as int)],
{
    match d {
        0 => {
            proof {
                reveal_strlit("0");
            }
            "0"
        },
        1 => {
            proof {
                reveal_strlit("1");
            }
            "1"
        },
        2 => {
            proof {
                reveal_strlit("2");
            }
            "2"
        },
        3 => {
            proof {
                reveal_strlit("3");
            }
            "3"
        },
        4 => {
            proof {
                reveal_strlit("4");
            }
            "4"
        },
        5 => {
            proof {
                reveal_strlit("5");
            }
            "5"
        },
        6 => {
            proof {
                reveal_strlit("6");
            }
            "6"
        },
        7 => {
            proof {
                reveal_strlit("7");
            }
            "7"
        },
        8 => {
            proof {
                reveal_strlit("8");
            }
            "8"
        },
        _ => {
            proof {
                reveal_strlit("9");
            }
            "9"
        },
    }
}

/// Appends the decimal digits of `n` to `s`.
pub fn push_decimal(s: &mut String, n: u64)
    ensures
        final(s)@ == old(s)@ + decimal(n as nat),
    decreases n,
{
    if n >= 10 {
        push_decimal(s, n / 10);
    }
    s.append(digit_str(n % 10));
    proof {
        if n >= 10 {
            assert(decimal(n as nat) == decimal((n / 10) as nat).push(digit_char((n % 10) as int)));
        }
    }
}

/// Appends the decimal text of `i`, with a leading `-` when negative.
pub fn push_signed_decimal(s: &mut String, i: i64)
    ensures
        final(s)@ == old(s)@ + signed_decimal(i as int),
{
    if i < 0 {
        proof {
            reveal_strlit("-");
        }
        s.append("-");
        let m: u64 = if i == i64::MIN {
            9223372036854775808u64
        } else {
            (-i) as u64
        };
        push_decimal(s, m);
        assert(s@ =~= old(s)@ + signed_decimal(i as int));
    } else {
        push_decimal(s, i as u64);
    }
}

/// `text` as a new string.
pub fn owned(text: &str) -> (s: String)
    ensures
        s@ == text@,
{
    String::from_str(text)
}

/// `num / (unit * 10)` with one decimal place, rounded half up: the whole
/// part, a point and the tenths digit.
pub open spec fn tenths(num: nat, unit: nat) -> Seq<char> {
    let q = (num + unit / 2) / unit;
    decimal(q / 10) + seq!['.', digit_char((q % 10) as int)]
}

/// Appends `num / (unit * 10)` with one decimal place, rounded half up.
pub fn push_tenths(s: &mut String, num: u64, unit: u64)
    requires
        unit > 0,
    ensures
        final(s)@ == old(s)@ + tenths(num as nat, unit as nat),
{
    let a = num / unit;
    let b = num % unit;
    proof {
        vstd::arithmetic::div_mod::lemma_fundamental_div_mod(num as int, unit as int);
        if unit >= 2 {
            assert(a <= num / 2) by (nonlinear_arith)
                requires a == num / unit, unit >= 2, num >= 0;
        }
    }
    let q: u64 = if b >= unit - unit / 2 { a + 1 } else { a };
    proof {
        let t = b + unit / 2;
        assert(num + unit / 2 == unit * a + t);
        if b >= unit - unit / 2 {
            assert((a + 1) * unit == unit * a + unit) by (nonlinear_arith);
            vstd::arithmetic::div_mod::lemma_fundamental_div_mod_converse_div(
                (num + unit / 2) as int,
                unit as int,
                a + 1,
                t - unit,
            );
        } else {
            vstd::arithmetic::div_mod::lemma_fundamental_div_mod_converse_div((num + unit / 2) as int, unit as int, a as int, t as int);
        }
        assert(q == (num + unit / 2) / (unit as int));
    }
    push_decimal(s, q / 10);
    proof {
        reveal_strlit(".");
    }
    s.append(".");
    s.append(digit_str(q % 10));
    assert(s@ =~= old(s)@ + tenths(num as nat, unit as nat));
}

} // verus!
