//! Decimal rendering of integers, used when a resolved variable is
//! substituted into the key expression and when links are assembled.
use vstd::prelude::*;

verus! {

/// The decimal digit character for `d`.
pub open spec fn digit_char(d: int) -> char {
    if d == 0 {
        '0'
    } else if d == 1 {
        '1'
    } else if d == 2 {
        '2'
    } else if d == 3 {
        '3'
    } else if d == 4 {
        '4'
    } else if d == 5 {
        '5'
    } else if d == 6 {
        '6'
    } else if d == 7 {
        '7'
    } else if d == 8 {
        '8'
    } else {
        '9'
    }
}

/// Decimal digits of a non-negative integer, most significant first.
pub open spec fn spec_dec_nat(n: int) -> Seq<char>
    recommends
        n >= 0,
    decreases n,
{
    if n < 10 {
        seq![digit_char(n)]
    } else {
        spec_dec_nat(n / 10).push(digit_char(n % 10))
    }
}

/// Decimal rendering of a signed integer, with a leading minus sign for
/// negative values, as the standard formatter writes it.
pub open spec fn spec_dec_int(v: int) -> Seq<char> {
    if v >= 0 {
        spec_dec_nat(v)
    } else {
        seq!['-'] + spec_dec_nat(-v)
    }
}

fn digit_str(d: u64) -> (r: &'static str)
    requires
        d < 10,
    ensures
        r@ == seq![digit_char(d as int)],
{
    if d == 0 {
        proof {
            reveal_strlit("0");
        }
        proof {
            assert("0"@ =~= seq![digit_char(0int)]);
        }
        "0"
    } else if d == 1 {
        proof {
            reveal_strlit("1");
            assert("1"@ =~= seq![digit_char(1int)]);
        }
        "1"
    } else if d == 2 {
        proof {
            reveal_strlit("2");
            assert("2"@ =~= seq![digit_char(2int)]);
        }
        "2"
    } else if d == 3 {
        proof {
            reveal_strlit("3");
            assert("3"@ =~= seq![digit_char(3int)]);
        }
        "3"
    } else if d == 4 {
        proof {
            reveal_strlit("4");
            assert("4"@ =~= seq![digit_char(4int)]);
        }
        "4"
    } else if d == 5 {
        proof {
            reveal_strlit("5");
            assert("5"@ =~= seq![digit_char(5int)]);
        }
        "5"
    } else if d == 6 {
        proof {
            reveal_strlit("6");
            assert("6"@ =~= seq![digit_char(6int)]);
        }
        "6"
    } else if d == 7 {
        proof {
            reveal_strlit("7");
            assert("7"@ =~= seq![digit_char(7int)]);
        }
        "7"
    } else if d == 8 {
        proof {
            reveal_strlit("8");
            assert("8"@ =~= seq![digit_char(8int)]);
        }
        "8"
    } else {
        proof {
            reveal_strlit("9");
            assert("9"@ =~= seq![digit_char(9int)]);
        }
        "9"
    }
}

pub fn dec_u64(n: u64) -> (r: String)
    ensures
        r@ == spec_dec_nat(n as int),
    decreases n,
{
    if n < 10 {
        let s = digit_str(n);
        let r = s.to_owned();
        proof {
            assert(r@ =~= spec_dec_nat(n as int));
        }
        r
    } else {
        let mut r = dec_u64(n / 10);
        r.append(digit_str(n % 10));
        proof {
            assert(r@ =~= spec_dec_nat(n as int));
        }
        r
    }
}

pub fn dec_i64(v: i64) -> (r: String)
    ensures
        r@ == spec_dec_int(v as int),
{
    if v >= 0 {
        dec_u64(v as u64)
    } else {
        let m: i128 = -(v as i128);
        let mu: u64 = m as u64;
        proof {
            assert(mu as int == -(v as int));
        }
        let mut r = {
            proof {
                reveal_strlit("-");
            }
            "-".to_owned()
        };
        let tail = dec_u64(mu);
        r.append(tail.as_str());
        proof {
            assert("-"@ =~= seq!['-']);
            assert(r@ =~= spec_dec_int(v as int));
        }
        r
    }
}

} // verus!
