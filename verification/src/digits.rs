//! Rendering a number as decimal text, for status codes and the
//! `Content-Length` header.

use vstd::prelude::*;

verus! {

/// The character for a single decimal digit.
pub open spec fn spec_digit(d: int) -> char {
    if d == 0 {
        '0'
    } else if d == 1 {
        '1'
    } else if d == 2 {
        '2'
    } else if d == 3 {
        '3'
    } else if d == 4 {
        '4'
    } else if d == 5 {
        '5'
    } else if d == 6 {
        '6'
    } else if d == 7 {
        '7'
    } else if d == 8 {
        '8'
    } else {
        '9'
    }
}

/// The decimal digits of `n`, most significant first, with no leading
/// zeros except for `n == 0` itself.
pub open spec fn spec_dec(n: nat) -> Seq<char>
    decreases n,
{
    if n < 10 {
        seq![spec_digit(n as int)]
    } else {
        spec_dec(n / 10) + seq![spec_digit((n % 10) as int)]
    }
}

/// The digit characters of `ds` read back to front.
pub open spec fn rev_chars(ds: Seq<u8>) -> Seq<char> {
    Seq::new(ds.len(), |i: int| spec_digit(ds[ds.len() - 1 - i] as int))
}

/// The one-character string for a single decimal digit.
fn digit_str(d: u8) -> (r: &'static str)
    requires
        d < 10,
    ensures
        r@ == seq![spec_digit(d as int)],
{
    proof {
        reveal_strlit("0");
        reveal_strlit("1");
        reveal_strlit("2");
        reveal_strlit("3");
        reveal_strlit("4");
        reveal_strlit("5");
        reveal_strlit("6");
        reveal_strlit("7");
        reveal_strlit("8");
        reveal_strlit("9");
    }
    match d {
        0 => "0",
        1 => "1",
        2 => "2",
        3 => "3",
        4 => "4",
        5 => "5",
        6 => "6",
        7 => "7",
        8 => "8",
        _ => "9",
    }
}

/// `n` written out in decimal.
pub fn dec_string(n: u64) -> (r: String)
    ensures
        r@ == spec_dec(n as nat),
{
    if n == 0 {
        let mut s = String::new();
        s.append(digit_str(0));
        proof {
            assert(s@ =~= spec_dec(0));
        }
        return s;
    }
    let mut digits: Vec<u8> = Vec::new();
    let mut m: u64 = n;
    while m > 0
        invariant
            m > 0 ==> spec_dec(n as nat) == spec_dec(m as nat) + rev_chars(digits@),
            m == 0 ==> spec_dec(n as nat) == rev_chars(digits@),
            forall|j: int| 0 <= j < digits@.len() ==> digits@[j] < 10,
        decreases m,
    {
        let ghost prev = digits@;
        let ghost m0 = m as nat;
        let d = (m % 10) as u8;
        digits.push(d);
        m = m / 10;
        proof {
            assert(rev_chars(digits@) =~= seq![spec_digit(d as int)] + rev_chars(prev));
            if m > 0 {
                assert(m0 >= 10);
                assert(spec_dec(m0) == spec_dec(m0 / 10) + seq![
                    spec_digit((m0 % 10) as int),
                ]);
                assert(spec_dec(m as nat) + rev_chars(digits@) =~= (spec_dec(m as nat)
                    + seq![spec_digit(d as int)]) + rev_chars(prev));
                assert(spec_dec(n as nat) =~= spec_dec(m as nat) + rev_chars(digits@));
            } else {
                assert(m0 < 10);
                assert(spec_dec(m0) == seq![spec_digit(m0 as int)]);
                assert(spec_dec(n as nat) =~= rev_chars(digits@));
            }
        }
    }
    let mut s = String::new();
    let mut i: usize = digits.len();
    proof {
        assert(s@ =~= rev_chars(digits@).subrange(0, 0));
    }
    while i > 0
        invariant
            i <= digits@.len(),
            forall|j: int| 0 <= j < digits@.len() ==> digits@[j] < 10,
            spec_dec(n as nat) == rev_chars(digits@),
            s@ == rev_chars(digits@).subrange(0, digits@.len() - i),
        decreases i,
    {
        i = i - 1;
        s.append(digit_str(digits[i]));
        proof {
            let rev = rev_chars(digits@);
            let k = digits@.len() - i - 1;
            assert(rev[k as int] == spec_digit(digits@[i as int] as int));
            assert(s@ =~= rev.subrange(0, digits@.len() - i));
        }
    }
    proof {
        assert(rev_chars(digits@).subrange(0, digits@.len() as int) =~= rev_chars(
            digits@,
        ));
    }
    s
}

} // verus!
