//! Building the redirect target for a backend: the `Location` header value
//! `http://<host>:<port>/`, with the port printed in decimal.

use vstd::prelude::*;
use vstd::arithmetic::div_mod::lemma_div_is_strictly_smaller;
use vstd::string::StringExecFns;
use crate::backend::{Backend, BackendView};

verus! {

/// The decimal digit character for a value below ten.
pub open spec fn digit_char(d: nat) -> char
    recommends
        d < 10,
{
    if d == 0 {
        '0'
    } else if d == 1 {
        '1'
    } else if d == 2 {
        '2'
    } else if d == 3 {
        '3'
    } else if d == 4 {
        '4'
    } else if d == 5 {
        '5'
    } else if d == 6 {
        '6'
    } else if d == 7 {
        '7'
    } else if d == 8 {
        '8'
    } else {
        '9'
    }
}

/// The decimal representation of `n`, most significant digit first, with no
/// leading zeros (a single zero digit for zero itself).
pub open spec fn spec_digits(n: nat) -> Seq<char>
    decreases n,
{
    if n < 10 {
        seq![digit_char(n)]
    } else {
        spec_digits(n / 10) + seq![digit_char(n % 10)]
    }
}

/// The redirect target for a backend: `http://<host>:<port>/`.
pub open spec fn spec_location(b: BackendView) -> Seq<char> {
    "http://"@ + b.host + ":"@ + spec_digits(b.port as nat) + "/"@
}

/// The one-character string for a single decimal digit.
fn digit_str(d: u16) -> (s: &'static str)
    requires
        d < 10,
    ensures
        s@ == seq![digit_char(d as nat)],
{
    let s: &'static str = if d == 0 {
        "0"
    } else if d == 1 {
        "1"
    } else if d == 2 {
        "2"
    } else if d == 3 {
        "3"
    } else if d == 4 {
        "4"
    } else if d == 5 {
        "5"
    } else if d == 6 {
        "6"
    } else if d == 7 {
        "7"
    } else if d == 8 {
        "8"
    } else {
        "9"
    };
    proof {
        reveal_strlit("0");
        reveal_strlit("1");
        reveal_strlit("2");
        reveal_strlit("3");
        reveal_strlit("4");
        reveal_strlit("5");
        reveal_strlit("6");
        reveal_strlit("7");
        reveal_strlit("8");
        reveal_strlit("9");
        assert(s@ =~= seq![digit_char(d as nat)]);
    }
    s
}

/// Append the decimal digits of `n` to `out`.
fn push_decimal(out: &mut String, n: u16)
    ensures
        final(out)@ == old(out)@ + spec_digits(n as nat),
    decreases n,
{
    let ghost pre: Seq<char> = out@;
    if n < 10 {
        out.append(digit_str(n));
        proof {
            assert(out@ =~= pre + spec_digits(n as nat));
        }
    } else {
        proof {
            lemma_div_is_strictly_smaller(n as int, 10);
        }
        push_decimal(out, n / 10);
        out.append(digit_str(n % 10));
        proof {
            assert(out@ =~= pre + spec_digits(n as nat));
        }
    }
}

/// Build the `Location` header value `http://<host>:<port>/` for a backend.
pub fn location(b: &Backend) -> (s: String)
    ensures
        s@ == spec_location(b@),
{
    let mut s = String::from_str("http://");
    s.append(b.host.as_str());
    s.append(":");
    push_decimal(&mut s, b.port);
    s.append("/");
    proof {
        assert(s@ =~= spec_location(b@));
    }
    s
}

} // verus!
