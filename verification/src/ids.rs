//! Rendering client identities: a number becomes a short alphanumeric
//! string, least-significant digit first, so that distinct identities tend
//! to start with different characters.

use vstd::prelude::*;
use vstd::string::StrSliceExecFns;

verus! {

/// Relies on `String::push`: appends exactly the given character.
pub assume_specification[ String::push ](s: &mut String, c: char)
    ensures
        final(s)@ == old(s)@.push(c),
;

/// The digits used, in value order: decimal digits, then upper case, then
/// lower case.
pub open spec fn pretty_charset() -> Seq<char> {
    "0123456789ABCDEFGHIJKLMNOPQRSTUVWXYZabcdefghijklmnopqrstuvwxyz"@
}

/// The base-62 rendering of a number, least-significant digit first; zero
/// renders as the empty string.
pub open spec fn pretty_of(n: nat) -> Seq<char>
    decreases n,
{
    if n == 0 {
        Seq::empty()
    } else {
        seq![pretty_charset()[(n % 62) as int]] + pretty_of((n / 62) as nat)
    }
}

/// Converts a number into an alphanumeric string. Little-endian digit order
/// ensures that identities drawn at random most often begin with different
/// characters.
pub fn pretty_num(n: u128) -> (r: String)
    ensures
        r@ == pretty_of(n as nat),
{
    let charset = "0123456789ABCDEFGHIJKLMNOPQRSTUVWXYZabcdefghijklmnopqrstuvwxyz";
    proof {
        reveal_strlit("0123456789ABCDEFGHIJKLMNOPQRSTUVWXYZabcdefghijklmnopqrstuvwxyz");
        assert(charset@.len() == 62);
        assert(Seq::<char>::empty() + pretty_of(n as nat) =~= pretty_of(n as nat));
    }
    let mut r = String::new();
    let mut rem: u128 = n;
    while rem > 0
        invariant
            charset@ == pretty_charset(),
            charset@.len() == 62,
            r@ + pretty_of(rem as nat) == pretty_of(n as nat),
        decreases rem,
    {
        let ghost r0 = r@;
        let ghost rem0 = rem;
        let d = (rem % 62) as usize;
        let c = charset.get_char(d);
        r.push(c);
        rem = rem / 62;
        proof {
            assert(rem0 as nat % 62 == d as nat && rem0 as nat / 62 == rem as nat && rem
                < rem0) by (nonlinear_arith)
                requires
                    rem0 > 0,
                    d == rem0 % 62,
                    rem == rem0 / 62,
            ;
            assert(pretty_of(rem0 as nat) == seq![pretty_charset()[(rem0 as nat % 62) as int]]
                + pretty_of((rem0 as nat / 62) as nat));
            assert(r@ + pretty_of(rem as nat) =~= r0 + pretty_of(rem0 as nat));
        }
    }
    proof {
        assert(r@ + pretty_of(0) =~= r@);
    }
    r
}

} // verus!
