//! Conversions between `String` and explicit character sequences.
//!
//! The parser and renderer work on `Vec<char>`, where every position is
//! directly addressable; these helpers cross over to `String` at the crate
//! boundary.

use vstd::prelude::*;
use vstd::string::StrSliceExecFns;

verus! {

/// Relies on `String: FromIterator<char>`: the collected string holds
/// exactly the characters of `v`, in order.
#[verifier::external_body]
pub fn chars_to_string(v: &Vec<char>) -> (r: String)
    ensures
        r@ == v@,
{
    v.iter().collect()
}

/// Character-wise equality of a string against a literal.
pub fn string_eq_str(s: &String, lit: &str) -> (b: bool)
    ensures
        b == (s@ == lit@),
{
    let owned: String = lit.to_owned();
    *s == owned
}

pub fn string_to_chars(s: &str) -> (r: Vec<char>)
    ensures
        r@ == s@,
{
    let n = s.unicode_len();
    let mut r: Vec<char> = Vec::new();
    let mut i: usize = 0;
    while i < n
        invariant
            i <= n,
            n == s@.len(),
            r@ =~= s@.subrange(0, i as int),
        decreases n - i,
    {
        r.push(s.get_char(i));
        proof {
            assert(r@ =~= s@.subrange(0, i + 1 as int));
        }
        i += 1;
    }
    proof {
        assert(r@ =~= s@);
    }
    r
}

} // verus!
