//! Small string utilities shared by the filters and the responder:
//! conversions between `String` and `Vec<char>`, a verified string
//! comparison, and the one Unicode operation (uppercasing) that is
//! delegated to the standard library.
use vstd::prelude::*;

verus! {

/// The uppercase mapping computed by `str::to_uppercase`. The standard
/// library defines it by Unicode tables; it depends on the characters of
/// the input alone, so it is only named here.
pub uninterp spec fn upper_of(s: Seq<char>) -> Seq<char>;

/// Relies on `str::to_uppercase`: the result is the Unicode uppercase
/// mapping of the input, a function of the input characters alone; an
/// empty input gives an empty result.
#[verifier::external_body]
pub(crate) fn to_upper(s: &str) -> (r: String)
    ensures
        r@ == upper_of(s@),
        s@.len() == 0 ==> r@.len() == 0,
{
    s.to_uppercase()
}

/// Relies on `String`'s `FromIterator<char>` impl (via `Iterator::collect`):
/// the resulting string contains exactly the characters of the iterator,
/// in order.
#[verifier::external_body]
pub(crate) fn chars_to_string(v: &Vec<char>) -> (r: String)
    ensures
        r@ == v@,
{
    v.iter().collect()
}

/// The characters of a string, as a vector.
pub fn string_to_chars(s: &str) -> (r: Vec<char>)
    ensures
        r@ == s@,
{
    let n = s.unicode_len();
    let mut r: Vec<char> = Vec::new();
    let mut i: usize = 0;
    while i < n
        invariant
            n == s@.len(),
            i <= n,
            r@ == s@.take(i as int),
        decreases n - i,
    {
        r.push(s.get_char(i));
        proof {
            assert(r@ =~= s@.take(i + 1));
        }
        i += 1;
    }
    proof {
        assert(r@ =~= s@);
    }
    r
}

/// Character-by-character string equality.
pub fn str_eq(a: &str, b: &str) -> (r: bool)
    ensures
        r == (a@ == b@),
{
    let na = a.unicode_len();
    let nb = b.unicode_len();
    if na != nb {
        proof {
            assert(a@ != b@);
        }
        return false;
    }
    let mut i: usize = 0;
    while i < na
        invariant
            na == a@.len(),
            na == b@.len(),
            i <= na,
            forall|j: int| 0 <= j < i ==> a@[j] == b@[j],
        decreases na - i,
    {
        if a.get_char(i) != b.get_char(i) {
            return false;
        }
        i += 1;
    }
    proof {
        assert(a@ =~= b@);
    }
    true
}

} // verus!
