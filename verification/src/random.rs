//! Random names for scripts: the `random_chars` helper.

use vstd::prelude::*;

verus! {

/// An ASCII letter or digit.
pub open spec fn is_ascii_alphanumeric(c: char) -> bool {
    let u = c as u32;
    ||| 0x30 <= u <= 0x39
    ||| 0x41 <= u <= 0x5a
    ||| 0x61 <= u <= 0x7a
}

/// Calls `Alphanumeric.sample_string` of `rand` with the thread's generator:
/// `len` characters, each an ASCII letter or digit drawn at random. A length
/// beyond `isize::MAX` makes the string's reservation fail, so it is excluded;
/// which characters come is left open.
#[verifier::external_body]
fn sample_alphanumeric(len: usize) -> (r: String)
    requires
        len <= isize::MAX,
    ensures
        r@.len() == len,
        forall|i: int| 0 <= i < len ==> is_ascii_alphanumeric(#[trigger] r@[i]),
{
    rand::distr::SampleString::sample_string(&rand::distr::Alphanumeric, &mut rand::rng(), len)
}

/// A string of `len` random ASCII letters and digits.
pub fn get_rand_chars(len: usize) -> (r: String)
    requires
        len <= isize::MAX,
    ensures
        r@.len() == len,
        forall|i: int| 0 <= i < len ==> is_ascii_alphanumeric(#[trigger] r@[i]),
{
    sample_alphanumeric(len)
}

/// `random_chars(len)`: a string of `len` random ASCII letters and digits.
pub fn random_chars(len: i32) -> (r: String)
    requires
        len >= 0,
    ensures
        r@.len() == len,
        forall|i: int| 0 <= i < len ==> is_ascii_alphanumeric(#[trigger] r@[i]),
{
    get_rand_chars(len as usize)
}

} // verus!
