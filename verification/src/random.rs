//! Random identifiers and passwords, drawn by `rand`.
use vstd::prelude::*;

use crate::text::is_ascii_alphanumeric;

verus! {

/// Calls `Alphanumeric.sample_string(&mut rand::rng(), len)` of `rand`.
///
/// Claims what `rand` documents and its source shows: exactly `len`
/// characters, each drawn from `A-Z`, `a-z` and `0-9`. Which characters
/// come out is left open: they are random.
#[verifier::external_body]
pub(crate) fn random_alphanumeric(len: usize) -> (s: String)
    ensures
        s@.len() == len,
        forall|i: int| 0 <= i < len ==> is_ascii_alphanumeric(#[trigger] s@[i]),
{
    rand::distr::SampleString::sample_string(&rand::distr::Alphanumeric, &mut rand::rng(), len)
}

} // verus!
