//! String similarity between a query and a catalog identifier.
//!
//! Matching lowercases both sides and compares them with the Jaro-Winkler
//! metric. Both steps are outside calls; each is named here by an
//! uninterpreted function of its input, so that contracts elsewhere can
//! speak of the score exactly without restating either algorithm.

use vstd::prelude::*;

verus! {

/// The character sequence that lowercasing maps `s` to.
pub uninterp spec fn lower_of(s: Seq<char>) -> Seq<char>;

/// Relies on `str::to_lowercase`: the result is a function of the
/// characters alone.
#[verifier::external_body]
pub(crate) fn lowercase(s: &str) -> (r: String)
    ensures
        r@ == lower_of(s@),
{
    s.to_lowercase()
}

/// The IEEE-754 bit pattern of the Jaro-Winkler similarity of `a` and `b`.
pub uninterp spec fn score_bits(a: Seq<char>, b: Seq<char>) -> u64;

/// The bit pattern of the similarity 1.0, the highest score a pair of
/// strings can reach.
pub const TOP_SCORE: u64 = 0x3FF0000000000000;

/// Relies on `strsim::jaro_winkler`: the similarity depends on the two
/// strings alone, lies between 0.0 and 1.0, and is exactly 1.0 when the
/// strings are equal. Bit patterns of non-negative IEEE-754 doubles order
/// as the doubles do, so the bit pattern of 1.0 bounds every score and
/// ranking by bit pattern is ranking by similarity.
#[verifier::external_body]
pub(crate) fn similarity_bits(a: &str, b: &str) -> (r: u64)
    ensures
        r == score_bits(a@, b@),
        r <= TOP_SCORE,
        a@ == b@ ==> r == TOP_SCORE,
{
    strsim::jaro_winkler(a, b).to_bits()
}

} // verus!
