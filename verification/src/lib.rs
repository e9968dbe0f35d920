//! A client library for the SPDX license registry.
//!
//! The library resolves a human-supplied, possibly miscased identifier
//! (`"mit"`) into the registry's complete record for the best-matching
//! license. It ranks every catalog entry by string similarity to the query,
//! picks the best match, and merges the match's list-context record with the
//! per-license detail record into one coherent result. The HTTP transport
//! that fetches the two JSON documents lives outside this crate; the
//! matching, ranking, merging and error-propagation logic lives here.

/// Core license types and the merge step.
pub mod types;

/// Ranking of similarity scores: a stable descending order.
pub mod rank;

/// The similarity metric behind the matcher.
pub mod similarity;

/// SPDX registry endpoints: base URL and document URLs.
pub mod spdx;

/// The laws the matcher and the merge obey.
pub mod laws;

pub use types::{
    CrossRef, CrossRefModel, License, LicenseModel, Licenses, LicensesModel, is_best_match,
    is_ranked_result, match_count, merged_model, query_scores,
};
pub use spdx::SPDX;

use vstd::prelude::*;

verus! {

/// A failure of one resolve or fetch step.
///
/// `Transport` covers network failures reaching the registry, `Decode` a
/// response body that does not parse into the expected shape, `NotFound` a
/// registry reply that the identifier does not exist, and `NoMatch` an empty
/// catalog in which no candidate could be ranked.
#[derive(PartialEq, Eq, Structural, Clone, Copy, Debug)]
pub enum Error {
    /// Network or connection failure reaching the registry.
    Transport,
    /// The response body does not parse into the expected shape.
    Decode,
    /// The registry reports that the identifier does not exist.
    NotFound,
    /// The catalog was empty, so no candidate could be ranked.
    NoMatch,
}

/// The first resolve step, applied to the outcome of fetching the catalog:
/// a fetch failure propagates unchanged — in particular a `Transport`
/// failure is never reported as `NoMatch` — an empty catalog yields
/// `NoMatch`, and otherwise the best fuzzy match for `query` is selected.
///
/// Its result's `license_id` is the canonical identifier to fetch the
/// detail record with; [`resolve_detail`] finishes the resolve.
pub fn resolve_candidate(fetched: Result<Licenses, Error>, query: &str) -> (r: Result<
    License,
    Error,
>)
    ensures
        fetched is Err ==> r == Err::<License, Error>(fetched->Err_0),
        fetched is Ok && fetched->Ok_0@.licenses.len() == 0 ==> r == Err::<License, Error>(
            Error::NoMatch,
        ),
        fetched is Ok && fetched->Ok_0@.licenses.len() > 0 ==> r is Ok && is_best_match(
            fetched->Ok_0@.licenses,
            query@,
            r->Ok_0@,
        ),
{
    match fetched {
        Err(e) => Err(e),
        Ok(list) => match list.match_license(query) {
            Some(best) => Ok(best),
            None => Err(Error::NoMatch),
        },
    }
}

/// The second resolve step, applied to the matched catalog record and the
/// outcome of fetching its detail record: a fetch failure propagates
/// unchanged — `NotFound` comes out exactly as the fetch reported it — and
/// a fetched detail record is merged onto the matched record,
/// detail-context fields authoritative and listing-only fields preserved.
pub fn resolve_detail(matched: License, fetched: Result<License, Error>) -> (r: Result<
    License,
    Error,
>)
    ensures
        fetched is Err ==> r == Err::<License, Error>(fetched->Err_0),
        fetched is Ok ==> r is Ok && r->Ok_0@ == merged_model(matched@, fetched->Ok_0@),
{
    match fetched {
        Err(e) => Err(e),
        Ok(detail) => Ok(matched.merge(detail)),
    }
}

} // verus!
