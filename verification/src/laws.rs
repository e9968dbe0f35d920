//! The laws the matcher and the merge obey.
//!
//! Each law is a proof function: its `requires` are the postconditions of
//! the functions it relates, so a caller that holds those results can
//! conclude the law's `ensures` about them.

use vstd::prelude::*;

use crate::rank::{is_ranking, lemma_ranking_top, lemma_ranking_unique};
use crate::similarity::{lower_of, TOP_SCORE};
use crate::types::{
    is_best_match, is_ranked_result, merged_model, query_scores, ranked_prefix, LicenseModel,
};

verus! {

/// A single best match and a one-entry ranked result are the same record:
/// on any non-empty catalog, `match_license` and `match_licenses` asked
/// for one entry agree.
pub proof fn lemma_single_match_agrees(
    catalog: Seq<LicenseModel>,
    query: Seq<char>,
    best: LicenseModel,
    top: Seq<LicenseModel>,
)
    requires
        is_best_match(catalog, query, best),
        is_ranked_result(catalog, query, 1, top),
    ensures
        top.len() == 1,
        top[0] == best,
{
    let scores = query_scores(catalog, query);
    let i1 = choose|idx: Seq<int>| is_ranking(idx, scores) && best == catalog[idx[0]];
    let i2 = choose|idx: Seq<int>|
        is_ranking(idx, scores) && top =~= ranked_prefix(catalog, idx, 1);
    lemma_ranking_unique(i1, i2, scores);
    assert(top[0] == ranked_prefix(catalog, i2, 1)[0]);
}

/// Matching is insensitive to the casing of the query: two queries with
/// the same lowercasing rank the catalog identically.
pub proof fn lemma_match_case_insensitive(
    catalog: Seq<LicenseModel>,
    q1: Seq<char>,
    q2: Seq<char>,
    count: nat,
    r1: Seq<LicenseModel>,
    r2: Seq<LicenseModel>,
)
    requires
        lower_of(q1) == lower_of(q2),
        is_ranked_result(catalog, q1, count, r1),
        is_ranked_result(catalog, q2, count, r2),
    ensures
        r1 =~= r2,
{
    assert(query_scores(catalog, q1) =~= query_scores(catalog, q2));
    let scores = query_scores(catalog, q1);
    let i1 = choose|idx: Seq<int>|
        is_ranking(idx, query_scores(catalog, q1)) && r1 =~= ranked_prefix(catalog, idx, count);
    let i2 = choose|idx: Seq<int>|
        is_ranking(idx, query_scores(catalog, q2)) && r2 =~= ranked_prefix(catalog, idx, count);
    lemma_ranking_unique(i1, i2, scores);
    assert(r1 =~= r2);
}

/// A head entry that no candidate out-scores ranks first, ties broken by
/// catalog order. In particular an exact-identifier match at the head of
/// the catalog comes out first: by `match_licenses`' contract it scores
/// the top score, which no other candidate exceeds, and an equal-scoring
/// later candidate does not displace it.
pub proof fn lemma_best_scoring_head_ranks_first(
    catalog: Seq<LicenseModel>,
    query: Seq<char>,
    count: nat,
    r: Seq<LicenseModel>,
)
    requires
        catalog.len() > 0,
        count >= 1,
        forall|k: int|
            0 <= k < catalog.len() ==> #[trigger] query_scores(catalog, query)[k] <= query_scores(
                catalog,
                query,
            )[0],
        is_ranked_result(catalog, query, count, r),
    ensures
        r.len() == count,
        r[0] == catalog[0],
{
    let scores = query_scores(catalog, query);
    let idx = choose|idx: Seq<int>|
        is_ranking(idx, scores) && r =~= ranked_prefix(catalog, idx, count);
    lemma_ranking_top(idx, scores, 0);
    assert(r[0] == ranked_prefix(catalog, idx, count)[0]);
}

/// An exact-identifier match at the head of the catalog ranks first, even
/// when a later candidate ties with it. The score clauses are the ones
/// `match_licenses` ensures: an entry whose lowercased identifier equals
/// the lowercased query scores the top score, which no candidate exceeds.
pub proof fn lemma_exact_head_match_ranks_first(
    catalog: Seq<LicenseModel>,
    query: Seq<char>,
    count: nat,
    r: Seq<LicenseModel>,
)
    requires
        catalog.len() > 0,
        count >= 1,
        lower_of(catalog[0].license_id) == lower_of(query),
        forall|k: int|
            0 <= k < catalog.len() ==> #[trigger] query_scores(catalog, query)[k] <= TOP_SCORE,
        forall|k: int|
            0 <= k < catalog.len() && lower_of((#[trigger] catalog[k]).license_id) == lower_of(
                query,
            ) ==> query_scores(catalog, query)[k] == TOP_SCORE,
        is_ranked_result(catalog, query, count, r),
    ensures
        r.len() == count,
        r[0] == catalog[0],
{
    let scores = query_scores(catalog, query);
    assert(scores[0] == TOP_SCORE);
    assert forall|k: int| 0 <= k < catalog.len() implies #[trigger] scores[k] <= scores[0] by {}
    lemma_best_scoring_head_ranks_first(catalog, query, count, r);
}

/// A request for zero matches yields the empty sequence, whatever the
/// catalog holds: with `match_licenses`' length clause, a limit of zero
/// returns nothing.
pub proof fn lemma_zero_limit_matches_nothing(len: nat)
    ensures
        crate::types::match_count(Some(0usize), len) == 0,
{
}

/// An empty catalog yields the empty sequence, whatever the limit: with
/// `match_licenses`' length clause, nothing is returned.
pub proof fn lemma_empty_catalog_matches_nothing(n: Option<usize>)
    ensures
        crate::types::match_count(n, 0) == 0,
{
}

/// Merging a record into itself gives back the record: the merge is
/// idempotent on every field the two sides share.
pub proof fn lemma_merge_idempotent(l: LicenseModel)
    ensures
        merged_model(l, l) == l,
{
}

/// Listing-only fields the detail record lacks survive the merge
/// unchanged from the list-context record.
pub proof fn lemma_merge_preserves_listing_fields(base: LicenseModel, detail: LicenseModel)
    requires
        detail.reference is None,
        detail.details_url is None,
        detail.reference_number is None,
    ensures
        merged_model(base, detail).reference == base.reference,
        merged_model(base, detail).details_url == base.details_url,
        merged_model(base, detail).reference_number == base.reference_number,
{
}

} // verus!
