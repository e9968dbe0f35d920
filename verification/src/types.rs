//! Data model for the license registry: a single license record, its
//! cross-references, and the bulk list response, together with the merge
//! step that combines a list-context record with a detail-context record.

use vstd::prelude::*;

use crate::rank::{is_ranking, rank_indices};
use crate::similarity::{lower_of, lowercase, score_bits, similarity_bits, TOP_SCORE};

verus! {

/// One external citation for a license, as the registry reports it.
#[derive(Debug, PartialEq)]
pub struct CrossRef {
    /// The match label.
    pub match_label: String,
    /// The cited URL.
    pub url: String,
    /// Whether the URL is valid.
    pub is_valid: bool,
    /// Whether the URL is live.
    pub is_live: bool,
    /// When the citation was captured.
    pub timestamp: String,
    /// Whether the URL is a wayback link.
    pub is_way_back_link: bool,
    /// Display order of the citation.
    pub order: u32,
}

/// Mathematical model of a [`CrossRef`].
pub struct CrossRefModel {
    pub match_label: Seq<char>,
    pub url: Seq<char>,
    pub is_valid: bool,
    pub is_live: bool,
    pub timestamp: Seq<char>,
    pub is_way_back_link: bool,
    pub order: u32,
}

impl View for CrossRef {
    type V = CrossRefModel;

    open spec fn view(&self) -> CrossRefModel {
        CrossRefModel {
            match_label: self.match_label@,
            url: self.url@,
            is_valid: self.is_valid,
            is_live: self.is_live,
            timestamp: self.timestamp@,
            is_way_back_link: self.is_way_back_link,
            order: self.order,
        }
    }
}

impl Clone for CrossRef {
    fn clone(&self) -> (r: Self)
        ensures
            r@ == self@,
    {
        CrossRef {
            match_label: self.match_label.clone(),
            url: self.url.clone(),
            is_valid: self.is_valid,
            is_live: self.is_live,
            timestamp: self.timestamp.clone(),
            is_way_back_link: self.is_way_back_link,
            order: self.order,
        }
    }
}

/// One license record.
///
/// The registry serves the same license in two shapes. A record taken from
/// the bulk listing carries `reference`, `details_url` and `reference_number`
/// and lacks the text fields; a record taken from the per-license detail
/// endpoint carries `license_text`, `standard_license_template`,
/// `license_text_html` and `cross_ref` and lacks the listing fields. A field
/// the serving endpoint does not return is `None`, which is distinct from an
/// empty value.
#[derive(Debug, PartialEq)]
pub struct License {
    /// Display name of the license.
    pub name: String,
    /// Canonical, case-sensitive identifier; the sole stable key.
    pub license_id: String,
    /// URLs of related resources.
    pub see_also: Vec<String>,
    /// Whether the license is OSI approved.
    pub is_osi_approved: bool,
    /// Whether the license is FSF libre; `None` when the registry omits it.
    pub is_fsf_libre: Option<bool>,
    /// Whether the identifier is deprecated.
    pub is_deprecated_license_id: bool,
    /// Reference URL (list context only).
    pub reference: Option<String>,
    /// URL of the detail document (list context only).
    pub details_url: Option<String>,
    /// Numeric reference number (list context only).
    pub reference_number: Option<u32>,
    /// Full license text (detail context only).
    pub license_text: Option<String>,
    /// Standard license template (detail context only).
    pub standard_license_template: Option<String>,
    /// HTML rendering of the license text (detail context only).
    pub license_text_html: Option<String>,
    /// External citations (detail context only).
    pub cross_ref: Option<Vec<CrossRef>>,
}

/// Mathematical model of a [`License`].
pub struct LicenseModel {
    pub name: Seq<char>,
    pub license_id: Seq<char>,
    pub see_also: Seq<Seq<char>>,
    pub is_osi_approved: bool,
    pub is_fsf_libre: Option<bool>,
    pub is_deprecated_license_id: bool,
    pub reference: Option<Seq<char>>,
    pub details_url: Option<Seq<char>>,
    pub reference_number: Option<u32>,
    pub license_text: Option<Seq<char>>,
    pub standard_license_template: Option<Seq<char>>,
    pub license_text_html: Option<Seq<char>>,
    pub cross_ref: Option<Seq<CrossRefModel>>,
}

/// Model of an optional owned string.
pub open spec fn opt_string_model(o: Option<String>) -> Option<Seq<char>> {
    match o {
        Some(s) => Some(s@),
        None => None,
    }
}

/// Model of an optional cross-reference list.
pub open spec fn opt_cross_ref_model(o: Option<Vec<CrossRef>>) -> Option<Seq<CrossRefModel>> {
    match o {
        Some(v) => Some(v@.map_values(|c: CrossRef| c@)),
        None => None,
    }
}

impl View for License {
    type V = LicenseModel;

    open spec fn view(&self) -> LicenseModel {
        LicenseModel {
            name: self.name@,
            license_id: self.license_id@,
            see_also: self.see_also@.map_values(|s: String| s@),
            is_osi_approved: self.is_osi_approved,
            is_fsf_libre: self.is_fsf_libre,
            is_deprecated_license_id: self.is_deprecated_license_id,
            reference: opt_string_model(self.reference),
            details_url: opt_string_model(self.details_url),
            reference_number: self.reference_number,
            license_text: opt_string_model(self.license_text),
            standard_license_template: opt_string_model(self.standard_license_template),
            license_text_html: opt_string_model(self.license_text_html),
            cross_ref: opt_cross_ref_model(self.cross_ref),
        }
    }
}

impl Clone for License {
    fn clone(&self) -> (r: Self)
        ensures
            r@ == self@,
    {
        let r = License {
            name: self.name.clone(),
            license_id: self.license_id.clone(),
            see_also: self.see_also.clone(),
            is_osi_approved: self.is_osi_approved,
            is_fsf_libre: self.is_fsf_libre,
            is_deprecated_license_id: self.is_deprecated_license_id,
            reference: self.reference.clone(),
            details_url: self.details_url.clone(),
            reference_number: self.reference_number,
            license_text: self.license_text.clone(),
            standard_license_template: self.standard_license_template.clone(),
            license_text_html: self.license_text_html.clone(),
            cross_ref: match &self.cross_ref {
                Some(v) => Some(v.clone()),
                None => None,
            },
        };
        proof {
            assert(r.see_also@.map_values(|s: String| s@) =~= self.see_also@.map_values(
                |s: String| s@,
            ));
            assert(opt_string_model(r.reference) == opt_string_model(self.reference));
            assert(opt_string_model(r.license_text) == opt_string_model(self.license_text));
            assert(opt_string_model(r.standard_license_template) == opt_string_model(
                self.standard_license_template,
            ));
            assert(opt_string_model(r.license_text_html) == opt_string_model(
                self.license_text_html,
            ));
            if r.cross_ref is Some {
                assert(r.cross_ref->0@.map_values(|c: CrossRef| c@) =~= self.cross_ref->0@
                    .map_values(|c: CrossRef| c@));
            }
        }
        r
    }
}

/// The bulk list response: a catalog of license records in registry order.
#[derive(Debug, PartialEq)]
pub struct Licenses {
    /// Version of the license list.
    pub license_list_version: String,
    /// The catalog, in the order the registry serves it.
    pub licenses: Vec<License>,
    /// Release date of the list.
    pub release_date: String,
}

/// Mathematical model of a [`Licenses`] response.
pub struct LicensesModel {
    pub license_list_version: Seq<char>,
    pub licenses: Seq<LicenseModel>,
    pub release_date: Seq<char>,
}

impl View for Licenses {
    type V = LicensesModel;

    open spec fn view(&self) -> LicensesModel {
        LicensesModel {
            license_list_version: self.license_list_version@,
            licenses: self.licenses@.map_values(|l: License| l@),
            release_date: self.release_date@,
        }
    }
}

/// What merging `detail` onto `base` yields: `detail` is authoritative
/// wherever it defines a field; a field `detail` leaves unset falls back to
/// `base`, so the listing-only fields survive the merge.
pub open spec fn merged_model(base: LicenseModel, detail: LicenseModel) -> LicenseModel {
    LicenseModel {
        name: detail.name,
        license_id: detail.license_id,
        see_also: detail.see_also,
        is_osi_approved: detail.is_osi_approved,
        is_fsf_libre: if detail.is_fsf_libre is Some {
            detail.is_fsf_libre
        } else {
            base.is_fsf_libre
        },
        is_deprecated_license_id: detail.is_deprecated_license_id,
        reference: if detail.reference is Some {
            detail.reference
        } else {
            base.reference
        },
        details_url: if detail.details_url is Some {
            detail.details_url
        } else {
            base.details_url
        },
        reference_number: if detail.reference_number is Some {
            detail.reference_number
        } else {
            base.reference_number
        },
        license_text: if detail.license_text is Some {
            detail.license_text
        } else {
            base.license_text
        },
        standard_license_template: if detail.standard_license_template is Some {
            detail.standard_license_template
        } else {
            base.standard_license_template
        },
        license_text_html: if detail.license_text_html is Some {
            detail.license_text_html
        } else {
            base.license_text_html
        },
        cross_ref: if detail.cross_ref is Some {
            detail.cross_ref
        } else {
            base.cross_ref
        },
    }
}

/// The similarity score of every catalog entry against `query`: both sides
/// lowercased, then compared by the Jaro-Winkler metric.
pub open spec fn query_scores(catalog: Seq<LicenseModel>, query: Seq<char>) -> Seq<u64> {
    Seq::new(catalog.len(), |i: int| score_bits(lower_of(catalog[i].license_id), lower_of(query)))
}

/// How many matches a request for `n` yields from a catalog of `len`
/// entries: all of them when `n` is unset, at most `n` otherwise.
pub open spec fn match_count(n: Option<usize>, len: nat) -> nat {
    match n {
        Some(k) => if k < len { k as nat } else { len },
        None => len,
    }
}

/// The first `count` catalog entries in the order `idx` ranks them.
pub open spec fn ranked_prefix(catalog: Seq<LicenseModel>, idx: Seq<int>, count: nat) -> Seq<
    LicenseModel,
> {
    Seq::new(count, |p: int| catalog[idx[p]])
}

/// `r` holds the `count` best matches for `query`, best first, ties in
/// catalog order. By [`crate::rank::lemma_ranking_unique`] exactly one sequence
/// satisfies this.
pub open spec fn is_ranked_result(
    catalog: Seq<LicenseModel>,
    query: Seq<char>,
    count: nat,
    r: Seq<LicenseModel>,
) -> bool {
    &&& count <= catalog.len()
    &&& exists|idx: Seq<int>|
        is_ranking(idx, query_scores(catalog, query)) && r =~= ranked_prefix(catalog, idx, count)
}

/// `m` is the single best match for `query` in a non-empty catalog.
pub open spec fn is_best_match(catalog: Seq<LicenseModel>, query: Seq<char>, m: LicenseModel) -> bool {
    &&& catalog.len() > 0
    &&& exists|idx: Seq<int>|
        is_ranking(idx, query_scores(catalog, query)) && m == catalog[idx[0]]
}

impl Default for Licenses {
    /// An empty list response: no version, no entries, no date.
    fn default() -> (r: Self)
        ensures
            r@.license_list_version.len() == 0,
            r@.licenses.len() == 0,
            r@.release_date.len() == 0,
    {
        Licenses {
            license_list_version: String::new(),
            licenses: Vec::new(),
            release_date: String::new(),
        }
    }
}

impl Licenses {
    /// The single best fuzzy match for `id`, or `None` on an empty catalog.
    ///
    /// No similarity threshold is applied: any non-empty catalog yields a
    /// best match, however dissimilar.
    pub fn match_license(&self, id: &str) -> (r: Option<License>)
        ensures
            r is Some <==> self@.licenses.len() > 0,
            r is Some ==> is_best_match(self@.licenses, id@, r->0@),
    {
        let ghost catalog = self@.licenses;
        let mut top = self.match_licenses(id, Some(1));
        let ghost top_models = top@.map_values(|l: License| l@);
        if top.len() == 0 {
            None
        } else {
            let best = top.remove(0);
            proof {
                let cnt = match_count(Some(1usize), catalog.len());
                assert(catalog.len() > 0);
                assert(cnt == 1);
                assert(top_models.len() == 1);
                let idx = choose|idx: Seq<int>|
                    is_ranking(idx, query_scores(catalog, id@)) && top_models =~= ranked_prefix(
                        catalog,
                        idx,
                        cnt,
                    );
                assert(top_models[0] == ranked_prefix(catalog, idx, cnt)[0]);
                assert(ranked_prefix(catalog, idx, cnt)[0] == catalog[idx[0]]);
                assert(best@ == top_models[0]);
                assert(best@ == catalog[idx[0]]);
            }
            Some(best)
        }
    }

    /// All catalog entries ranked by similarity to `id`, most similar
    /// first and ties in catalog order, cut to at most `n` entries when
    /// `n` is set.
    pub fn match_licenses(&self, id: &str, n: Option<usize>) -> (r: Vec<License>)
        ensures
            r@.len() == match_count(n, self@.licenses.len()),
            is_ranked_result(
                self@.licenses,
                id@,
                match_count(n, self@.licenses.len()),
                r@.map_values(|l: License| l@),
            ),
            forall|k: int|
                0 <= k < self@.licenses.len() ==> #[trigger] query_scores(self@.licenses, id@)[k]
                    <= TOP_SCORE,
            forall|k: int|
                0 <= k < self@.licenses.len() && lower_of(
                    (#[trigger] self@.licenses[k]).license_id,
                ) == lower_of(id@) ==> query_scores(self@.licenses, id@)[k] == TOP_SCORE,
    {
        let ghost catalog = self@.licenses;
        let query_lower = lowercase(id);
        let mut scores: Vec<u64> = Vec::new();
        let mut i: usize = 0;
        while i < self.licenses.len()
            invariant
                i <= self.licenses@.len(),
                catalog == self@.licenses,
                catalog.len() == self.licenses@.len(),
                query_lower@ == lower_of(id@),
                scores@.len() == i,
                forall|k: int| 0 <= k < i ==> scores@[k] == query_scores(catalog, id@)[k],
                forall|k: int|
                    0 <= k < i ==> #[trigger] query_scores(catalog, id@)[k] <= TOP_SCORE,
                forall|k: int|
                    0 <= k < i && lower_of((#[trigger] catalog[k]).license_id) == lower_of(id@)
                        ==> query_scores(catalog, id@)[k] == TOP_SCORE,
            decreases self.licenses@.len() - i,
        {
            let entry_lower = lowercase(self.licenses[i].license_id.as_str());
            let s = similarity_bits(entry_lower.as_str(), query_lower.as_str());
            proof {
                assert(catalog[i as int] == self.licenses@[i as int]@);
            }
            scores.push(s);
            i += 1;
        }
        proof {
            assert(scores@ =~= query_scores(catalog, id@));
        }
        let order = rank_indices(&scores);
        let len = self.licenses.len();
        let count: usize = match n {
            Some(k) => if k < len {
                k
            } else {
                len
            },
            None => len,
        };
        let ghost idx = order@.map_values(|u: usize| u as int);
        let mut out: Vec<License> = Vec::new();
        let mut p: usize = 0;
        while p < count
            invariant
                catalog == self@.licenses,
                catalog.len() == self.licenses@.len(),
                is_ranking(idx, query_scores(catalog, id@)),
                idx == order@.map_values(|u: usize| u as int),
                order@.len() == catalog.len(),
                count <= catalog.len(),
                p <= count,
                out@.len() == p,
                forall|k: int| 0 <= k < p ==> (#[trigger] out@[k])@ == catalog[idx[k]],
            decreases count - p,
        {
            let j = order[p];
            proof {
                assert(0 <= idx[p as int] < catalog.len());
            }
            out.push(self.licenses[j].clone());
            p += 1;
        }
        proof {
            assert(out@.map_values(|l: License| l@) =~= ranked_prefix(
                catalog,
                idx,
                match_count(n, catalog.len()),
            ));
        }
        out
    }

    /// The first catalog entry whose identifier equals `id` exactly, or
    /// `None` when no entry carries that identifier.
    pub fn get_license(&self, id: &str) -> (r: Option<&License>)
        ensures
            r is None <==> (forall|i: int|
                0 <= i < self@.licenses.len() ==> (#[trigger] self@.licenses[i]).license_id != id@),
            r is Some ==> exists|i: int|
                {
                    &&& 0 <= i < self@.licenses.len()
                    &&& (#[trigger] self@.licenses[i]).license_id == id@
                    &&& r->0@ == self@.licenses[i]
                    &&& forall|j: int| 0 <= j < i ==> self@.licenses[j].license_id != id@
                },
    {
        let ghost catalog = self@.licenses;
        let id_owned = id.to_owned();
        let mut i: usize = 0;
        while i < self.licenses.len()
            invariant
                catalog == self@.licenses,
                catalog.len() == self.licenses@.len(),
                id_owned@ == id@,
                i <= catalog.len(),
                forall|j: int| 0 <= j < i ==> (#[trigger] catalog[j]).license_id != id@,
            decreases self.licenses@.len() - i,
        {
            if self.licenses[i].license_id == id_owned {
                proof {
                    assert(catalog[i as int] == self.licenses@[i as int]@);
                }
                return Some(&self.licenses[i]);
            }
            proof {
                assert(catalog[i as int] == self.licenses@[i as int]@);
            }
            i += 1;
        }
        None
    }
}

impl License {
    /// The record obtained by merging the detail-context record `detail`
    /// onto the list-context record `self`: every field the detail record
    /// carries overrides this record's field, and a field the detail
    /// record lacks keeps this record's value.
    pub fn merge(self, detail: License) -> (r: License)
        ensures
            r@ == merged_model(self@, detail@),
    {
        License {
            name: detail.name,
            license_id: detail.license_id,
            see_also: detail.see_also,
            is_osi_approved: detail.is_osi_approved,
            is_fsf_libre: match detail.is_fsf_libre {
                Some(b) => Some(b),
                None => self.is_fsf_libre,
            },
            is_deprecated_license_id: detail.is_deprecated_license_id,
            reference: match detail.reference {
                Some(v) => Some(v),
                None => self.reference,
            },
            details_url: match detail.details_url {
                Some(v) => Some(v),
                None => self.details_url,
            },
            reference_number: match detail.reference_number {
                Some(v) => Some(v),
                None => self.reference_number,
            },
            license_text: match detail.license_text {
                Some(v) => Some(v),
                None => self.license_text,
            },
            standard_license_template: match detail.standard_license_template {
                Some(v) => Some(v),
                None => self.standard_license_template,
            },
            license_text_html: match detail.license_text_html {
                Some(v) => Some(v),
                None => self.license_text_html,
            },
            cross_ref: match detail.cross_ref {
                Some(v) => Some(v),
                None => self.cross_ref,
            },
        }
    }
}

impl Licenses {
    /// The first catalog entry whose identifier equals `id` under
    /// lowercasing, or `None` when no entry does.
    pub fn get_license_case_insensitive(&self, id: &str) -> (r: Option<&License>)
        ensures
            r is None <==> (forall|i: int|
                0 <= i < self@.licenses.len() ==> lower_of(
                    (#[trigger] self@.licenses[i]).license_id,
                ) != lower_of(id@)),
            r is Some ==> exists|i: int|
                {
                    &&& 0 <= i < self@.licenses.len()
                    &&& lower_of((#[trigger] self@.licenses[i]).license_id) == lower_of(id@)
                    &&& r->0@ == self@.licenses[i]
                    &&& forall|j: int|
                        0 <= j < i ==> lower_of(self@.licenses[j].license_id) != lower_of(id@)
                },
    {
        let ghost catalog = self@.licenses;
        let id_lower = lowercase(id);
        let mut i: usize = 0;
        while i < self.licenses.len()
            invariant
                catalog == self@.licenses,
                catalog.len() == self.licenses@.len(),
                id_lower@ == lower_of(id@),
                i <= catalog.len(),
                forall|j: int| 0 <= j < i ==> lower_of((#[trigger] catalog[j]).license_id)
                    != lower_of(id@),
            decreases self.licenses@.len() - i,
        {
            let entry_lower = lowercase(self.licenses[i].license_id.as_str());
            proof {
                assert(catalog[i as int] == self.licenses@[i as int]@);
            }
            if entry_lower == id_lower {
                return Some(&self.licenses[i]);
            }
            i += 1;
        }
        None
    }
}

} // verus!
