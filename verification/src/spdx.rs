//! The SPDX registry endpoints.
//!
//! The registry serves two documents: the full catalog at
//! `{base}/licenses.json` and one license's detail at `{base}/{id}.json`.
//! This module builds those URLs from a configured base; fetching them is
//! the transport's concern, outside this crate.

use vstd::prelude::*;
use vstd::string::StringExecFns;

verus! {

/// The default base URL of the SPDX license registry.
pub open spec fn spec_default_base_url() -> Seq<char> {
    "https://spdx.org/licenses"@
}

/// SPDX registry client configuration: the base URL under which the
/// catalog and the per-license documents are served.
pub struct SPDX {
    /// Base URL of the registry, without a trailing slash.
    pub base_url: String,
}

impl SPDX {
    /// A client for the registry at its canonical address.
    pub fn new() -> (r: Self)
        ensures
            r.base_url@ == spec_default_base_url(),
    {
        SPDX { base_url: "https://spdx.org/licenses".to_owned() }
    }

    /// A client for a registry at `base_url`, which must not end in a slash.
    pub fn with_base_url(base_url: String) -> (r: Self)
        ensures
            r.base_url@ == base_url@,
    {
        SPDX { base_url }
    }

    /// The URL of the full catalog document.
    pub fn licenses_url(&self) -> (r: String)
        ensures
            r@ == self.base_url@ + "/licenses.json"@,
    {
        let mut url = self.base_url.clone();
        url.append("/licenses.json");
        url
    }

    /// The URL of the detail document for the license with identifier `id`.
    ///
    /// The registry's paths are case-sensitive, so `id` must be the
    /// canonical identifier exactly as the catalog carries it.
    pub fn license_url(&self, id: &str) -> (r: String)
        ensures
            r@ == self.base_url@ + "/"@ + id@ + ".json"@,
    {
        let mut url = self.base_url.clone();
        url.append("/");
        url.append(id);
        url.append(".json");
        url
    }
}

} // verus!
