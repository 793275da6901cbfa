//! The slice of a source-host repository record that enrichment reads: the
//! license and the description. The caller decodes the registry's JSON
//! response and hands the record over as plain values.

use vstd::prelude::*;

verus! {

/// The license of a source-host repository.
#[derive(Debug, Clone)]
pub struct License {
    pub key: String,
    pub name: String,
    pub spdx_id: String,
    pub url: Option<String>,
    pub node_id: String,
}

/// A source-host repository record.
#[derive(Debug, Clone)]
pub struct GhRepoResponse {
    pub license: License,
    pub description: Option<String>,
}

} // verus!
