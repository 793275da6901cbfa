//! The slice of a package-index project record that enrichment reads: the
//! project metadata, and for each released version its distribution files
//! with their checksums. The caller decodes the registry's JSON response
//! and hands the record over as plain values; the per-version release map
//! becomes a list of pairs.

use vstd::prelude::*;

verus! {

/// The checksums of one distribution file.
#[derive(Debug, Clone)]
pub struct Digests {
    pub md5: String,
    pub sha256: String,
}

/// One distribution file of a released version.
#[derive(Debug, Clone)]
pub struct Url {
    pub digests: Digests,
    pub filename: String,
    pub packagetype: String,
    pub url: String,
}

/// The named project links of a package-index record.
#[derive(Debug, Clone)]
pub struct ProjectUrls {
    pub bug_tracker: Option<String>,
    pub documentation: Option<String>,
    pub homepage: String,
    pub source_code: Option<String>,
    pub source: Option<String>,
}

/// The metadata block of a package-index project.
#[derive(Debug, Clone)]
pub struct Info {
    pub author: String,
    pub home_page: String,
    pub license: String,
    pub name: String,
    pub project_urls: Option<ProjectUrls>,
    pub summary: String,
    pub version: String,
}

/// A package-index project record: its metadata and, for each released
/// version, the distribution files published under it.
#[derive(Debug, Clone)]
pub struct PypiResponse {
    pub info: Info,
    pub releases: Vec<(String, Vec<Url>)>,
}

} // verus!
