//! The slice of a source-host release entry that release selection reads:
//! the tag name and the prerelease flag. The caller decodes the registry's
//! JSON response and hands entries over as plain values.

use vstd::prelude::*;

verus! {

/// One release of a source-host repository.
#[derive(Debug, Clone)]
pub struct GhReleaseResponseElement {
    pub tag_name: String,
    pub prerelease: bool,
}

/// The release list a repository's releases endpoint returns.
pub type GhReleaseResponse = Vec<GhReleaseResponseElement>;

} // verus!
