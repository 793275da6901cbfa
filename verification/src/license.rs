//! License normalization: mapping the license vocabulary of the source-host
//! and package-index registries onto nixpkgs license attribute names. An
//! unknown key maps to the sentinel `CHANGE` and is never an error.

use crate::strutil::str_eq;
use vstd::prelude::*;

verus! {

/// The nixpkgs license name for a source-host license key; `CHANGE` for a
/// key outside the table.
pub open spec fn spec_github_license(key: Seq<char>) -> Seq<char> {
    if key == "agpl-3.0"@ {
        "agpl3"@
    } else if key == "apache-2.0"@ {
        "asl20"@
    } else if key == "bsd-2-clause"@ {
        "bsd2"@
    } else if key == "bsd-3-clause"@ {
        "bsd3"@
    } else if key == "bsl-1.0"@ {
        "bsl11"@
    } else if key == "cc0-1.0"@ {
        "cc0"@
    } else if key == "epl-2.0"@ {
        "epl20"@
    } else if key == "gpl-2.0"@ {
        "gpl2"@
    } else if key == "gpl-3.0"@ {
        "gpl3"@
    } else if key == "lgpl-2.1"@ {
        "lgpl21"@
    } else if key == "mit"@ {
        "mit"@
    } else if key == "mpl-2.0"@ {
        "mpl20"@
    } else if key == "unlicense"@ {
        "unlicense"@
    } else {
        "CHANGE"@
    }
}

/// Map a source-host license key to its nixpkgs license name.
pub fn github_license_to_nixpkgs(key: &str) -> (r: String)
    ensures
        r@ == spec_github_license(key@),
{
    if str_eq(key, "agpl-3.0") {
        "agpl3".to_owned()
    } else if str_eq(key, "apache-2.0") {
        "asl20".to_owned()
    } else if str_eq(key, "bsd-2-clause") {
        "bsd2".to_owned()
    } else if str_eq(key, "bsd-3-clause") {
        "bsd3".to_owned()
    } else if str_eq(key, "bsl-1.0") {
        "bsl11".to_owned()
    } else if str_eq(key, "cc0-1.0") {
        "cc0".to_owned()
    } else if str_eq(key, "epl-2.0") {
        "epl20".to_owned()
    } else if str_eq(key, "gpl-2.0") {
        "gpl2".to_owned()
    } else if str_eq(key, "gpl-3.0") {
        "gpl3".to_owned()
    } else if str_eq(key, "lgpl-2.1") {
        "lgpl21".to_owned()
    } else if str_eq(key, "mit") {
        "mit".to_owned()
    } else if str_eq(key, "mpl-2.0") {
        "mpl20".to_owned()
    } else if str_eq(key, "unlicense") {
        "unlicense".to_owned()
    } else {
        "CHANGE".to_owned()
    }
}

/// The nixpkgs license name for a package-index license string; `CHANGE`
/// for one outside the table.
pub open spec fn spec_pypi_license(key: Seq<char>) -> Seq<char> {
    if key == "Apache 2.0"@ {
        "asl20"@
    } else if key == "Apache Software License"@ {
        "asl20"@
    } else if key == "BSD-3-clause"@ {
        "bsd3"@
    } else if key == "MIT License"@ {
        "mit"@
    } else {
        "CHANGE"@
    }
}

/// Map a package-index license string to its nixpkgs license name.
pub fn pypi_license_to_nixpkgs(key: &str) -> (r: String)
    ensures
        r@ == spec_pypi_license(key@),
{
    if str_eq(key, "Apache 2.0") {
        "asl20".to_owned()
    } else if str_eq(key, "Apache Software License") {
        "asl20".to_owned()
    } else if str_eq(key, "BSD-3-clause") {
        "bsd3".to_owned()
    } else if str_eq(key, "MIT License") {
        "mit".to_owned()
    } else {
        "CHANGE".to_owned()
    }
}

} // verus!
