use nix_template::license::{github_license_to_nixpkgs, pypi_license_to_nixpkgs};

#[test]
fn github_license_table() {
    assert_eq!(github_license_to_nixpkgs("mit"), "mit");
    assert_eq!(github_license_to_nixpkgs("apache-2.0"), "asl20");
    assert_eq!(github_license_to_nixpkgs("gpl-3.0"), "gpl3");
    assert_eq!(github_license_to_nixpkgs("bsd-3-clause"), "bsd3");
    assert_eq!(github_license_to_nixpkgs("lgpl-2.1"), "lgpl21");
    assert_eq!(github_license_to_nixpkgs("unlicense"), "unlicense");
}

#[test]
fn pypi_license_table() {
    assert_eq!(pypi_license_to_nixpkgs("MIT License"), "mit");
    assert_eq!(pypi_license_to_nixpkgs("Apache 2.0"), "asl20");
    assert_eq!(pypi_license_to_nixpkgs("Apache Software License"), "asl20");
    assert_eq!(pypi_license_to_nixpkgs("BSD-3-clause"), "bsd3");
}

#[test]
fn unknown_license_maps_to_sentinel() {
    assert_eq!(github_license_to_nixpkgs("wtfpl"), "CHANGE");
    assert_eq!(github_license_to_nixpkgs(""), "CHANGE");
    assert_eq!(pypi_license_to_nixpkgs("Zope Public License"), "CHANGE");
    assert_eq!(pypi_license_to_nixpkgs(""), "CHANGE");
}
