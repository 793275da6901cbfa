use nix_template::cli::build_expression_info;
use nix_template::file_path::nix_file_paths;
use nix_template::types::{Fetcher, Template, TemplateError};

fn resolve(
    template: Template,
    path: &str,
    path_given: bool,
    pname: &str,
) -> (String, String) {
    let r = build_expression_info(
        template,
        Fetcher::github,
        pname.to_string(),
        true,
        "0.0.1".to_string(),
        "CHANGE".to_string(),
        path.to_string(),
        path_given,
        false,
        true,
        None,
        None,
        None,
        true,
        false,
    );
    let (info, needs_probe) = r.expect("path resolution should succeed");
    assert!(!needs_probe);
    (info.path_to_write, info.top_level_path)
}

#[test]
fn test_module() {
    let (write, index) = resolve(
        Template::module,
        "nixos/modules/services/my-package.nix",
        true,
        "my-package",
    );
    assert_eq!(write, "nixos/modules/services/my-package.nix");
    assert_eq!(index, "./services/my-package.nix");
}

#[test]
fn test_module_long_path() {
    let (write, index) = resolve(
        Template::module,
        "nixos/modules/services/some-pkg-set/my-package.nix",
        true,
        "my-package",
    );
    assert_eq!(write, "nixos/modules/services/some-pkg-set/my-package.nix");
    assert_eq!(index, "./services/some-pkg-set/my-package.nix");
}

#[test]
fn file_path_test_test() {
    let (write, index) = resolve(Template::test, "test.nix", false, "newpkg");
    assert_eq!(write, "nixos/tests/newpkg.nix");
    assert_eq!(index, "./newpkg.nix");
}

#[test]
fn file_path_test_python() {
    let (write, index) = resolve(Template::python, "default.nix", false, "requests");
    assert_eq!(write, "pkgs/development/python-modules/requests/default.nix");
    assert_eq!(index, "../development/python-modules/requests");
}

#[test]
fn test_stdenv_no_path() {
    let (write, index) = resolve(Template::stdenv, "default.nix", false, "mypackage");
    assert_eq!(write, "pkgs/applications/misc/mypackage/default.nix");
    assert_eq!(index, "../applications/misc/mypackage");
}

#[test]
fn test_stdenv_path() {
    let (write, index) = resolve(Template::stdenv, "pkgs/compilers/test/", true, "mypackage");
    assert_eq!(write, "pkgs/compilers/test/mypackage/default.nix");
    assert_eq!(index, "../compilers/test/mypackage");
}

#[test]
fn python_path_with_root() {
    let r = nix_file_paths(
        &Template::python,
        "default.nix",
        false,
        "requests",
        "/tmp",
        true,
    )
    .unwrap();
    assert_eq!(r.write_path, "/tmp/pkgs/development/python-modules/requests/default.nix");
    assert_eq!(r.index_path, "../development/python-modules/requests");
}

#[test]
fn module_requires_path() {
    let r = nix_file_paths(&Template::module, "default.nix", false, "mypkg", "", true);
    assert_eq!(r.unwrap_err(), TemplateError::MissingPath);
}

#[test]
fn outside_nixpkgs_keeps_path() {
    let r = nix_file_paths(&Template::stdenv, "somewhere/default.nix", true, "p", "", false)
        .unwrap();
    assert_eq!(r.write_path, "somewhere/default.nix");
    assert_eq!(r.index_path, "");
}

#[test]
fn explicit_nix_file_needs_probe() {
    let r = nix_file_paths(&Template::stdenv, "pkgs/tools/thing.nix", true, "thing", "", true)
        .unwrap();
    assert_eq!(r.write_path, "pkgs/tools/thing.nix");
    assert!(r.needs_dir_probe);
}
