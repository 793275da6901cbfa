use nix_template::expression::{generate_expression, render_expression, MKSHELL_SKELETON};
use nix_template::types::{ExpressionInfo, Fetcher, Template};

fn base_info(template: Template, fetcher: Fetcher) -> ExpressionInfo {
    ExpressionInfo {
        pname: "hello".to_string(),
        version: "2.10".to_string(),
        license: "mit".to_string(),
        maintainer: "someone".to_string(),
        fetcher,
        template,
        path_to_write: "default.nix".to_string(),
        top_level_path: String::new(),
        include_documentation_links: false,
        include_meta: true,
        tag_prefix: String::new(),
        owner: "CHANGE".to_string(),
        src_sha: "0000000000000000000000000000000000000000000000000000".to_string(),
        description: "A program".to_string(),
        homepage: "https://example.com".to_string(),
        propagated_build_inputs: Vec::new(),
    }
}

#[test]
fn mkshell_is_fixed() {
    let info = base_info(Template::mkshell, Fetcher::github);
    assert_eq!(render_expression(&info), MKSHELL_SKELETON);
}

#[test]
fn rendering_is_deterministic() {
    for template in [
        Template::stdenv,
        Template::python,
        Template::go,
        Template::rust,
        Template::qt,
        Template::mkshell,
        Template::flake,
        Template::test,
        Template::module,
    ] {
        let info = base_info(template, Fetcher::github);
        assert_eq!(render_expression(&info), render_expression(&info));
    }
}

#[test]
fn no_marker_residue_without_links() {
    let info = base_info(Template::stdenv, Fetcher::url);
    let out = render_expression(&info);
    assert!(!out.contains('@'));
    assert!(out.contains("stdenv.mkDerivation rec {"));
    assert!(out.contains("pname = \"hello\";"));
    assert!(out.contains("version = \"2.10\";"));
}

#[test]
fn links_expand_to_comments() {
    let mut info = base_info(Template::stdenv, Fetcher::url);
    info.include_documentation_links = true;
    let out = render_expression(&info);
    assert!(!out.contains("@doc:"));
    assert!(out.contains(
        "# See the guide for more information: https://nixos.org/nixpkgs/manual/#sec-using-stdenv"
    ));
    assert!(out.contains(
        "# See the guide for more information: https://nixos.org/nixpkgs/manual/#chap-pkgs-fetchers"
    ));
    assert!(out.contains(
        "# See the guide for more information: https://nixos.org/nixpkgs/manual/#chap-meta"
    ));
}

#[test]
fn no_meta_block_when_disabled() {
    let mut info = base_info(Template::stdenv, Fetcher::url);
    info.include_meta = false;
    let out = render_expression(&info);
    assert!(!out.contains("meta = with lib;"));
    let with_meta = base_info(Template::stdenv, Fetcher::url);
    assert!(render_expression(&with_meta).contains("meta = with lib;"));
}

#[test]
fn python_template_import_check() {
    let mut info = base_info(Template::python, Fetcher::pypi);
    info.pname = "azure-mgmt".to_string();
    let out = render_expression(&info);
    assert!(out.contains("buildPythonPackage rec {"));
    assert!(out.contains("pythonImportsCheck = [ \"azure.mgmt\" ];"));
    assert!(out.contains("src = fetchPypi {"));
    assert!(out.contains("inherit pname version;"));
}

#[test]
fn github_rev_uses_tag_prefix() {
    let mut info = base_info(Template::stdenv, Fetcher::github);
    info.tag_prefix = "v".to_string();
    let out = render_expression(&info);
    assert!(out.contains("rev = \"\"v${version}\"\";"));

    let plain = base_info(Template::stdenv, Fetcher::github);
    let out2 = render_expression(&plain);
    assert!(out2.contains("rev = \"version\";"));
}

#[test]
fn default_homepage_resolves_owner_and_pname() {
    let mut info = base_info(Template::stdenv, Fetcher::github);
    info.homepage = "https://github.com/@owner@/@pname@".to_string();
    info.owner = "jonringer".to_string();
    let out = render_expression(&info);
    assert!(out.contains("homepage = \"https://github.com/jonringer/hello\";"));
}

#[test]
fn format_substitutes_markers() {
    let info = base_info(Template::stdenv, Fetcher::github);
    assert_eq!(info.format("x @pname@ y"), "x hello y");
    assert_eq!(info.format("@version@@license@"), "2.10mit");
}

#[test]
fn format_unknown_doc_topic() {
    let mut info = base_info(Template::stdenv, Fetcher::github);
    assert_eq!(info.format("@doc:oddTopic@x"), "x");
    info.include_documentation_links = true;
    assert_eq!(info.format("@doc:oddTopic@x"), "# See the guide for more information: x");
}

#[test]
fn flake_and_module_substitute_in_final_pass() {
    let info = base_info(Template::flake, Fetcher::github);
    let generated = generate_expression(&info);
    assert!(generated.contains("@pname@"));
    let rendered = render_expression(&info);
    assert!(!rendered.contains("@pname@"));
    assert!(rendered.contains("description = \"hello flake\";"));

    let minfo = base_info(Template::module, Fetcher::github);
    let out = render_expression(&minfo);
    assert!(out.contains("cfg = config.services.hello;"));
    assert!(out.contains("maintainers = with lib.maintainers; [ someone ];"));
}

#[test]
fn test_template_renders_name() {
    let info = base_info(Template::test, Fetcher::github);
    let out = render_expression(&info);
    assert!(out.contains("name = \"hello\";"));
    assert!(out.contains("machine.wait_for_unit(\"hello.service\")"));
}

#[test]
fn propagated_build_inputs_render() {
    let mut info = base_info(Template::stdenv, Fetcher::github);
    info.propagated_build_inputs = vec!["alpha".to_string(), "beta".to_string()];
    assert_eq!(
        info.format("[@propagated_build_inputs@]"),
        "[\n    alpha\n    beta\n ]"
    );
    let empty = base_info(Template::stdenv, Fetcher::github);
    assert_eq!(empty.format("[@propagated_build_inputs@]"), "[]");
}
