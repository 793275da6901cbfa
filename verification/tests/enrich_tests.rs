use nix_template::cli::{build_expression_info, decide_output, top_level_registration_line, OutputAction};
use nix_template::gh_release_response::GhReleaseResponseElement;
use nix_template::gh_repo_response::{GhRepoResponse, License};
use nix_template::pypi::{Digests, Info, PypiResponse, Url};
use nix_template::types::{ExpressionInfo, Fetcher, GithubRepo, PypiRepo, Template, TemplateError};
use nix_template::url::{apply_github_releases, apply_github_repo_meta, fill_pypi_info, github_archive_url, set_src_sha, PypiOutcome};

fn fresh_info() -> ExpressionInfo {
    let r = build_expression_info(
        Template::stdenv,
        Fetcher::github,
        "CHANGE".to_string(),
        false,
        "0.0.1".to_string(),
        "CHANGE".to_string(),
        "default.nix".to_string(),
        true,
        false,
        true,
        None,
        None,
        None,
        false,
        false,
    );
    r.unwrap().0
}

fn release(tag: &str, prerelease: bool) -> GhReleaseResponseElement {
    GhReleaseResponseElement { tag_name: tag.to_string(), prerelease }
}

fn repo() -> GithubRepo {
    GithubRepo { owner: "jonringer".to_string(), repo: "nix-template".to_string() }
}

#[test]
fn picks_newest_stable_release() {
    let mut info = fresh_info();
    let releases = vec![
        release("1.2.0", false),
        release("1.10.0", false),
        release("2.0.0", true),
    ];
    let url = apply_github_releases(&mut info, &repo(), &releases);
    assert_eq!(info.version, "1.10.0");
    assert_eq!(info.tag_prefix, "");
    assert_eq!(
        url.unwrap(),
        "https://github.com/jonringer/nix-template/archive/refs/tags/1.10.0.tar.gz"
    );
}

#[test]
fn splits_tag_prefix() {
    let mut info = fresh_info();
    let releases = vec![release("v0.1.0", false)];
    let url = apply_github_releases(&mut info, &repo(), &releases);
    assert_eq!(info.tag_prefix, "v");
    assert_eq!(info.version, "0.1.0");
    assert_eq!(
        url.unwrap(),
        "https://github.com/jonringer/nix-template/archive/refs/tags/v0.1.0.tar.gz"
    );
}

#[test]
fn no_stable_release_changes_nothing() {
    let mut info = fresh_info();
    let before_version = info.version.clone();
    assert!(apply_github_releases(&mut info, &repo(), &Vec::new()).is_none());
    let only_pre = vec![release("1.0.0-rc1", true)];
    assert!(apply_github_releases(&mut info, &repo(), &only_pre).is_none());
    assert_eq!(info.version, before_version);
}

#[test]
fn archive_url_shape() {
    assert_eq!(
        github_archive_url(&repo(), "v", "1.2.3"),
        "https://github.com/jonringer/nix-template/archive/refs/tags/v1.2.3.tar.gz"
    );
}

#[test]
fn sha_output_is_trimmed() {
    let mut info = fresh_info();
    set_src_sha(&mut info, "abc123def\n");
    assert_eq!(info.src_sha, "abc123def");
    set_src_sha(&mut info, "  xyz \t\r\n");
    assert_eq!(info.src_sha, "xyz");
}

fn gh_repo_info(key: &str, description: Option<&str>) -> GhRepoResponse {
    GhRepoResponse {
        license: License {
            key: key.to_string(),
            name: String::new(),
            spdx_id: String::new(),
            url: None,
            node_id: String::new(),
        },
        description: description.map(|d| d.to_string()),
    }
}

#[test]
fn repo_meta_maps_license_and_sentinels() {
    let mut info = fresh_info();
    apply_github_repo_meta(&mut info, &repo(), &gh_repo_info("apache-2.0", Some("A tool")));
    assert_eq!(info.license, "asl20");
    assert_eq!(info.description, "A tool");
    assert_eq!(info.pname, "nix-template");
    assert_eq!(info.owner, "jonringer");
}

#[test]
fn repo_meta_unknown_license_is_sentinel() {
    let mut info = fresh_info();
    apply_github_repo_meta(&mut info, &repo(), &gh_repo_info("wtfpl", None));
    assert_eq!(info.license, "CHANGE");
    assert_eq!(info.description, "CHANGE");
}

#[test]
fn repo_meta_other_license_untouched() {
    let mut info = fresh_info();
    info.license = "mit".to_string();
    apply_github_repo_meta(&mut info, &repo(), &gh_repo_info("other", None));
    assert_eq!(info.license, "mit");
}

#[test]
fn repo_meta_keeps_explicit_pname() {
    let mut info = fresh_info();
    info.pname = "explicit".to_string();
    apply_github_repo_meta(&mut info, &repo(), &gh_repo_info("mit", None));
    assert_eq!(info.pname, "explicit");
}

fn dist(packagetype: &str, sha256: &str) -> Url {
    Url {
        digests: Digests { md5: String::new(), sha256: sha256.to_string() },
        filename: String::new(),
        packagetype: packagetype.to_string(),
        url: String::new(),
    }
}

fn pypi_resp(license: &str, summary: &str, releases: Vec<(String, Vec<Url>)>) -> PypiResponse {
    PypiResponse {
        info: Info {
            author: String::new(),
            home_page: "https://requests.example".to_string(),
            license: license.to_string(),
            name: "requests".to_string(),
            project_urls: None,
            summary: summary.to_string(),
            version: String::new(),
        },
        releases,
    }
}

#[test]
fn pypi_fills_from_newest_sdist() {
    let mut info = fresh_info();
    let resp = pypi_resp(
        "MIT License",
        "HTTP for humans.",
        vec![
            ("2.1.0".to_string(), vec![dist("bdist_wheel", "aa"), dist("sdist", "bb")]),
            ("2.10.0".to_string(), vec![dist("sdist", "cc")]),
        ],
    );
    let project = PypiRepo { project: "requests".to_string() };
    let outcome = fill_pypi_info(&project, &resp, &mut info);
    assert_eq!(outcome, PypiOutcome::Filled);
    assert_eq!(info.pname, "requests");
    assert_eq!(info.version, "2.10.0");
    assert_eq!(info.homepage, "https://requests.example");
    assert_eq!(info.description, "HTTP for humans");
    assert_eq!(info.license, "mit");
    assert_eq!(info.fetcher, Fetcher::pypi);
    assert_eq!(info.src_sha, "cc");
}

#[test]
fn pypi_no_sdist_keeps_fetcher() {
    let mut info = fresh_info();
    let resp = pypi_resp(
        "Zope Public License",
        "Something",
        vec![("1.0".to_string(), vec![dist("bdist_wheel", "aa")])],
    );
    let project = PypiRepo { project: "thing".to_string() };
    let outcome = fill_pypi_info(&project, &resp, &mut info);
    assert_eq!(outcome, PypiOutcome::NoSdist);
    assert_eq!(info.fetcher, Fetcher::github);
    assert_eq!(info.license, "CHANGE");
    assert_eq!(info.version, "1.0");
    assert_eq!(info.src_sha, "0000000000000000000000000000000000000000000000000000");
}

#[test]
fn pypi_no_releases_changes_nothing() {
    let mut info = fresh_info();
    let before = info.version.clone();
    let resp = pypi_resp("MIT License", "x", Vec::new());
    let project = PypiRepo { project: "ghost".to_string() };
    let outcome = fill_pypi_info(&project, &resp, &mut info);
    assert_eq!(outcome, PypiOutcome::NoReleases);
    assert_eq!(info.version, before);
    assert_eq!(info.pname, "CHANGE");
}

#[test]
fn flake_requires_pname() {
    let r = build_expression_info(
        Template::flake,
        Fetcher::github,
        "CHANGE".to_string(),
        false,
        "0.0.1".to_string(),
        "CHANGE".to_string(),
        "flake.nix".to_string(),
        false,
        false,
        true,
        None,
        None,
        None,
        false,
        false,
    );
    assert_eq!(r.unwrap_err(), TemplateError::MissingPname);
}

#[test]
fn nixpkgs_requires_pname_or_url() {
    let r = build_expression_info(
        Template::stdenv,
        Fetcher::github,
        "CHANGE".to_string(),
        false,
        "0.0.1".to_string(),
        "CHANGE".to_string(),
        "default.nix".to_string(),
        false,
        false,
        true,
        None,
        None,
        None,
        true,
        false,
    );
    assert_eq!(r.unwrap_err(), TemplateError::MissingPnameOrUrl);
}

#[test]
fn existing_target_is_refused() {
    assert_eq!(decide_output(false, true, true, true), OutputAction::RefuseExisting);
    assert_eq!(decide_output(true, true, true, true), OutputAction::PrintStdout);
    assert_eq!(decide_output(false, false, true, false), OutputAction::CreateDirsAndWrite);
    assert_eq!(decide_output(false, false, true, true), OutputAction::WriteFile);
    assert_eq!(decide_output(false, false, false, false), OutputAction::WriteFile);
}

#[test]
fn registration_lines() {
    let mut info = fresh_info();
    info.pname = "hello".to_string();
    info.top_level_path = "../applications/misc/hello".to_string();
    assert_eq!(
        top_level_registration_line(&info),
        "  hello = callPackage ../applications/misc/hello { };"
    );
    info.template = Template::test;
    info.top_level_path = "./hello.nix".to_string();
    assert_eq!(
        top_level_registration_line(&info),
        "  hello = handleTest ./hello.nix { };"
    );
    info.template = Template::module;
    info.top_level_path = "./services/hello.nix".to_string();
    assert_eq!(top_level_registration_line(&info), "  ./services/hello.nix");
}
