use nix_template::types::{GithubRepo, PypiRepo, Repo, TemplateError};
use nix_template::url::{parse_remote_url, trim_url_protocol, validate_and_parse_url};

#[test]
fn test_url_parse() {
    let repo = validate_and_parse_url("github.com/jonringer/nix-template").unwrap();
    assert_eq!(
        repo,
        Repo::Github(GithubRepo {
            owner: "jonringer".to_string(),
            repo: "nix-template".to_string(),
        })
    );
}

#[test]
fn parse_with_protocol() {
    let repo = parse_remote_url("https://github.com/jonringer/nix-template").unwrap();
    assert_eq!(
        repo,
        Repo::Github(GithubRepo {
            owner: "jonringer".to_string(),
            repo: "nix-template".to_string(),
        })
    );
}

#[test]
fn parse_pypi_project() {
    let repo = parse_remote_url("https://pypi.org/project/requests").unwrap();
    assert_eq!(repo, Repo::Pypi(PypiRepo { project: "requests".to_string() }));
}

#[test]
fn parse_pypi_trailing_slash() {
    let repo = validate_and_parse_url("pypi.org/project/requests/").unwrap();
    assert_eq!(repo, Repo::Pypi(PypiRepo { project: "requests".to_string() }));
}

#[test]
fn malformed_github_url() {
    assert_eq!(
        validate_and_parse_url("github.com/onlyowner"),
        Err(TemplateError::MalformedGithubUrl)
    );
    assert_eq!(validate_and_parse_url("github.com"), Err(TemplateError::MalformedGithubUrl));
}

#[test]
fn malformed_pypi_url() {
    assert_eq!(
        validate_and_parse_url("pypi.org/simple/requests"),
        Err(TemplateError::MalformedPypiUrl)
    );
}

#[test]
fn unsupported_host() {
    assert_eq!(
        validate_and_parse_url("gitlab.com/owner/repo"),
        Err(TemplateError::UnsupportedUrl)
    );
}

#[test]
fn protocol_trimming() {
    assert_eq!(trim_url_protocol("http://example.com"), "example.com");
    assert_eq!(trim_url_protocol("https://example.com"), "example.com");
    assert_eq!(trim_url_protocol("example.com"), "example.com");
}
