//! Core data model: the template and fetcher enumerations, the shared
//! `ExpressionInfo` value object that the pipeline fills in and renders
//! with, the parsed remote-repository identifier, and the error taxonomy.

use crate::strutil::{apply_doc_pass, apply_substitutions, doc_pass_seq, subs_view, subst_seq};
use vstd::prelude::*;
use vstd::string::StringExecFns;

verus! {

/// The category of scaffold being generated. Each kind selects its own
/// skeleton and its own default-path rule.
#[allow(non_camel_case_types)]
#[derive(Debug, PartialEq, Eq, Structural, Clone, Copy)]
pub enum Template {
    flake,
    stdenv,
    python,
    module,
    mkshell,
    go,
    rust,
    qt,
    test,
}

/// The strategy a generated package definition uses to acquire its source.
#[allow(non_camel_case_types)]
#[derive(Debug, PartialEq, Eq, Structural, Clone, Copy)]
pub enum Fetcher {
    github,
    gitlab,
    url,
    zip,
    pypi,
}

/// A project hosted on the package index, named by its project slug.
#[derive(Debug, PartialEq)]
pub struct PypiRepo {
    pub project: String,
}

/// A repository on the source host, named by owner and repository name.
#[derive(Debug, PartialEq)]
pub struct GithubRepo {
    pub owner: String,
    pub repo: String,
}

/// A parsed remote identifier: either a source-host repository or a
/// package-index project. Produced by URL classification, consumed by the
/// metadata enrichment stage.
#[derive(Debug, PartialEq)]
pub enum Repo {
    Pypi(PypiRepo),
    Github(GithubRepo),
}

/// The shared value object that flows through the pipeline. Fields that the
/// user did not supply start at the sentinel `"CHANGE"` and are only
/// overwritten by enrichment while still at that sentinel.
#[derive(Debug)]
pub struct ExpressionInfo {
    pub pname: String,
    pub version: String,
    pub license: String,
    pub maintainer: String,
    pub fetcher: Fetcher,
    pub template: Template,
    pub path_to_write: String,
    pub top_level_path: String,
    pub include_documentation_links: bool,
    pub include_meta: bool,
    pub tag_prefix: String,
    pub owner: String,
    pub src_sha: String,
    pub description: String,
    pub homepage: String,
    pub propagated_build_inputs: Vec<String>,
}

/// The text joining a list of build inputs, one per line under the opening
/// bracket; empty for an empty list.
pub open spec fn spec_inputs_tail(v: Seq<String>, i: int) -> Seq<char>
    decreases v.len() - i,
{
    if i < 0 || i >= v.len() {
        Seq::empty()
    } else {
        "\n    "@ + v[i]@ + spec_inputs_tail(v, i + 1)
    }
}

/// How a build-input list renders: each entry indented on its own line,
/// closed by a newline and one space; an empty list renders as nothing.
pub open spec fn spec_format_inputs(v: Seq<String>) -> Seq<char> {
    if v.len() == 0 {
        Seq::empty()
    } else {
        spec_inputs_tail(v, 0) + "\n "@
    }
}

/// Render a build-input list.
fn format_inputs(inputs: &Vec<String>) -> (r: String)
    ensures
        r@ == spec_format_inputs(inputs@),
{
    let n = inputs.len();
    if n == 0 {
        proof {
            reveal_strlit("");
            assert(""@ =~= Seq::<char>::empty());
        }
        return "".to_owned();
    }
    let mut acc = String::new();
    let mut i: usize = 0;
    while i < n
        invariant
            0 <= i <= n,
            n == inputs@.len(),
            spec_inputs_tail(inputs@, 0) == acc@ + spec_inputs_tail(inputs@, i as int),
        decreases n - i,
    {
        let ghost acc0 = acc@;
        acc.append("\n    ");
        acc.append(inputs[i].as_str());
        proof {
            assert(spec_inputs_tail(inputs@, i as int) == "\n    "@ + inputs@[i as int]@
                + spec_inputs_tail(inputs@, i + 1));
            assert((acc0 + "\n    "@) + inputs@[i as int]@ =~= acc0 + ("\n    "@
                + inputs@[i as int]@));
            assert(acc0 + ("\n    "@ + inputs@[i as int]@) + spec_inputs_tail(inputs@, i + 1)
                =~= acc0 + ("\n    "@ + inputs@[i as int]@ + spec_inputs_tail(inputs@, i + 1)));
        }
        i = i + 1;
    }
    proof {
        assert(spec_inputs_tail(inputs@, n as int) =~= Seq::<char>::empty());
        assert(acc@ + Seq::<char>::empty() =~= acc@);
    }
    acc.append("\n ");
    acc
}

impl ExpressionInfo {
    /// The source-revision expression a rendered fetch block uses: plain
    /// `version` when the release tag had no prefix, else the quoted tag
    /// rebuilt around `${version}`.
    pub open spec fn spec_rev_value(self) -> Seq<char> {
        if self.tag_prefix@.len() == 0 {
            "version"@
        } else {
            "\""@ + self.tag_prefix@ + "${version}\""@
        }
    }

    /// The import-safe variant of the package name: separators become dots.
    pub open spec fn spec_import_check_name(self) -> Seq<char> {
        subst_seq(self.pname@, seq![("-"@, "."@)])
    }

    /// The substitution vocabulary: every named marker with the field text
    /// that replaces it.
    pub open spec fn spec_subst_pairs(self) -> Seq<(Seq<char>, Seq<char>)> {
        seq![
            ("@pname@"@, self.pname@),
            ("@pname-import-check@"@, self.spec_import_check_name()),
            ("@version@"@, self.version@),
            ("@owner@"@, self.owner@),
            ("@rev@"@, self.spec_rev_value()),
            ("@src_sha@"@, self.src_sha@),
            ("@description@"@, self.description@),
            ("@homepage@"@, self.homepage@),
            ("@license@"@, self.license@),
            ("@maintainer@"@, self.maintainer@),
            ("@propagated_build_inputs@"@, spec_format_inputs(self.propagated_build_inputs@)),
        ]
    }

    /// What `format` returns: one pass replacing every named marker with
    /// its field, then the documentation pass, which expands each
    /// `@doc:<topic>@` marker to a reference comment or deletes it.
    pub open spec fn spec_format(self, s: Seq<char>) -> Seq<char> {
        doc_pass_seq(subst_seq(s, self.spec_subst_pairs()), self.include_documentation_links)
    }

    /// Render `s`: substitute every named field marker, then expand or
    /// delete the documentation markers.
    pub fn format(&self, s: &str) -> (r: String)
        ensures
            r@ == self.spec_format(s@),
    {
        let rev: String = if self.tag_prefix.as_str().unicode_len() == 0 {
            "version".to_owned()
        } else {
            let mut rv = "\"".to_owned();
            rv.append(self.tag_prefix.as_str());
            rv.append("${version}\"");
            rv
        };
        let mut dash: Vec<(String, String)> = Vec::new();
        dash.push(("-".to_owned(), ".".to_owned()));
        let import_check = apply_substitutions(self.pname.as_str(), &dash);
        proof {
            assert(subs_view(dash@) =~= seq![("-"@, "."@)]);
        }
        let mut subs: Vec<(String, String)> = Vec::new();
        subs.push(("@pname@".to_owned(), self.pname.clone()));
        subs.push(("@pname-import-check@".to_owned(), import_check));
        subs.push(("@version@".to_owned(), self.version.clone()));
        subs.push(("@owner@".to_owned(), self.owner.clone()));
        subs.push(("@rev@".to_owned(), rev));
        subs.push(("@src_sha@".to_owned(), self.src_sha.clone()));
        subs.push(("@description@".to_owned(), self.description.clone()));
        subs.push(("@homepage@".to_owned(), self.homepage.clone()));
        subs.push(("@license@".to_owned(), self.license.clone()));
        subs.push(("@maintainer@".to_owned(), self.maintainer.clone()));
        subs.push(("@propagated_build_inputs@".to_owned(), format_inputs(&self.propagated_build_inputs)));
        proof {
            assert(subs_view(subs@) =~= self.spec_subst_pairs());
        }
        let replaced = apply_substitutions(s, &subs);
        apply_doc_pass(replaced.as_str(), self.include_documentation_links)
    }
}

/// With every at sign of the substituted text inside a complete
/// documentation marker, the rendered text holds no marker syntax at all,
/// whichever way the documentation flag is set.
pub proof fn lemma_format_no_markers(info: ExpressionInfo, s: Seq<char>)
    requires
        crate::strutil::well_marked(subst_seq(s, info.spec_subst_pairs())),
    ensures
        crate::strutil::free_of(info.spec_format(s), '@'),
{
    crate::strutil::lemma_doc_pass_removes_markers(
        subst_seq(s, info.spec_subst_pairs()),
        info.include_documentation_links,
    );
}

/// Persisted user preferences, merged under explicit command-line values.
#[derive(Debug)]
pub struct UserConfig {
    pub maintainer: Option<String>,
    pub nixpkgs_root: Option<String>,
}

/// The failures the pipeline can report. All of them are fatal to a run:
/// the caller prints the message and exits without writing any file.
#[derive(Debug, PartialEq, Eq, Structural, Clone, Copy)]
pub enum TemplateError {
    /// A path is required when using the module template.
    MissingPath,
    /// The flake template requires an explicit package name.
    MissingPname,
    /// Registering in the index requires a package name or a source URL.
    MissingPnameOrUrl,
    /// A source-host URL that does not name `<owner>/<repo>`.
    MalformedGithubUrl,
    /// A package-index URL that does not name a project.
    MalformedPypiUrl,
    /// A URL on a host that is not supported.
    UnsupportedUrl,
}

} // verus!
