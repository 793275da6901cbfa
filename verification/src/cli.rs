//! Pipeline decisions: building the shared value object from the plain
//! argument values, merging persisted preferences under explicit choices,
//! validating the combinations the pipeline refuses, and deciding how the
//! rendered text leaves the program. Argument parsing itself stays with the
//! caller.

use crate::file_path::{nix_file_paths, spec_join_path, spec_nix_file_paths};
use crate::types::{ExpressionInfo, Fetcher, Template, TemplateError, UserConfig};
use vstd::prelude::*;

verus! {

/// The text an optional explicit value resolves to: the value itself, else
/// the persisted preference, else empty.
pub open spec fn spec_or_config(arg: Option<String>, cfg: Option<String>) -> Seq<char> {
    match arg {
        Some(a) => a@,
        None => match cfg {
            Some(c) => c@,
            None => Seq::empty(),
        },
    }
}

/// Resolve an optional explicit value against a persisted preference.
fn or_config(arg: &Option<String>, cfg: &Option<String>) -> (r: String)
    ensures
        r@ == spec_or_config(*arg, *cfg),
{
    match arg {
        Some(a) => a.clone(),
        None => match cfg {
            Some(c) => c.clone(),
            None => String::new(),
        },
    }
}

/// The persisted maintainer preference, if any.
pub open spec fn spec_config_maintainer(config: Option<&UserConfig>) -> Option<String> {
    match config {
        Some(c) => c.maintainer,
        None => None,
    }
}

/// The persisted tree-root preference, if any.
pub open spec fn spec_config_root(config: Option<&UserConfig>) -> Option<String> {
    match config {
        Some(c) => c.nixpkgs_root,
        None => None,
    }
}

/// Build the shared value object from the plain argument values: resolve
/// maintainer and tree root against the persisted preferences, check the
/// combinations the pipeline refuses, resolve the paths, and start every
/// enrichable field at its sentinel. The boolean of the result reports
/// whether the write path still needs the directory-vs-file probe (see
/// `resolve_dir_probe`).
pub fn build_expression_info(
    template: Template,
    fetcher: Fetcher,
    pname: String,
    pname_given: bool,
    version: String,
    license: String,
    path: String,
    path_given: bool,
    include_documentation_links: bool,
    include_meta: bool,
    maintainer_arg: Option<String>,
    nixpkgs_root_arg: Option<String>,
    config: Option<&UserConfig>,
    in_nixpkgs: bool,
    url_given: bool,
) -> (r: Result<(ExpressionInfo, bool), TemplateError>)
    ensures
        ({
            let flake_missing = template == Template::flake && !pname_given;
            let resolved = spec_nix_file_paths(
                template,
                path@,
                path_given,
                pname@,
                spec_or_config(nixpkgs_root_arg, spec_config_root(config)),
                in_nixpkgs,
            );
            let nix_missing = in_nixpkgs && !pname_given && !url_given;
            match r {
                Err(TemplateError::MissingPname) => flake_missing,
                Err(TemplateError::MissingPath) => !flake_missing && resolved is Err,
                Err(TemplateError::MissingPnameOrUrl) => !flake_missing && resolved is Ok
                    && nix_missing,
                Err(_) => false,
                Ok(p) => {
                    let info = p.0;
                    &&& !flake_missing
                    &&& !nix_missing
                    &&& resolved matches Ok(t)
                    &&& info.path_to_write@ == t.0
                    &&& info.top_level_path@ == t.1
                    &&& p.1 == t.2
                    &&& info.pname == pname
                    &&& info.version == version
                    &&& info.license == license
                    &&& info.maintainer@ == spec_or_config(
                        maintainer_arg,
                        spec_config_maintainer(config),
                    )
                    &&& info.template == template
                    &&& info.fetcher == fetcher
                    &&& info.include_documentation_links == include_documentation_links
                    &&& info.include_meta == include_meta
                    &&& info.tag_prefix@ == Seq::<char>::empty()
                    &&& info.owner@ == "CHANGE"@
                    &&& info.src_sha@ == "0000000000000000000000000000000000000000000000000000"@
                    &&& info.description@ == "CHANGE"@
                    &&& info.homepage@ == "https://github.com/@owner@/@pname@"@
                    &&& info.propagated_build_inputs@ == Seq::<String>::empty()
                },
            }
        }),
{
    let maintainer = match config {
        Some(c) => or_config(&maintainer_arg, &c.maintainer),
        None => or_config(&maintainer_arg, &None),
    };
    let nixpkgs_root = match config {
        Some(c) => or_config(&nixpkgs_root_arg, &c.nixpkgs_root),
        None => or_config(&nixpkgs_root_arg, &None),
    };
    if template == Template::flake && !pname_given {
        return Err(TemplateError::MissingPname);
    }
    let resolved = match nix_file_paths(
        &template,
        path.as_str(),
        path_given,
        pname.as_str(),
        nixpkgs_root.as_str(),
        in_nixpkgs,
    ) {
        Ok(rp) => rp,
        Err(e) => {
            return Err(e);
        },
    };
    if in_nixpkgs && !pname_given && !url_given {
        return Err(TemplateError::MissingPnameOrUrl);
    }
    let info = ExpressionInfo {
        pname,
        version,
        license,
        maintainer,
        fetcher,
        template,
        path_to_write: resolved.write_path,
        top_level_path: resolved.index_path,
        include_documentation_links,
        include_meta,
        tag_prefix: String::new(),
        owner: "CHANGE".to_owned(),
        src_sha: "0000000000000000000000000000000000000000000000000000".to_owned(),
        description: "CHANGE".to_owned(),
        homepage: "https://github.com/@owner@/@pname@".to_owned(),
        propagated_build_inputs: Vec::new(),
    };
    Ok((info, resolved.needs_dir_probe))
}

/// Resolve the outstanding directory-vs-file question: when the write path
/// names an existing directory, the conventional default filename is
/// appended.
pub fn resolve_dir_probe(info: &mut ExpressionInfo, write_path_is_dir: bool)
    ensures
        final(info).path_to_write@ == if write_path_is_dir {
            spec_join_path(old(info).path_to_write@, "default.nix"@)
        } else {
            old(info).path_to_write@
        },
        *final(info) == (ExpressionInfo { path_to_write: final(info).path_to_write, ..*old(info) }),
{
    if write_path_is_dir {
        info.path_to_write = crate::file_path::append_default_filename(info.path_to_write.as_str());
    }
}

/// Where the rendered text goes: to standard output, refused because the
/// target file already exists, written after creating the missing parent
/// directories, or written directly.
#[derive(Debug, PartialEq, Eq, Structural, Clone, Copy)]
pub enum OutputAction {
    PrintStdout,
    RefuseExisting,
    CreateDirsAndWrite,
    WriteFile,
}

/// Decide what happens to the rendered text. An existing target file is
/// never overwritten.
pub fn decide_output(
    to_stdout: bool,
    target_exists: bool,
    parent_nonempty: bool,
    parent_exists: bool,
) -> (r: OutputAction)
    ensures
        r == (if to_stdout {
            OutputAction::PrintStdout
        } else if target_exists {
            OutputAction::RefuseExisting
        } else if parent_nonempty && !parent_exists {
            OutputAction::CreateDirsAndWrite
        } else {
            OutputAction::WriteFile
        }),
        target_exists && !to_stdout ==> r == OutputAction::RefuseExisting,
{
    if to_stdout {
        OutputAction::PrintStdout
    } else if target_exists {
        OutputAction::RefuseExisting
    } else if parent_nonempty && !parent_exists {
        OutputAction::CreateDirsAndWrite
    } else {
        OutputAction::WriteFile
    }
}

/// The line to add to the central index file: the module kind registers
/// its path alone, the test kind a `handleTest` call, every other kind a
/// `callPackage` call.
pub open spec fn spec_top_level_line(info: ExpressionInfo) -> Seq<char> {
    match info.template {
        Template::module => "  "@ + info.top_level_path@,
        Template::test => "  "@ + info.pname@ + " = handleTest "@ + info.top_level_path@
            + " { };"@,
        _ => "  "@ + info.pname@ + " = callPackage "@ + info.top_level_path@ + " { };"@,
    }
}

/// Render the line the caller prints for the central index file.
pub fn top_level_registration_line(info: &ExpressionInfo) -> (r: String)
    ensures
        r@ == spec_top_level_line(*info),
{
    let mut line = "  ".to_owned();
    match info.template {
        Template::module => {
            line.append(info.top_level_path.as_str());
        },
        Template::test => {
            line.append(info.pname.as_str());
            line.append(" = handleTest ");
            line.append(info.top_level_path.as_str());
            line.append(" { };");
        },
        _ => {
            line.append(info.pname.as_str());
            line.append(" = callPackage ");
            line.append(info.top_level_path.as_str());
            line.append(" { };");
        },
    }
    line
}

} // verus!
