//! Template rendering: one skeleton per template kind. The module, flake,
//! test and shell kinds are fixed skeletons; the package kinds are
//! assembled from a derivation-helper header, a fetch block chosen by the
//! fetcher, a dependency block, and an optional metadata block, then run
//! through the marker substitution of `ExpressionInfo::format`.

use crate::types::{ExpressionInfo, Fetcher, Template};
use vstd::prelude::*;
use vstd::string::StringExecFns;

verus! {

/// The skeleton of a service module.
pub const MODULE_SKELETON: &'static str = r#"{ pkgs, lib, config, ... }:

with lib;

let
  cfg = config.services.@pname@;
in {
  options.services.@pname@ = {
    enable = mkEnableOption "CHANGE";

    package = mkOption {
      type = types.package;
      default = pkgs.@pname@;
      defaultText = "pkgs.@pname@";
      description = "Set version of @pname@ package to use.";
    };
  };

  config = mkIf cfg.enable {
    environment.systemPackages = [ cfg.package ]; # if user should have the command available as well
    services.dbus.packages = [ cfg.package ]; # if the package has dbus related configuration

    systemd.services.@pname@ = {
      description = "@pname@ server daemon.";

      wantedBy = [ "multi-user.target" ];
      after = [ "network.target" ]; # if networking is needed

      restartIfChanged = true; # set to false, if restarting is problematic

      serviceConfig = {
        DynamicUser = true;
        ExecStart = "${cfg.package}/bin/@pname@";
        Restart = "always";
      };
    };
  };

  meta.maintainers = with lib.maintainers; [ @maintainer@ ];
}"#;

/// The skeleton of a flake.
pub const FLAKE_SKELETON: &'static str = r#"{
  description = "@pname@ flake";

  inputs = {
    utils.url = "github:numtide/flake-utils";
    nixpkgs.url = "github:nixos/nixpkgs/nixpkgs-unstable";
  };

  outputs = { self, nixpkgs, utils, ... }:
    let
      # put devShell and any other required packages into local overlay
      localOverlay = import ./nix/overlay.nix;
      overlays = [
        localOverlay
      ];

      pkgsForSystem = system: import nixpkgs {
        # if you have additional overlays, you may add them here
        overlays = [
          localOverlay # this should expose devShell
        ];
        inherit system;
      };
    # https://github.com/numtide/flake-utils#usage for more examples
    in utils.lib.eachSystem [ "x86_64-linux" "aarch64-linux" "x86_64-darwin" ] (system: rec {
      legacyPackages = pkgsForSystem system;
      packages = utils.lib.flattenTree {
        inherit (legacyPackages) devShell @pname@;
      };
      defaultPackage = packages.@pname@;
      apps.@pname@ = utils.lib.@pname@ { drv = packages.@pname@; };  # use as `nix run .#@pname@`
      hydraJobs = { inherit (legacyPackages) @pname@; };
      checks = { inherit (legacyPackages) @pname@; };              # items to be ran as part of `nix flake check`
  }) // {
    # non-system suffixed items should go here
    inherit overlays;
    overlay = nixpkgs.lib.composeManyExtensions overlays; # expose overlay which contains all dependent overlays
    nixosModule = { config, ... }: { options = {}; config = {};}; # export single module
    nixosModules = {}; # attr set or list
    nixosConfigurations.hostname = { config, pkgs, ... }: {};
  };
}"#;

/// The skeleton of a system test.
pub const TEST_SKELETON: &'static str = r#"import ./make-test-python.nix ({ pkgs, ... }:
{
  name = "@pname@";
  meta = with pkgs.lib.maintainers; {
    maintainers = [ @maintainer@ ];
  };
  machine = { pkgs, ... }: {
    environment.systemPackages = [ @pname@ ];
    services.@pname@.enable = true;
    virtualisation.memorySize = 512;
  };

  testScript =
    ''
      start_all()

      machine.wait_for_unit("multi-user.target")
      machine.wait_for_unit("@pname@.service")
      machine.wait_for_open_port(8080)
      machine.succeed("CMD")
    '';
})"#;

/// The fixed, non-parameterized shell environment.
pub const MKSHELL_SKELETON: &'static str = "with import <nixpkgs> { };

mkShell rec {
  # include any libraries or programs in buildInputs
  buildInputs = [
  ];

  # shell commands to be ran upon entering shell
  shellHook = ''
  '';
}
";

/// The derivation-helper input and derivation block of a template kind; the
/// stdenv block carries a documentation-annotation key.
pub open spec fn spec_derivation_helper(t: Template) -> (Seq<char>, Seq<char>) {
    match t {
        Template::stdenv => ("stdenv"@, "@doc:stdenvMkDerivation@stdenv.mkDerivation"@),
        Template::python => ("buildPythonPackage"@, "buildPythonPackage"@),
        Template::mkshell => ("pkgs ? import <nixpkgs> {}"@, "with pkgs;\n\nmkShell"@),
        Template::qt => ("mkDerivation"@, "mkDerivation"@),
        Template::go => ("buildGoModule"@, "buildGoModule"@),
        Template::rust => ("rustPlatform"@, "rustPlatform.buildRustPackage"@),
        Template::flake => (""@, ""@),
        Template::test => (""@, ""@),
        Template::module => (""@, ""@),
    }
}

/// The derivation helper a package skeleton imports and opens with.
fn derivation_helper(template: &Template) -> (r: (String, String))
    ensures
        r.0@ == spec_derivation_helper(*template).0,
        r.1@ == spec_derivation_helper(*template).1,
{
    match template {
        Template::stdenv => (
            "stdenv".to_owned(),
            "@doc:stdenvMkDerivation@stdenv.mkDerivation".to_owned(),
        ),
        Template::python => ("buildPythonPackage".to_owned(), "buildPythonPackage".to_owned()),
        Template::mkshell => (
            "pkgs ? import <nixpkgs> {}".to_owned(),
            "with pkgs;\n\nmkShell".to_owned(),
        ),
        Template::qt => ("mkDerivation".to_owned(), "mkDerivation".to_owned()),
        Template::go => ("buildGoModule".to_owned(), "buildGoModule".to_owned()),
        Template::rust => ("rustPlatform".to_owned(), "rustPlatform.buildRustPackage".to_owned()),
        Template::flake => ("".to_owned(), "".to_owned()),
        Template::test => ("".to_owned(), "".to_owned()),
        Template::module => ("".to_owned(), "".to_owned()),
    }
}

/// The fetcher input and source block of a fetcher kind.
pub open spec fn spec_fetch_block(f: Fetcher) -> (Seq<char>, Seq<char>) {
    match f {
        Fetcher::github => (
            "fetchFromGitHub"@,
            "  @doc:fetcher@src = fetchFromGitHub {\n    owner = \"@owner@\";\n    repo = pname;\n    rev = \"@rev@\";\n    sha256 = \"@src_sha@\";\n  };"@,
        ),
        Fetcher::gitlab => (
            "fetchFromGitLab"@,
            "  @doc:fetcher@src = fetchFromGitLab {\n    owner = \"CHANGE\";\n    repo = pname;\n    rev = \"CHANGE\";\n    sha256 = \"0000000000000000000000000000000000000000000000000000\";\n  };"@,
        ),
        Fetcher::url => (
            "fetchurl"@,
            "  @doc:fetcher@src = fetchurl {\n    url = \"CHANGE\";\n    sha256 = \"0000000000000000000000000000000000000000000000000000\";\n  };"@,
        ),
        Fetcher::zip => (
            "fetchzip"@,
            "  @doc:fetcher@src = fetchzip {\n    url = \"CHANAGE\";\n    sha256 = \"0000000000000000000000000000000000000000000000000000\";\n  };"@,
        ),
        Fetcher::pypi => (
            "fetchPypi"@,
            "  @doc:fetcher@src = fetchPypi {\n    inherit pname version;\n    sha256 = \"@src_sha@\";\n  };"@,
        ),
    }
}

/// The source-fetch block of a package skeleton.
fn fetch_block(fetcher: &Fetcher) -> (r: (&'static str, &'static str))
    ensures
        r.0@ == spec_fetch_block(*fetcher).0,
        r.1@ == spec_fetch_block(*fetcher).1,
{
    match fetcher {
        Fetcher::github => (
            "fetchFromGitHub",
            "  @doc:fetcher@src = fetchFromGitHub {\n    owner = \"@owner@\";\n    repo = pname;\n    rev = \"@rev@\";\n    sha256 = \"@src_sha@\";\n  };",
        ),
        Fetcher::gitlab => (
            "fetchFromGitLab",
            "  @doc:fetcher@src = fetchFromGitLab {\n    owner = \"CHANGE\";\n    repo = pname;\n    rev = \"CHANGE\";\n    sha256 = \"0000000000000000000000000000000000000000000000000000\";\n  };",
        ),
        Fetcher::url => (
            "fetchurl",
            "  @doc:fetcher@src = fetchurl {\n    url = \"CHANGE\";\n    sha256 = \"0000000000000000000000000000000000000000000000000000\";\n  };",
        ),
        Fetcher::zip => (
            "fetchzip",
            "  @doc:fetcher@src = fetchzip {\n    url = \"CHANAGE\";\n    sha256 = \"0000000000000000000000000000000000000000000000000000\";\n  };",
        ),
        Fetcher::pypi => (
            "fetchPypi",
            "  @doc:fetcher@src = fetchPypi {\n    inherit pname version;\n    sha256 = \"@src_sha@\";\n  };",
        ),
    }
}

/// The dependency-declaration block of a template kind.
pub open spec fn spec_build_inputs(t: Template) -> Seq<char> {
    match t {
        Template::python => "  @doc:buildDependencies@propagatedBuildInputs = [ ];\n\n  pythonImportsCheck = [ \"@pname-import-check@\" ];"@,
        Template::rust => "  @doc:buildDependencies@cargoSha256 = \"0000000000000000000000000000000000000000000000000000\";\n\n  buildInputs = [ ];"@,
        Template::go => "  @doc:buildDependencies@vendorSha256 = \"0000000000000000000000000000000000000000000000000000\";\n\n  subPackages = [ \".\" ];"@,
        _ => "  buildInputs = [ ];"@,
    }
}

/// The dependency block of a package skeleton.
fn build_inputs(template: &Template) -> (r: &'static str)
    ensures
        r@ == spec_build_inputs(*template),
{
    match template {
        Template::python => "  @doc:buildDependencies@propagatedBuildInputs = [ ];\n\n  pythonImportsCheck = [ \"@pname-import-check@\" ];",
        Template::rust => "  @doc:buildDependencies@cargoSha256 = \"0000000000000000000000000000000000000000000000000000\";\n\n  buildInputs = [ ];",
        Template::go => "  @doc:buildDependencies@vendorSha256 = \"0000000000000000000000000000000000000000000000000000\";\n\n  subPackages = [ \".\" ];",
        _ => "  buildInputs = [ ];",
    }
}

/// The trailing metadata block of a package skeleton.
pub open spec fn spec_meta() -> Seq<char> {
    "\n  @doc:meta@meta = with lib; {\n    description = \"@description@\";\n    homepage = \"@homepage@\";\n    license = licenses.@license@;\n    maintainers = with maintainers; [ @maintainer@ ];\n  };"@
}

/// The metadata block gated by `include_meta`.
fn meta() -> (r: &'static str)
    ensures
        r@ == spec_meta(),
{
    "\n  @doc:meta@meta = with lib; {\n    description = \"@description@\";\n    homepage = \"@homepage@\";\n    license = licenses.@license@;\n    maintainers = with maintainers; [ @maintainer@ ];\n  };"
}

/// The assembled, unrendered source of a package-kind skeleton.
pub open spec fn spec_package_source(info: ExpressionInfo) -> Seq<char> {
    let dh = spec_derivation_helper(info.template);
    let f = spec_fetch_block(info.fetcher);
    "{ lib\n, "@ + dh.0 + "\n, "@ + f.0 + "\n}:"@ + "\n\n"@ + dh.1 + " rec {\n  pname = \""@
        + info.pname@ + "\";\n  version = \""@ + info.version@ + "\";\n\n"@ + f.1 + "\n\n"@
        + spec_build_inputs(info.template) + "\n"@ + (if info.include_meta {
        spec_meta()
    } else {
        Seq::empty()
    }) + "\n}\n"@
}

/// What `generate_expression` returns for each template kind: the fixed
/// skeleton of the module, flake, test and shell kinds, and for the package
/// kinds the assembled skeleton run through one rendering pass.
pub open spec fn spec_generate_expression(info: ExpressionInfo) -> Seq<char> {
    match info.template {
        Template::module => MODULE_SKELETON@,
        Template::flake => FLAKE_SKELETON@,
        Template::test => TEST_SKELETON@,
        Template::mkshell => MKSHELL_SKELETON@,
        _ => info.spec_format(spec_package_source(info)),
    }
}

/// Generate the expression text for `info`'s template kind.
pub fn generate_expression(info: &ExpressionInfo) -> (r: String)
    ensures
        r@ == spec_generate_expression(*info),
{
    match info.template {
        Template::module => MODULE_SKELETON.to_owned(),
        Template::flake => FLAKE_SKELETON.to_owned(),
        Template::test => TEST_SKELETON.to_owned(),
        Template::mkshell => MKSHELL_SKELETON.to_owned(),
        _ => {
            let dh = derivation_helper(&info.template);
            let f = fetch_block(&info.fetcher);
            let mut src = "{ lib\n, ".to_owned();
            src.append(dh.0.as_str());
            src.append("\n, ");
            src.append(f.0);
            src.append("\n}:");
            src.append("\n\n");
            src.append(dh.1.as_str());
            src.append(" rec {\n  pname = \"");
            src.append(info.pname.as_str());
            src.append("\";\n  version = \"");
            src.append(info.version.as_str());
            src.append("\";\n\n");
            src.append(f.1);
            src.append("\n\n");
            src.append(build_inputs(&info.template));
            src.append("\n");
            if info.include_meta {
                src.append(meta());
            }
            src.append("\n}\n");
            proof {
                assert(src@ =~= spec_package_source(*info));
            }
            info.format(src.as_str())
        },
    }
}

/// What the full rendering of `info` returns: the generated expression with
/// one further rendering pass over it, as the pipeline applies before
/// printing or writing. Rendering twice is how markers that enrichment left
/// inside field values, such as the owner inside the default homepage, get
/// their final text.
pub open spec fn spec_render_expression(info: ExpressionInfo) -> Seq<char> {
    info.spec_format(spec_generate_expression(info))
}

/// Rendering is deterministic: two renderings of the same value object
/// are byte-identical.
pub proof fn lemma_render_deterministic(info: ExpressionInfo, a: Seq<char>, b: Seq<char>)
    requires
        a == spec_render_expression(info),
        b == spec_render_expression(info),
    ensures
        a == b,
{
}

/// Render the complete output text for `info`.
pub fn render_expression(info: &ExpressionInfo) -> (r: String)
    ensures
        r@ == spec_render_expression(*info),
{
    let expr = generate_expression(info);
    info.format(expr.as_str())
}

} // verus!
