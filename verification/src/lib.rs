//! A verified core for a nix expression scaffolding tool.
//!
//! Given a template kind (package, shell environment, service module, test,
//! flake) and a handful of identifying fields, the library computes where the
//! generated file belongs inside a nixpkgs-style tree, normalizes metadata
//! fetched from a source-hosting or package-index registry, and renders the
//! final expression text by marker substitution.
//!
//! All parsing, path resolution, selection and rendering logic lives here and
//! carries contracts; network and filesystem access stay with the caller,
//! which hands in plain values.

pub mod cli;
pub mod expression;
pub mod file_path;
pub mod gh_release_response;
pub mod gh_repo_response;
pub mod license;
pub mod pypi;
pub mod strutil;
pub mod types;
pub mod url;
pub mod version;
