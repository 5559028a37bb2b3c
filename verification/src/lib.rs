//! Project-manifest and dependency-orchestration core for a Python
//! package-management CLI.
//!
//! The library owns the in-memory model of a project's `pyproject.toml`
//! manifest, parses and serializes that model in a canonical text layout,
//! parses dependency requirement strings, and decides the mutations that the
//! CLI's use cases (new project, add/remove dependency, install groups)
//! perform. All file, process and network work is left to the surrounding
//! binary; the functions here are pure and verified.

use vstd::prelude::*;

pub mod cli;
pub mod dependency;
pub mod errors;
pub mod laws;
pub mod manifest;
pub mod ops;
pub mod parse;
pub mod project;
pub mod ser;
pub mod text;
