//! Compiles JDDF schemas into type declarations for Go and TypeScript.
//!
//! A schema tree (see [`schema`]) is turned by each target into a flat sequence
//! of named declarations, and that sequence is then rendered as source text.

pub mod schema;
pub mod naming;
pub mod config;
pub mod golang;
pub mod typescript;
pub mod laws;
