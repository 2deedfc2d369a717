//! Scaffolds a multi-package cargo workspace: an in-memory model of a
//! workspace (an optional root crate plus member crates), the rules that turn
//! user answers into that model, and the projection of the model onto a
//! coherent set of directories, source stubs and manifests.
//!
//! All file and terminal I/O is left to the embedding program: this library
//! computes the sequence of filesystem actions to perform and the manifest
//! contents to write, and states what it computes.

pub mod config;
pub mod crates;
pub mod fs;
pub mod input;
pub mod workspace;
