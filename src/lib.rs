//! Batch maintenance of the service directories of a mono-repo: an atomic
//! rewrite protocol for one file, the selection of service directories, the
//! planning of a batch over them, and the content edits applied to manifests.

pub mod paths;
pub mod rewrite;
pub mod services;
pub mod batch;
pub mod poetry;
pub mod visitors;
pub mod cli;
pub mod execution;
pub mod manifest;
