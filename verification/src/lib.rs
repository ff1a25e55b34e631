//! Planning core of a local backup and restore tool.
//!
//! Nothing here touches the filesystem. The caller looks up what its paths
//! name on disk, hands paths and kinds in as plain values, and gets back what
//! to do: an [`action::Action`] for a backup or a restore, the steps of a
//! directory mirror or of an archive stream, and the decision on removing a
//! restored artifact.
//!
//! - [`path`] names artifacts and reads their names.
//! - [`backup`] and [`restore`] plan the two directions.
//! - [`mirror`] plans the copying of a directory tree, [`codec`] the writing
//!   and reading of a compressed archive.
//! - [`confirm`] reads a yes-or-no answer and decides on removal; [`cli`]
//!   tells which command a bare argument stands for.
//! - [`model`] and [`archive_model`] say what the plans do, over an idealised
//!   store and disk; [`laws`], [`mirror_laws`] and the laws in
//!   [`archive_model`] say what holds of them.

pub mod action;
pub mod archive_model;
pub mod backup;
pub mod cli;
pub mod codec;
pub mod confirm;
pub mod error;
pub mod kind;
pub mod laws;
pub mod mirror;
pub mod mirror_laws;
pub mod model;
pub mod path;
pub mod restore;
pub mod text;
