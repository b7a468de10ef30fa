//! Installation pipeline for a NixOS system: the partition layout that
//! drives it, the renderer that turns configuration templates into the
//! files of the new system, and the sequential state machine that orders the
//! privileged commands.
//!
//! The library decides; it performs no input or output. Its caller runs the
//! commands that the state machine hands out and reports what came of them.
//!
//! - `text`: searching, replacing and splitting sequences of characters.
//! - `partitions`: the partition layout and the boot device it names.
//! - `config`: what the user chose.
//! - `stanza`: the configuration text that stands in for each placeholder.
//! - `render`: the rendering of one template.
//! - `gateway`: the privileged commands, and what is reported of them.
//! - `templates`: the walk through a set of templates, step by step.
//! - `walk`: what a whole walk writes.
//! - `install`: the pipeline, step by step.
//! - `runs`: what holds of whole runs of the pipeline.
//! - `error`: why an installation was given up.

pub mod config;
pub mod error;
pub mod gateway;
pub mod install;
pub mod partitions;
pub mod render;
pub mod runs;
pub mod stanza;
pub mod templates;
pub mod text;
pub mod walk;
