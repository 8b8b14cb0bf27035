//! A verified core for a local sound-pack manager: an idempotent
//! download-then-extract provisioning state machine, a recursive pack
//! discovery algorithm over a directory tree, and ordered playback plans.

pub mod discovery;
pub mod fs_tree;
pub mod pack;
pub mod provision;
pub mod registry;
pub mod text;
