//! Core logic of a `mv`-style command: destination-path resolution under
//! trailing-slash flags, collision-free backup naming, and the
//! rename-with-copy-fallback move policy, all verified against a map model
//! of the filesystem.

pub mod backup;
pub mod errors;
pub mod fsmodel;
pub mod mover;
pub mod options;
pub mod paths;
