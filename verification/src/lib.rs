//! Backend logic of a desktop media-library/player shell.
//!
//! Two subsystems form the core: a media-library scanner that turns a
//! sorted directory walk into a tree of directories and their video files,
//! and a playback-session manager that tracks the lifecycle of the single
//! external playback-engine instance behind a lock.

pub mod classifier;
pub mod paths;
pub mod scan;
pub mod session;
