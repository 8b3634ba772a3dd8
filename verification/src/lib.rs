//! Verified core of a DAW control server: the installer's startup-hook
//! merge, bridge request framing, discovery decisions and reply parsing.

pub mod cli;
pub mod error;
pub mod ops;
pub mod text;
pub mod startup;
pub mod installer;
pub mod discovery;
pub mod audacity;
pub mod pipe;
pub mod bridge;
pub mod reaper;
pub mod types;
