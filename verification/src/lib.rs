//! Verified core of a `tail -f` follower for VRChat log files.

pub mod text;
pub mod cli;
pub mod input;
pub mod output;
pub mod log_entry;
pub mod paths;
pub mod events;
pub mod lines;
pub mod timestamp;
pub mod follow;
