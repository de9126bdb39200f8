//! The subcommands: their arguments and the decisions each makes before and after the
//! work it hands to git, the disk or the network.

pub mod attach;
pub mod detach;
pub mod doctor;
pub mod init;
pub mod pull;
pub mod push;
pub mod status;
pub mod sync;
pub mod tag;
pub mod update;
