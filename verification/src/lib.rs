//! Local-network control of Atomberg smart fans: device configuration,
//! the fan's UDP protocol, and the decisions of the command workflows.
pub mod text;
pub mod config;
pub mod device;
pub mod protocol;
pub mod utils;
pub mod cli;
pub mod laws;
