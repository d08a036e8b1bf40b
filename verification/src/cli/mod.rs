//! The command line: its arguments and what its subcommands decide.
pub mod args;
pub mod handlers;
