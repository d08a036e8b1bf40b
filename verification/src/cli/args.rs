//! The command line's arguments, as values.
use std::path::PathBuf;
use vstd::prelude::*;

verus! {

/// The whole command line.
pub struct Cli {
    pub config: Option<PathBuf>,
    pub command: Command,
}

/// The subcommands.
pub enum Command {
    Discover(DiscoverArgs),
    Send(SendArgs),
    Alias(AliasArgs),
    Group(GroupArgs),
}

/// `on` or `off`.
#[derive(Clone, Copy, Debug, PartialEq, Eq, Structural)]
pub enum PowerState {
    On,
    Off,
}

/// A light colour as the command line names it.
#[derive(Clone, Copy, Debug, PartialEq, Eq, Structural)]
pub enum LightModeState {
    Warm,
    Cool,
    Daylight,
}

/// `discover`: how long to listen, and whether to save what was found.
pub struct DiscoverArgs {
    pub interval: u64,
    pub save: bool,
}

/// `send`: the target (one of alias and group) and the settings to change.
pub struct SendArgs {
    pub alias: Option<String>,
    pub group: Option<String>,
    pub speed: Option<u8>,
    pub led: Option<PowerState>,
    pub power: Option<PowerState>,
    pub sleep: Option<PowerState>,
    pub timer: Option<u8>,
    pub set_brightness: Option<u8>,
    pub color: Option<LightModeState>,
}

/// `alias`.
pub struct AliasArgs {
    pub command: AliasCommand,
}

/// `group`.
pub struct GroupArgs {
    pub command: GroupCommand,
}

/// The `alias` subcommands.
pub enum AliasCommand {
    Assign { device_id: String, alias: String },
    Rename { current: String, replacement: String },
    Remove { alias: String },
    List,
    Show(AliasShowArgs),
}

/// The `group` subcommands.
pub enum GroupCommand {
    Create { name: String },
    Rename { current: String, replacement: String },
    Delete { name: String },
    Add(GroupMembershipArgs),
    Remove(GroupMembershipArgs),
    List,
    Show { name: String },
}

/// `alias show`: one of device ID and alias.
pub struct AliasShowArgs {
    pub device_id: Option<String>,
    pub alias: Option<String>,
}

/// `group add` and `group remove`: the group, and one of device ID and alias.
pub struct GroupMembershipArgs {
    pub name: String,
    pub device_id: Option<String>,
    pub alias: Option<String>,
}

} // verus!
