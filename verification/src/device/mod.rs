//! Devices as the workflows see them: their decoded state, the commands sent
//! to them, and the decisions of the discovery and send workflows.
pub mod command;
pub mod discover;
pub mod send_workflow;
pub mod state_match;
pub mod target;

use crate::config::model::DeviceMap;
use vstd::prelude::*;

verus! {

/// The light colour of an Aris Starlight fan.
#[derive(Clone, Copy, Debug, PartialEq, Eq, Structural)]
pub enum LightMode {
    Warm,
    Cool,
    Daylight,
}

/// The devices after a discovery, and whether they differ from the ones it started from.
pub struct DeviceResults {
    pub devices: DeviceMap,
    pub changed: bool,
}

/// A fan's state as its status packets report it.
#[derive(Debug)]
pub struct DeviceState {
    pub power: bool,
    pub led: bool,
    pub sleep: bool,
    pub speed: u8,
    pub timer: u8,
    pub timer_elapsed_mins: u32,
    /// The light's brightness, when the report carries it. A status report's
    /// state number does not: decoding one always leaves this `None`.
    pub brightness: Option<u8>,
    pub light_mode: Option<LightMode>,
}

} // verus!
