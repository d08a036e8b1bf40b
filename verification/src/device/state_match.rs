//! Whether a reported state shows the requested changes.
use crate::device::{DeviceState, LightMode};
use vstd::prelude::*;

verus! {

/// The settings a command asked for; `None` leaves a setting as it is.
#[derive(Clone, Copy, Debug, Default)]
pub struct RequestedState {
    pub power: Option<bool>,
    pub speed: Option<u8>,
    pub sleep: Option<bool>,
    pub timer: Option<u8>,
    pub led: Option<bool>,
    pub brightness: Option<u8>,
    pub light_mode: Option<LightMode>,
}

/// Every setting that was asked for has the asked value in `actual`. A
/// requested brightness is shown only by a reported brightness equal to it,
/// and a requested light colour only by a reported colour equal to it.
pub open spec fn satisfies(actual: DeviceState, expected: RequestedState) -> bool {
    &&& expected.power matches Some(p) ==> actual.power == p
    &&& expected.speed matches Some(s) ==> actual.speed == s
    &&& expected.sleep matches Some(s) ==> actual.sleep == s
    &&& expected.timer matches Some(t) ==> actual.timer == t
    &&& expected.led matches Some(l) ==> actual.led == l
    &&& expected.brightness matches Some(b) ==> actual.brightness == Some(b)
    &&& expected.light_mode matches Some(m) ==> actual.light_mode == Some(m)
}

/// Whether the reported state shows every requested setting. A state that
/// reports no brightness (as no decoded status report does) never shows a
/// requested brightness.
pub fn matches_expected(actual: &DeviceState, expected: &RequestedState) -> (r: bool)
    ensures
        r == satisfies(*actual, *expected),
        r <==> {
            &&& (expected.power matches Some(p) ==> actual.power == p)
            &&& (expected.speed matches Some(s) ==> actual.speed == s)
            &&& (expected.sleep matches Some(s) ==> actual.sleep == s)
            &&& (expected.timer matches Some(t) ==> actual.timer == t)
            &&& (expected.led matches Some(l) ==> actual.led == l)
            &&& (expected.brightness matches Some(b) ==> actual.brightness == Some(b))
            &&& (expected.light_mode matches Some(m) ==> actual.light_mode == Some(m))
        },
        expected.brightness is Some && actual.brightness is None ==> !r,
{
    if let Some(power) = expected.power {
        if actual.power != power {
            return false;
        }
    }
    if let Some(speed) = expected.speed {
        if actual.speed != speed {
            return false;
        }
    }
    if let Some(sleep) = expected.sleep {
        if actual.sleep != sleep {
            return false;
        }
    }
    if let Some(timer) = expected.timer {
        if actual.timer != timer {
            return false;
        }
    }
    if let Some(led) = expected.led {
        if actual.led != led {
            return false;
        }
    }
    if let Some(brightness) = expected.brightness {
        let same = match actual.brightness {
            Some(b) => b == brightness,
            None => false,
        };
        if !same {
            return false;
        }
    }
    if let Some(light_mode) = expected.light_mode {
        let same = match actual.light_mode {
            Some(m) => m == light_mode,
            None => false,
        };
        if !same {
            return false;
        }
    }
    true
}

} // verus!
