//! The command a send carries.
use crate::device::LightMode;
use crate::protocol::command::{json_object_bytes, light_mode_text, CommandBuilder, CommandError, JsonScalar};
use vstd::prelude::*;

verus! {

/// The settings a send changes; `None` leaves a setting alone.
pub struct CommandOptions {
    pub power: Option<bool>,
    pub speed: Option<u8>,
    pub sleep: Option<bool>,
    pub timer: Option<u8>,
    pub led: Option<bool>,
    pub brightness: Option<u8>,
    pub light_mode: Option<LightMode>,
}

/// The JSON fields of the command for these settings.
pub open spec fn option_fields(o: CommandOptions) -> Map<Seq<char>, JsonScalar> {
    let m0 = crate::protocol::command::no_fields();
    let m1 = match o.power {
        Some(p) => m0.insert("power"@, JsonScalar::Bool(p)),
        None => m0,
    };
    let m2 = match o.speed {
        Some(s) => m1.insert("speed"@, JsonScalar::Number(s as nat)),
        None => m1,
    };
    let m3 = match o.sleep {
        Some(s) => m2.insert("sleep"@, JsonScalar::Bool(s)),
        None => m2,
    };
    let m4 = match o.timer {
        Some(t) => m3.insert("timer"@, JsonScalar::Number(t as nat)),
        None => m3,
    };
    let m5 = match o.led {
        Some(l) => m4.insert("led"@, JsonScalar::Bool(l)),
        None => m4,
    };
    let m6 = match o.brightness {
        Some(b) => m5.insert("brightness"@, JsonScalar::Number(b as nat)),
        None => m5,
    };
    match o.light_mode {
        Some(m) => m6.insert("light_mode"@, JsonScalar::Text(light_mode_text(m))),
        None => m6,
    }
}

/// The first out-of-range setting, checked in the order speed, timer, brightness.
pub open spec fn range_error(o: CommandOptions) -> Option<CommandError> {
    if o.speed matches Some(s) && !(1 <= s <= 6) {
        Some(CommandError::SpeedOutOfRange)
    } else if o.timer matches Some(t) && t > 4 {
        Some(CommandError::TimerOutOfRange)
    } else if o.brightness matches Some(b) && !(10 <= b <= 100) {
        Some(CommandError::BrightnessOutOfRange)
    } else {
        None
    }
}

/// No setting is given.
pub open spec fn no_settings(o: CommandOptions) -> bool {
    o.power is None && o.speed is None && o.sleep is None && o.timer is None && o.led is None
        && o.brightness is None && o.light_mode is None
}

/// The bytes of the command for these settings.
pub fn command_payload(opts: &CommandOptions) -> (r: Result<Vec<u8>, CommandError>)
    ensures
        range_error(*opts) matches Some(e) ==> r == Err::<Vec<u8>, CommandError>(e),
        opts.speed matches Some(s) && !(1 <= s <= 6) ==> r matches Err(CommandError::SpeedOutOfRange),
        opts.timer matches Some(t) && t > 4 && (opts.speed matches Some(s) ==> 1 <= s <= 6) ==> r matches Err(
            CommandError::TimerOutOfRange,
        ),
        opts.brightness matches Some(b) && !(10 <= b <= 100) && (opts.speed matches Some(s) ==> 1 <= s <= 6)
            && (opts.timer matches Some(t) ==> t <= 4) ==> r matches Err(CommandError::BrightnessOutOfRange),
        (opts.speed matches Some(s) ==> 1 <= s <= 6) && (opts.timer matches Some(t) ==> t <= 4) && (
        opts.brightness matches Some(b) ==> 10 <= b <= 100) ==> (r is Ok <==> (opts.power is Some
            || opts.speed is Some || opts.sleep is Some || opts.timer is Some || opts.led is Some
            || opts.brightness is Some || opts.light_mode is Some)),
        range_error(*opts) is None && no_settings(*opts) ==> r matches Err(CommandError::NoCommand),
        range_error(*opts) is None && !no_settings(*opts) ==> (r matches Ok(b) && b@ == json_object_bytes(
            option_fields(*opts),
        )),
{
    let mut builder = CommandBuilder::new();
    let ghost m0 = crate::protocol::command::no_fields();
    if let Some(p) = opts.power {
        builder = builder.power(p);
    }
    if let Some(s) = opts.speed {
        builder = match builder.speed(s) {
            Ok(b) => b,
            Err(e) => {
                return Err(e);
            },
        };
    }
    if let Some(enabled) = opts.sleep {
        builder = builder.sleep(enabled);
    }
    if let Some(t) = opts.timer {
        builder = match builder.timer(t) {
            Ok(b) => b,
            Err(e) => {
                return Err(e);
            },
        };
    }
    if let Some(l) = opts.led {
        builder = builder.led(l);
    }
    if let Some(b) = opts.brightness {
        builder = match builder.brightness(b) {
            Ok(x) => x,
            Err(e) => {
                return Err(e);
            },
        };
    }
    if let Some(light_mode) = opts.light_mode {
        builder = builder.light_mode(light_mode);
    }
    proof {
        assert(builder.fields() == option_fields(*opts));
        if !no_settings(*opts) {
            assert(builder.fields() != m0) by {
                if opts.light_mode is Some {
                    assert(builder.fields().dom().contains("light_mode"@));
                } else if opts.brightness is Some {
                    assert(builder.fields().dom().contains("brightness"@));
                } else if opts.led is Some {
                    assert(builder.fields().dom().contains("led"@));
                } else if opts.timer is Some {
                    assert(builder.fields().dom().contains("timer"@));
                } else if opts.sleep is Some {
                    assert(builder.fields().dom().contains("sleep"@));
                } else if opts.speed is Some {
                    assert(builder.fields().dom().contains("speed"@));
                } else {
                    assert(builder.fields().dom().contains("power"@));
                }
            }
        }
    }
    builder.build()
}

} // verus!
