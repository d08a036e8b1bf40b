//! Command packets: a JSON object of the settings to change.
use crate::device::LightMode;
use vstd::prelude::*;

verus! {

#[verifier::external_type_specification]
#[verifier::external_body]
#[verifier::reject_recursive_types(K)]
#[verifier::reject_recursive_types(V)]
pub struct ExJsonMap<K, V>(serde_json::Map<K, V>);

#[verifier::external_type_specification]
#[verifier::external_body]
pub struct ExJsonValue(serde_json::Value);

/// A JSON object as `serde_json` holds it.
pub type JsonObject = serde_json::Map<String, serde_json::Value>;

/// A JSON value of the kinds a command holds.
pub enum JsonScalar {
    Bool(bool),
    Number(nat),
    Text(Seq<char>),
}

/// The fields of a JSON object under construction: key and value.
pub uninterp spec fn json_fields(m: JsonObject) -> Map<Seq<char>, JsonScalar>;

/// The bytes `serde_json::to_vec` writes for a JSON object with these fields.
pub uninterp spec fn json_object_bytes(fields: Map<Seq<char>, JsonScalar>) -> Seq<u8>;

/// The fields of an empty object.
pub open spec fn no_fields() -> Map<Seq<char>, JsonScalar> {
    Map::empty()
}

/// `serde_json::Map::new`: an object with no fields.
#[verifier::external_body]
fn json_map_new() -> (r: JsonObject)
    ensures
        json_fields(r) == no_fields(),
{
    serde_json::Map::new()
}

/// `serde_json::Map::insert` of a `Value::Bool`: the field is set, replacing any earlier value.
#[verifier::external_body]
fn json_insert_bool(m: &mut JsonObject, key: String, value: bool)
    ensures
        json_fields(*final(m)) == json_fields(*old(m)).insert(key@, JsonScalar::Bool(value)),
{
    m.insert(key, serde_json::Value::Bool(value));
}

/// `serde_json::Map::insert` of a `Value::Number`: the field is set, replacing any earlier value.
#[verifier::external_body]
fn json_insert_number(m: &mut JsonObject, key: String, value: u8)
    ensures
        json_fields(*final(m)) == json_fields(*old(m)).insert(key@, JsonScalar::Number(value as nat)),
{
    m.insert(key, serde_json::Value::Number(value.into()));
}

/// `serde_json::Map::insert` of a `Value::String`: the field is set, replacing any earlier value.
#[verifier::external_body]
fn json_insert_text(m: &mut JsonObject, key: String, value: String)
    ensures
        json_fields(*final(m)) == json_fields(*old(m)).insert(key@, JsonScalar::Text(value@)),
{
    m.insert(key, serde_json::Value::String(value));
}

/// `serde_json::Map::is_empty`.
#[verifier::external_body]
fn json_map_is_empty(m: &JsonObject) -> (r: bool)
    ensures
        r == (json_fields(*m) == no_fields()),
{
    m.is_empty()
}

/// `serde_json::to_vec` of `Value::Object`: the object's JSON text. The
/// writer is a `Vec`, whose writes do not fail, and every key of the object is
/// a `String`, so the serializer has no error to report; the empty vector of
/// the error arm is never produced.
#[verifier::external_body]
fn json_object_to_vec(m: JsonObject) -> (r: Vec<u8>)
    ensures
        r@ == json_object_bytes(json_fields(m)),
{
    match serde_json::to_vec(&serde_json::Value::Object(m)) {
        Ok(b) => b,
        Err(_) => Vec::new(),
    }
}

/// Why a command could not be built.
#[derive(Debug)]
pub enum CommandError {
    SpeedOutOfRange,
    TimerOutOfRange,
    BrightnessOutOfRange,
    NoCommand,
}

/// The JSON text of a light mode.
pub open spec fn light_mode_text(mode: LightMode) -> Seq<char> {
    match mode {
        LightMode::Warm => "warm"@,
        LightMode::Cool => "cool"@,
        LightMode::Daylight => "daylight"@,
    }
}

/// Collects the settings of one command.
pub struct CommandBuilder {
    map: JsonObject,
}

impl CommandBuilder {
    /// The fields set so far.
    pub closed spec fn fields(&self) -> Map<Seq<char>, JsonScalar> {
        json_fields(self.map)
    }

    /// A builder with no settings.
    pub fn new() -> (r: Self)
        ensures
            r.fields() == no_fields(),
    {
        CommandBuilder { map: json_map_new() }
    }

    /// Turns the fan on or off.
    pub fn power(self, on: bool) -> (r: Self)
        ensures
            r.fields() == self.fields().insert("power"@, JsonScalar::Bool(on)),
    {
        let mut b = self;
        json_insert_bool(&mut b.map, "power".to_owned(), on);
        b
    }

    /// Sets the speed, which must be 1 to 6.
    pub fn speed(self, speed: u8) -> (r: Result<Self, CommandError>)
        ensures
            !(1 <= speed <= 6) ==> r matches Err(CommandError::SpeedOutOfRange),
            1 <= speed <= 6 ==> (r matches Ok(b) && b.fields() == self.fields().insert(
                "speed"@,
                JsonScalar::Number(speed as nat),
            )),
    {
        if !(1 <= speed && speed <= 6) {
            return Err(CommandError::SpeedOutOfRange);
        }
        let mut b = self;
        json_insert_number(&mut b.map, "speed".to_owned(), speed);
        Ok(b)
    }

    /// Turns sleep mode on or off.
    pub fn sleep(self, enabled: bool) -> (r: Self)
        ensures
            r.fields() == self.fields().insert("sleep"@, JsonScalar::Bool(enabled)),
    {
        let mut b = self;
        json_insert_bool(&mut b.map, "sleep".to_owned(), enabled);
        b
    }

    /// Sets the timer, which must be 0 to 4.
    pub fn timer(self, value: u8) -> (r: Result<Self, CommandError>)
        ensures
            value > 4 ==> r matches Err(CommandError::TimerOutOfRange),
            value <= 4 ==> (r matches Ok(b) && b.fields() == self.fields().insert(
                "timer"@,
                JsonScalar::Number(value as nat),
            )),
    {
        if value > 4 {
            return Err(CommandError::TimerOutOfRange);
        }
        let mut b = self;
        json_insert_number(&mut b.map, "timer".to_owned(), value);
        Ok(b)
    }

    /// Turns the LED on or off.
    pub fn led(self, on: bool) -> (r: Self)
        ensures
            r.fields() == self.fields().insert("led"@, JsonScalar::Bool(on)),
    {
        let mut b = self;
        json_insert_bool(&mut b.map, "led".to_owned(), on);
        b
    }

    /// Sets the light's brightness, which must be 10 to 100.
    pub fn brightness(self, value: u8) -> (r: Result<Self, CommandError>)
        ensures
            !(10 <= value <= 100) ==> r matches Err(CommandError::BrightnessOutOfRange),
            10 <= value <= 100 ==> (r matches Ok(b) && b.fields() == self.fields().insert(
                "brightness"@,
                JsonScalar::Number(value as nat),
            )),
    {
        if !(10 <= value && value <= 100) {
            return Err(CommandError::BrightnessOutOfRange);
        }
        let mut b = self;
        json_insert_number(&mut b.map, "brightness".to_owned(), value);
        Ok(b)
    }

    /// Sets the light's colour.
    pub fn light_mode(self, mode: LightMode) -> (r: Self)
        ensures
            r.fields() == self.fields().insert("light_mode"@, JsonScalar::Text(light_mode_text(mode))),
    {
        let value = match mode {
            LightMode::Warm => "warm",
            LightMode::Cool => "cool",
            LightMode::Daylight => "daylight",
        };
        let mut b = self;
        json_insert_text(&mut b.map, "light_mode".to_owned(), value.to_owned());
        b
    }

    /// The command's JSON text; a command with no settings is refused.
    pub fn build(self) -> (r: Result<Vec<u8>, CommandError>)
        ensures
            self.fields() == no_fields() ==> r matches Err(
                CommandError::NoCommand,
            ),
            self.fields() != no_fields() ==> (r matches Ok(b) && b@ == json_object_bytes(self.fields())),
    {
        if json_map_is_empty(&self.map) {
            return Err(CommandError::NoCommand);
        }
        Ok(json_object_to_vec(self.map))
    }
}

/// The text a command that could not be built is reported with.
pub open spec fn command_error_text(e: CommandError) -> Seq<char> {
    match e {
        CommandError::SpeedOutOfRange => "Speed must be between 1 and 6"@,
        CommandError::TimerOutOfRange => "Timer must be between 0 and 4"@,
        CommandError::BrightnessOutOfRange => "Brightness must be between 10 and 100"@,
        CommandError::NoCommand => "Failed to buld payload, no command specified."@,
    }
}

impl CommandError {
    /// The text this error is reported with.
    pub fn message(&self) -> (r: &'static str)
        ensures
            r@ == command_error_text(*self),
    {
        match self {
            CommandError::SpeedOutOfRange => "Speed must be between 1 and 6",
            CommandError::TimerOutOfRange => "Timer must be between 0 and 4",
            CommandError::BrightnessOutOfRange => "Brightness must be between 10 and 100",
            CommandError::NoCommand => "Failed to buld payload, no command specified.",
        }
    }
}

} // verus!
