//! Argument parsers and the configuration path.
pub mod fan_speed;
pub mod paths;
