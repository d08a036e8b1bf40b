//! The configuration: network ports, known devices and groups, and the
//! operations that edit them.
pub mod groups;
pub mod model;
pub mod ops;
