//! Decision logic of a self-updating launcher: version tags and their
//! precedence, the persisted version marker, per-platform release assets,
//! and the choices made at each step of an update and launch.
pub mod flow;
pub mod platform;
pub mod release;
pub mod version;
