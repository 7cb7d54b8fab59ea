//! What the platform backends decide about raw events.
//!
//! The hooks and taps themselves live in the program around the library. Here stands how
//! an event is read, whether it is swallowed, and how an injected event is built.

pub mod macos;
pub mod windows;
