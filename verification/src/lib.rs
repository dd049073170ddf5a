//! Control library for the CML Micro DRM1000 broadcast receiver module:
//! the UART command and response codec, the parsers for the module's
//! binary replies, and the state kept by a controller that talks to it.

pub mod protocol;
pub mod text;
pub mod serial;
pub mod cli;
pub mod display;
