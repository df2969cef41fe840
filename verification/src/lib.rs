//! Code generation for JNI-backed game class wrappers, the byte layouts of the
//! function hooks that the injected client installs, and the small callbacks
//! that it exposes.

pub mod args;
pub mod client;
pub mod derive;
pub mod generate;
pub mod hook;
pub mod model;
pub mod parse;
pub mod text;
