//! Runtime skeleton of a windowed application: structured diagnostics, the
//! engine's lifecycle and the run loop that drives it. The functions are
//! verified against their contracts. The library does no input or output:
//! it hands lines and steps to its caller, who writes and acts.

pub mod config;
pub mod error;
pub mod lifecycle;
pub mod log;
pub mod run_loop;
pub mod text;

pub use crate::config::{Config, ConfigSource, EngineConfig, GameConfig};
pub use crate::error::EngineError;
pub use crate::lifecycle::{Engine, Phase};
pub use crate::run_loop::{launch, ControlFlow, PlatformEvent, RunLoop, Step};
