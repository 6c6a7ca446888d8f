//! The rules of a minimal logger: its settings, its log-line templates and what it does
//! on records, on rotation and on new settings.
//!
//! Nothing here opens a file, starts a thread or writes a byte. The functions of
//! [`logger`] decide what is to be done, and take back what came of it.

pub mod builder;
pub mod clock;
pub mod config;
pub mod env;
pub mod format;
pub mod laws;
pub mod level;
pub mod logger;
pub mod native;
pub mod record;
pub mod text;

pub use crate::builder::MinimalLoggerConfig;
pub use crate::config::{ActiveConfig, ReloadConfig, TargetFilter};
pub use crate::env::{config_from_env, EnvVars};
pub use crate::format::LogFormat;
pub use crate::level::{Level, LevelFilter};
pub use crate::logger::{init, reinit, shutdown, FlushWorker, MinimalLogger};
pub use crate::record::Record;
