//! A small console logger: leveled, timestamped, optionally colored lines.

pub mod clock;
pub mod config;
pub mod mogger;
pub mod registry;
pub mod style;

pub use clock::Timestamp;
pub use config::{Config, ConfigBuilder, LevelFormatType, OutputType, TimeFormatType};
pub use mogger::{Format, Level, Mogger};
pub use registry::{AlreadyInitialized, Registry};
pub use style::TermColor;
