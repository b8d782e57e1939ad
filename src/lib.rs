//! A logging backend for programs without an operating system: log records are
//! rendered to text and sent out over a 16550-compatible serial port.
//!
//! The library holds the decisions: the register protocol of the serial
//! controller, the rendering of records, severity filtering and the
//! install-once rule of the logger. Port access itself is left to the caller,
//! which performs the operations that the library plans.
pub mod level;
pub mod serial;
pub mod format;
pub mod logger;

pub use crate::format::{default_formatter, Formatter, LogRecord, Segment};
pub use crate::level::{Level, LevelFilter};
pub use crate::logger::{builder, init, init_with_filter, Builder, Logger, SetupError};
pub use crate::serial::{LineConfig, PortOp, Serial, COM1_PORT};
