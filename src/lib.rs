//! Watches a command's progress output: extracts `N/M` readings, keeps a
//! bounded history of them, and derives rates and a completion estimate.

pub mod clock;
pub mod eta;
pub mod events;
pub mod extract;
pub mod help;
pub mod rate;
pub mod runner;
pub mod store;

pub use events::{Action, AppEvent, Key, UiState};
pub use extract::parse_progress;
pub use rate::{analyze_rate, rate_changes, RatePoint};
pub use runner::{CmdOutput, CmdResult};
pub use store::{Analyzer, Sample, Status, CAPACITY};
