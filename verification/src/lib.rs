//! Quick-capture notes: classification of free text, reminder scheduling,
//! recurrence rules, note storage records and calendar export.

pub mod ai;
pub mod calendar;
pub mod classifier;
pub mod clock;
pub mod config;
pub mod harness;
pub mod listen;
pub mod man_cli;
pub mod order;
pub mod pad_cli;
pub mod parser;
pub mod scheduler;
pub mod store;
pub mod text;
pub mod theme;
pub mod types;
pub mod views;
