//! # Cronal
//!
//! The core of a cron runtime whose job table can be changed while it runs:
//! named jobs carry a cron rule, an activation flag and a body; one poll of
//! the table decides which jobs are due and hands them out for execution.

mod clock;
pub mod config;
pub mod error;
mod job;
pub mod laws;
pub mod rule;
pub mod scheduler;

pub use config::{SchduleBuilder, Schedule};
pub use job::Job;
pub use scheduler::CronJob;
