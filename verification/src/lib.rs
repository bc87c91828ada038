//! `SandClock`: a keyed inactivity tracker.
//!
//! Callers `touch` a key to signal that the entity behind it is still
//! active. A scanning cycle walks the timer table, marks every key whose
//! last touch lies at least `time_out_duration` in the past, and reports
//! each such key exactly once per lifecycle; the marked entries are
//! deleted one cycle later. A terminal shutdown signal is reported at
//! most once per clock.
//!
//! The core here is a sequential state machine over explicit timestamps
//! in milliseconds: every decision (refresh, expiry, cleanup, shutdown)
//! is a verified function of the current state and the time handed in.
//! The surrounding runtime (the background thread that drives the
//! cycles, the queue and the worker pool that deliver events) lives
//! outside this crate and only feeds the state machine.

mod config;
mod errors;
pub mod laws;
mod sync_insertion;
mod table;
mod time_update;
mod timer_loop;
mod timer_status;
mod user_table;

pub use config::SandClockConfig;
pub use config::DEFAULT_REFRESH_MILLIS;
pub use errors::UserConnectedBaseError;
pub use sync_insertion::InsertSync;
pub use sync_insertion::SandClockInsertion;
pub use time_update::ClockEvent;
pub use time_update::ClockEventIntern;
pub use time_update::TimeOutUpdate;
pub use timer_loop::ScanState;
pub use timer_loop::TimerLoop;
pub use timer_loop::spec_cleanup;
pub use timer_loop::spec_expired_keys;
pub use timer_loop::spec_mark;
pub use timer_loop::spec_scan_table;
pub use timer_loop::spec_step_status;
pub use timer_loop::spec_times_out;
pub use timer_status::StatusModel;
pub use timer_status::Timer;
pub use timer_status::TimerStatus;
pub use user_table::SandClock;
pub use user_table::SandClockBuilder;
pub use user_table::spec_touch;
