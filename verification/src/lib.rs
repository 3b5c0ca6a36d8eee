//! A Rust wrapper for FreeRTOS: the verified part.
//!
//! The library holds the logic of the wrapper that does not itself talk to the
//! FreeRTOS kernel: error values, tick durations, the decisions a mutex makes
//! around the kernel's semaphore calls, the message and client bookkeeping of
//! the processor pattern, the checks of the C shim, and the helpers of the
//! QEMU test runner.

pub mod base;
pub mod builder;
pub mod text;
pub mod mutex;
pub mod patterns;
pub mod rnd;
pub mod runner;
pub mod units;
pub mod utils;

pub use base::{CVoid, FreeRtosError};
pub use rnd::Rnd;
pub use units::{Duration, DurationTicks};
