//! Measurement infrastructure for CPU-cycle benchmarking: a calibrated tick
//! timer, a nested zone profiler with inclusive/exclusive attribution, and an
//! adaptive repetition tester that runs a candidate operation until its
//! measured time converges to a stable floor.
//!
//! All timing state is driven by tick values handed in by the caller, so the
//! accounting itself is verified; reading the hardware counter, the OS clock
//! and the page-fault counter stays outside the library.
pub mod profile;
pub mod repetition_tester;
pub mod ticks;
pub mod timing;
pub mod workload;
