//! Tick-frequency calibration: the arithmetic that turns raw counter readings
//! from a busy-wait against an OS wall-clock timer into an estimated
//! ticks-per-second figure. The counter reads themselves happen outside the
//! library; this module receives the raw tick values.
use vstd::prelude::*;

verus! {

/// Number of OS-timer ticks that a busy-wait of `millis_to_wait` milliseconds
/// must cover when the OS timer runs at `os_freq` ticks per second.
pub fn os_wait_ticks(millis_to_wait: u64, os_freq: u64) -> (r: u64)
    requires
        millis_to_wait * os_freq <= u64::MAX,
    ensures
        r == millis_to_wait * os_freq / 1000,
{
    millis_to_wait * os_freq / 1000
}

/// Estimates the CPU-tick frequency from one calibration interval: the CPU
/// counter and the OS timer are both read at the start and at the end of a
/// busy-wait, and the CPU ticks are scaled by the OS timer's known frequency.
/// Returns 0 when the OS timer reports no elapsed time at all, so a caller
/// must treat 0 as "no estimate available" and skip real-time reporting.
pub fn estimate_cpu_frequency(
    os_freq: u64,
    cpu_start: u64,
    cpu_end: u64,
    os_start: u64,
    os_end: u64,
) -> (r: u64)
    requires
        cpu_start <= cpu_end,
        os_start <= os_end,
        (cpu_end - cpu_start) * os_freq <= u64::MAX,
    ensures
        os_end > os_start ==> r == (cpu_end - cpu_start) * os_freq / (os_end - os_start),
        os_end == os_start ==> r == 0,
{
    let cpu_elapsed = cpu_end - cpu_start;
    let os_elapsed = os_end - os_start;
    if os_elapsed > 0 {
        (cpu_elapsed * os_freq) / os_elapsed
    } else {
        0
    }
}

} // verus!
