//! Monitoring one child process: the run's state machine, the running maximum of its
//! memory samples, and the reading of a memory figure from a process status text.
pub mod monitor;
pub mod report;
pub mod status_text;
