//! Clone detectors that a job can be run with.

pub mod ccfindersw;
