//! Qualification harness for flash storage chips.
//!
//! The library holds the harness's core logic: translating command options
//! for the external flashing utility, computing ROM partition layouts,
//! tracking write-protect state, keeping a golden image reference, and
//! sequencing test scenarios.  External processes are reached through the
//! `Flashrom` and `Platform` traits, which the surrounding application
//! implements.

pub mod cmd;
pub mod flashrom;
pub mod scenarios;
pub mod strings;
pub mod tester;
pub mod types;
pub mod utils;
