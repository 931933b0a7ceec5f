//! Mining orchestration: message addressing, key-share configuration and its
//! kernel commands, the term model exchanged with the node and the kernel, and
//! the scheduling policy of the mining driver.

pub mod attempt;
pub mod command;
pub mod driver;
pub mod key_config;
pub mod laws;
pub mod noun;
pub mod wire;
