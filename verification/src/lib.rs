//! The decisions of a monitor that watches a UPS through a NUT server, reminds of
//! the age of its battery, and shuts the host down before the power is gone.
//!
//! Nothing here reads a file, opens a connection or starts a program. The modules
//! say what to do, take what came of it, and say what to do next.

pub mod battery;
pub mod calendar;
pub mod client;
pub mod command;
pub mod config;
pub mod lifecycle;
pub mod mail;
pub mod monitor;
pub mod nut;
pub mod percentage;
pub mod policy;
pub mod query;
pub mod split;
pub mod text;
pub mod timer;
