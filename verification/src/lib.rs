//! The idle manager's verified core: what is recorded and reported of saved
//! power, how hardware is powered down and restored, how the manager's state is
//! shown, and the protocol between the command line and the daemon.

pub mod accounting;
pub mod action;
pub mod calendar;
pub mod hardware;
pub mod ipc;
pub mod low_power;
pub mod manager;
pub mod path;
pub mod report;
pub mod text;
pub mod wording;
