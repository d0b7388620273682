//! Wired network: settings, link state and supervision.

pub mod w5500;
