//! The source variants. Each source holds its optional configuration,
//! supplies its defaults, and renders the plain values sampled for it
//! into one status-line section.

pub mod battery;
pub mod cpu;
pub mod date;
pub mod disk;
pub mod general;
pub mod memory;
pub mod network;
pub mod script;
pub mod temperature;
pub mod volume;
pub mod weather;
