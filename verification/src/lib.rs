//! A status-line sampling and aggregation library.
//!
//! A set of configured sources (battery, CPU, memory, ...) is grouped by
//! poll interval; each group's samples are rendered into per-source slots,
//! and the slots are periodically joined into one separated status line.

pub mod components;
pub mod device;
pub mod section;
pub mod statusbar;
pub mod text;
