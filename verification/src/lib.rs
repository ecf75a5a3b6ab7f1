//! Hardware and operating-system summaries for a terminal dashboard:
//! the text of each panel, the parsing of what the system reports, and
//! the key handling of the dashboard, with their contracts.

pub mod app;
pub mod cpu;
pub mod disk;
pub mod gpu;
pub mod memory;
pub mod os;
pub mod platform;
pub mod text;
pub mod windows;
