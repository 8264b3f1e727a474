//! Build output diagnostics: compiler and linker messages, and the firmware size report.
pub mod parser;
pub mod size;
