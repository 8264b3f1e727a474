//! The verified core of a PlatformIO desktop companion: `platformio.ini` parsing and
//! editing, CLI argument construction, CLI output parsing, serial-device bookkeeping and
//! the project metadata that goes with them.
pub mod ini;
pub mod text;
pub mod error;
pub mod frontend;
pub mod pio;
pub mod proc;
pub mod settings;
pub mod project;
pub mod device;
pub mod textops;
pub mod textsort;
pub mod casing;
pub mod claude;
pub mod clock;
pub mod ids;
pub mod json;
pub mod matching;
pub mod diag;
pub mod toolchain;
pub mod replay;
