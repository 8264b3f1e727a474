//! Serial devices: listing data, hot-plug diffs, port leases and the serial monitor's
//! settings and buffer.

pub mod broker;
pub mod hotplug;
pub mod list;
pub mod monitor;
pub mod telemetry;

