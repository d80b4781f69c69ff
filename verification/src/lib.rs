//! Identify attached Rockchip USB devices and the boot mode each one is in.
//!
//! The library holds the whole decision logic of the scan: which descriptors
//! count as Rockchip devices, how the dotted USB release string is read as a
//! number, how its parity picks between bootROM-only and recovery-loader
//! mode, and the exact text of the report. Host enumeration and the command
//! line stay outside; the scan works on plain descriptor values.

pub mod laws;
pub mod rk_devices;
pub mod text;
pub mod version;
