//! Verified core of a tablet driver: the wire formats and decision rules
//! that the driver's processes, threads and settings files agree on.

pub mod protocol;
pub mod tablet;
pub mod bridge;
pub mod text;
pub mod i18n;
pub mod settings;
pub mod logger;
pub mod themes;
pub mod startup;
pub mod stats;
pub mod sysinfo;
pub mod engine;
