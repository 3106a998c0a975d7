//! Creating and managing UTM virtual machines on macOS: the command text sent to
//! `utmctl`, `osascript` and `PlistBuddy`, the decisions taken between those commands,
//! and the parsing of what they print.
//!
//! UTM caches `config.plist` in memory at startup, so configuration edits take effect
//! only after UTM is quit and restarted. `utmctl clone` copies the MAC address, so a
//! clone needs a fresh one.

pub mod absence;
pub mod applescript;
pub mod config;
pub mod error;
pub mod manager;
pub mod network;
mod outside;
pub mod plist;
pub mod text;
pub mod vm;

pub use config::{
    Architecture, CpuCount, DiskSizeGb, DisplayHardware, DriveConfig, DriveInterface, MemoryMb,
    NetworkMode, PortForward, VmConfig, VmConfigBuilder,
};
pub use error::Error;
pub use manager::UtmManager;
pub use network::MacAddress;
pub use vm::{VmInfo, VmStatus};
