//! The errors that this library reports.

use vstd::prelude::*;
use serde_json::Error as JsonError;

verus! {

/// All errors produced by this library.
#[derive(Debug)]
pub enum Error {
    /// `utmctl` exited with a non-zero status or produced unexpected output.
    Utmctl(String),
    /// `osascript` failed.
    AppleScript(String),
    /// `PlistBuddy` failed.
    PlistBuddy(String),
    /// A required binary (`utmctl`, `osascript`, `PlistBuddy`, `qemu-img`) was not found.
    BinaryNotFound(String),
    /// The requested VM does not exist.
    VmNotFound(String),
    /// A VM with that name already exists.
    VmAlreadyExists(String),
    /// The VM's `config.plist` is missing or unreadable: the VM's name, then the path.
    ConfigNotFound(String, String),
    /// An I/O error occurred.
    Io(std::io::Error),
    /// JSON parse error (for utmctl structured output).
    Json(JsonError),
    /// A timeout waiting for the VM or UTM to reach the expected state.
    Timeout(String),
    /// The QEMU guest agent is not running or not installed in the VM.
    GuestAgentUnavailable(String),
    /// Generic error for anything else.
    Other(String),
}

} // verus!
