//! What the GUI tells the user when the daemon it tried to start did not
//! come up.

use vstd::prelude::*;

use crate::text::{contains_text, occurs_in};
use vstd::string::StringExecFns;

verus! {

/// Advice given when the daemon lacks access to the USB devices.
pub const PERMISSION_ADVICE: &'static str = "USB permission denied \u{2014} install udev rules: sudo cp udev/99-frgb.rules /etc/udev/rules.d/ && sudo udevadm control --reload-rules && sudo udevadm trigger";

/// Advice given when another process holds the USB devices.
pub const BUSY_ADVICE: &'static str = "USB device busy \u{2014} kill stale daemon: pkill frgbd";

/// Message when the daemon runs but never opened its socket.
pub const NOT_RESPONDING: &'static str = "Daemon started but not responding \u{2014} check logs";

/// Message when the daemon binary could not be found.
pub const NOT_FOUND_ADVICE: &'static str = "Daemon binary 'frgbd' not found \u{2014} build with: cargo build -p frgb-daemon";

/// The daemon's error output or exit code says it was refused access: a
/// mention of a permission, `EACCES` or "Operation not permitted", or exit
/// code 126.
pub open spec fn permission_failure(stderr: Seq<char>, code: Option<i32>) -> bool {
    ||| occurs_in(stderr, "ermission"@)
    ||| occurs_in(stderr, "EACCES"@)
    ||| occurs_in(stderr, "Operation not permitted"@)
    ||| code == Some(126i32)
}

/// The daemon's error output says a device was busy.
pub open spec fn busy_failure(stderr: Seq<char>) -> bool {
    occurs_in(stderr, "busy"@) || occurs_in(stderr, "EBUSY"@)
}

/// Message for a daemon that exited right after starting, from its
/// (trimmed) error output, its exit code and its exit status as text.
pub open spec fn early_exit_text(stderr: Seq<char>, code: Option<i32>, status: Seq<char>) -> Seq<char> {
    if permission_failure(stderr, code) {
        PERMISSION_ADVICE@
    } else if busy_failure(stderr) {
        BUSY_ADVICE@
    } else if stderr.len() == 0 {
        "Daemon exited with "@ + status
    } else {
        "Daemon failed: "@ + stderr
    }
}

/// Message for a daemon that exited right after starting (see
/// [`early_exit_text`]).
pub fn early_exit_message(stderr: &str, code: Option<i32>, status: &str) -> (m: String)
    ensures
        m@ == early_exit_text(stderr@, code, status@),
{
    let is_permission = contains_text(stderr, "ermission") || contains_text(stderr, "EACCES")
        || contains_text(stderr, "Operation not permitted") || code == Some(126i32);
    let is_busy = contains_text(stderr, "busy") || contains_text(stderr, "EBUSY");
    if is_permission {
        PERMISSION_ADVICE.to_owned()
    } else if is_busy {
        BUSY_ADVICE.to_owned()
    } else if stderr.unicode_len() == 0 {
        let mut m = "Daemon exited with ".to_owned();
        m.append(status);
        m
    } else {
        let mut m = "Daemon failed: ".to_owned();
        m.append(stderr);
        m
    }
}

/// Message for a daemon that could not be started: advice when its binary
/// was not found, else the error as text.
pub open spec fn spawn_failure_text(not_found: bool, error: Seq<char>) -> Seq<char> {
    if not_found {
        NOT_FOUND_ADVICE@
    } else {
        "Failed to start daemon: "@ + error
    }
}

/// Message for a daemon that could not be started (see [`spawn_failure_text`]).
pub fn spawn_failure_message(not_found: bool, error: &str) -> (m: String)
    ensures
        m@ == spawn_failure_text(not_found, error@),
{
    if not_found {
        NOT_FOUND_ADVICE.to_owned()
    } else {
        let mut m = "Failed to start daemon: ".to_owned();
        m.append(error);
        m
    }
}

} // verus!
