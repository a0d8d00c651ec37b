//! The decisions of the main loop.

use vstd::prelude::*;
use crate::text::same_text;

verus! {

/// The error number with which reading fails once a device is gone.
pub const ENODEV: i32 = 19;

/// Why the main loop leaves its inner loop.
#[derive(Clone, Copy, Debug, PartialEq, Eq, Structural)]
pub enum Reload {
    /// The configuration file may have changed.
    ReloadConfig,
    /// A device has gone, so the devices are to be chosen anew.
    ReloadDevices,
}

/// What a failure to read from a device means.
#[derive(Clone, Copy, Debug, PartialEq, Eq, Structural)]
pub enum FetchFailure {
    /// The device has gone: choose the devices anew.
    DeviceGone,
    /// Anything else ends the program.
    Fatal,
}

/// Judges a failure to read from a device by its error number, if it has
/// one: `ENODEV` says that the device has gone, all else is fatal.
pub fn on_fetch_error(raw_os_error: Option<i32>) -> (failure: FetchFailure)
    ensures
        failure == (if raw_os_error == Some(ENODEV) {
            FetchFailure::DeviceGone
        } else {
            FetchFailure::Fatal
        }),
{
    match raw_os_error {
        Some(errno) => if errno == ENODEV {
            FetchFailure::DeviceGone
        } else {
            FetchFailure::Fatal
        },
        None => FetchFailure::Fatal,
    }
}

/// Whether an event of the watcher of the configuration is one of the
/// configuration file.  An event of the directory tells so by the name of
/// the file it is about; an event of the file itself by being a
/// modification.
pub open spec fn config_touched(
    name: Option<Seq<char>>,
    modified: bool,
    config_file_name: Seq<char>,
) -> bool {
    match name {
        Some(n) => n == config_file_name || modified,
        None => modified,
    }
}

/// Whether an event of the watcher of the configuration asks for a reload.
pub fn on_config_event(name: Option<&str>, modified: bool, config_file_name: &str) -> (touched:
    bool)
    ensures
        touched == config_touched(
            match name {
                Some(n) => Some(n@),
                None => None,
            },
            modified,
            config_file_name@,
        ),
{
    match name {
        Some(n) => same_text(n, config_file_name) || modified,
        None => modified,
    }
}

/// Whether the configuration is to be loaded anew: not if the file is known
/// to have been modified last when the loaded configuration was read.
pub fn should_reload(loaded: Option<u64>, current: Option<u64>) -> (reload: bool)
    ensures
        reload == !(loaded is Some && current is Some && loaded->0 == current->0),
{
    match (loaded, current) {
        (Some(last), Some(now)) => last != now,
        _ => true,
    }
}

} // verus!
