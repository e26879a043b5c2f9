//! Fixed file names of the control plane.
//!
//! All coordination state lives in one per-user runtime directory: the
//! PID-lock file, the mailbox files and the daemon-owned state and level
//! files keep fixed names there. The shell around the library resolves the
//! directory itself and joins these names onto it.

use vstd::prelude::*;

verus! {

/// Name of the PID-lock file in the runtime directory.
pub fn pid_file_name() -> (r: &'static str)
    ensures
        r@ == "pid"@,
{
    "pid"
}

/// Name of the daemon-owned audio level file, a sibling of the state file.
pub fn audio_level_file_name() -> (r: &'static str)
    ensures
        r@ == "audio_level"@,
{
    "audio_level"
}

/// The binary inside the application bundle.
pub fn get_app_bundle_path() -> (r: String)
    ensures
        r@ == "/Applications/Voxtype.app/Contents/MacOS/voxtype"@,
{
    String::from_str("/Applications/Voxtype.app/Contents/MacOS/voxtype")
}

} // verus!
