//! The names of the daemon's runtime files under a given runtime directory.
use vstd::prelude::*;
use vstd::string::StringExecFns;

verus! {

/// `dir` and `file` joined by a single slash.
pub open spec fn spec_join(dir: Seq<char>, file: Seq<char>) -> Seq<char> {
    dir + "/"@ + file
}

/// The PID file: holds the running daemon's process id in decimal.
pub fn pid_path(runtime_dir: &str) -> (r: String)
    ensures
        r@ == spec_join(runtime_dir@, "i3-helper.pid"@),
{
    runtime_dir.to_owned().concat("/").concat("i3-helper.pid")
}

/// The mode file: mirrors the current mode's label for external readers.
pub fn mode_path(runtime_dir: &str) -> (r: String)
    ensures
        r@ == spec_join(runtime_dir@, "i3-tiling-mode"@),
{
    runtime_dir.to_owned().concat("/").concat("i3-tiling-mode")
}

/// The mode-request file: written by a client, consumed by the signal
/// handler.
pub fn request_path(runtime_dir: &str) -> (r: String)
    ensures
        r@ == spec_join(runtime_dir@, "i3-helper.request"@),
{
    runtime_dir.to_owned().concat("/").concat("i3-helper.request")
}

} // verus!
