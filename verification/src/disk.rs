//! Where blobs are kept on disk, and the crate's version text.

use vstd::prelude::*;
use vstd::string::StringExecFns;

verus! {

/// The directory used when `BLOB_STORE_DIR` is not set.
pub open spec fn default_store_dir() -> Seq<char> {
    "/var/lib/sport-p2p/blobs"@
}

/// The blob directory given the value of `BLOB_STORE_DIR` (if it is set and
/// readable): that value, or `/var/lib/sport-p2p/blobs`.
pub fn blob_store_dir_from(env_value: Option<String>) -> (res: String)
    ensures
        res@ == match env_value {
            Some(dir) => dir@,
            None => default_store_dir(),
        },
{
    match env_value {
        Some(dir) => dir,
        None => String::from_str("/var/lib/sport-p2p/blobs"),
    }
}

/// The version text of the browser build.
pub fn core_p2p_wasm_version() -> (res: String)
    ensures
        res@ == "0.2.0-wasm"@,
{
    String::from_str("0.2.0-wasm")
}

} // verus!
