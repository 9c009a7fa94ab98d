//! Launch-configuration logic of the Exodium game launcher.
use vstd::prelude::*;

pub mod autoexec;
pub mod collection;
pub mod conf;
pub mod download;
pub mod launch;
pub mod manifest;
pub mod lp_launch;
pub mod midi;
pub mod text;
pub mod win9x;

verus! {

/// Directory under which a collection's torrent tree lives. All collections
/// share one data directory (overlay model), so the source does not matter.
pub fn collection_data_dir(data_dir: &str, _source: &str) -> (res: String)
    ensures
        res@ == data_dir@,
{
    data_dir.to_string()
}

} // verus!
