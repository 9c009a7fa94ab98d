//! The content manifest (schema v2): the collections the app knows and the
//! content packs each offers.
use std::collections::HashMap;
use vstd::prelude::*;

verus! {

/// A downloadable content pack: an HTTP-hosted tar.gz (`url` + `sha256`) or
/// a ZIP inside the collection's own torrent (`torrent_file_path`, whose
/// integrity the torrent's piece hashes already guarantee, so `sha256` is
/// left empty).
pub struct ContentPackInfo {
    pub display_name: String,
    pub description: String,
    pub url: String,
    pub sha256: String,
    pub size_bytes: u64,
    pub version: u32,
    /// Relative path under the data dir where the pack extracts to.
    pub install_path: String,
    /// Pack ids this pack replaces (media supersedes posters, say).
    pub supersedes: Vec<String>,
    /// Oldest installed version still usable with this build: an installed
    /// pack below it is removed, anything at or above it is kept and merely
    /// offered as an update.
    pub min_compatible_version: u32,
    /// The file inside the collection's torrent to install from, when the
    /// pack comes from the torrent rather than over HTTP (a `.zip`).
    pub torrent_file_path: Option<String>,
}

impl ContentPackInfo {
    /// Is an installed copy of this pack, of version `installed`, still
    /// usable? Below `min_compatible_version` it is removed; at or above it
    /// it stays (and a newer `version` is only offered as an update).
    pub fn keeps_installed(&self, installed: u32) -> (r: bool)
        ensures
            r == (installed >= self.min_compatible_version),
    {
        installed >= self.min_compatible_version
    }
}

/// One collection of the manifest.
pub struct CollectionManifest {
    pub torrent_infohash: String,
    pub game_count: u32,
    /// Available content packs keyed by pack id.
    pub content_packs: HashMap<String, ContentPackInfo>,
}

/// The manifest: collections keyed by name.
pub struct Manifest {
    pub schema_version: u32,
    pub generated_at: String,
    pub collections: HashMap<String, CollectionManifest>,
}

} // verus!
