//! Installer metadata as one modpack provider publishes it.

use vstd::prelude::*;

verus! {

/// Digests of one downloadable file.
#[derive(Debug)]
pub struct ModpackFileHashes {
    pub sha1: String,
    pub sha512: String,
}

/// Whether a file is needed on the server and on the client.
#[derive(Debug)]
pub struct ModpackEnv {
    pub server: String,
    pub client: String,
}

/// One downloadable file of a modpack.
#[derive(Debug)]
pub struct ModrinthModpackFiles {
    pub path: String,
    pub hashes: ModpackFileHashes,
    pub env: ModpackEnv,
    pub downloads: Vec<String>,
    pub file_size: usize,
}

/// The provider's description of a whole modpack.
#[derive(Debug)]
pub struct ModrinthModpack {
    pub game: String,
    pub version_id: String,
    pub name: String,
    pub summary: Option<String>,
    pub files: Vec<ModrinthModpackFiles>,
}

impl ModrinthModpack {
    /// The folder inside the pack whose contents are laid over the game
    /// directory.
    pub fn overrides_dir(&self) -> (r: &'static str)
        ensures
            r@ == "overrides"@,
    {
        "overrides"
    }

    /// The pack's display name.
    pub fn modpack_name(&self) -> (r: String)
        ensures
            r@ == self.name@,
    {
        self.name.clone()
    }
}

} // verus!
