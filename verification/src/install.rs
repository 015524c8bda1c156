//! Where an installed pack lives inside the game folder.

use vstd::prelude::*;
use crate::path::PackPath;

verus! {

/// The name of the game's own folder.
pub const GAME_DIR: &'static str = ".minecraft";

/// The folder inside the game folder that holds one folder per pack.
pub const VERSIONS_DIR: &'static str = "version";

/// The game folder that `home` stands for: `home` itself where it already
/// is the game folder, else the game folder inside it.
pub open spec fn game_dir(home: Seq<Seq<char>>) -> Seq<Seq<char>> {
    if home.len() > 0 && home.last() == GAME_DIR@ {
        home
    } else {
        home.push(GAME_DIR@)
    }
}

/// The folder a pack named `pack_name` is installed into.
pub fn install_target(minecraft_home: &PackPath, pack_name: &str) -> (r: PackPath)
    ensures
        r@ == game_dir(minecraft_home@).push(VERSIONS_DIR@).push(pack_name@),
{
    let game_name = String::from_str(GAME_DIR);
    let in_game_dir = match minecraft_home.file_name() {
        Some(last) => last == game_name,
        None => false,
    };
    let game = if in_game_dir {
        minecraft_home.clone()
    } else {
        minecraft_home.child(GAME_DIR)
    };
    game.child(VERSIONS_DIR).child(pack_name)
}

} // verus!
