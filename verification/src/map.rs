//! The maps sent by the game mode to be registered.
use vstd::prelude::*;

use crate::player::UpdatePlayerBody;

verus! {

/// The author of a map, as the game mode knows them.
pub struct MapAuthor {
    pub login: String,
    pub nickname: String,
    pub zone_path: String,
}

/// A map to register: its name, its UID and its author.
pub struct UpdateMapBody {
    pub name: String,
    pub map_uid: String,
    pub author: MapAuthor,
}

impl UpdateMapBody {
    /// The author's name and zone, with which the author is registered along with the map.
    pub fn author_update(&self) -> (b: UpdatePlayerBody)
        ensures
            b.nickname@ == self.author.nickname@,
            b.country@ == self.author.zone_path@,
    {
        UpdatePlayerBody {
            nickname: self.author.nickname.clone(),
            country: self.author.zone_path.clone(),
        }
    }
}

} // verus!
