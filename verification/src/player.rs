//! The bodies of the player routes, and how a finish is saved.
use vstd::prelude::*;

use crate::auth::{AuthFields, ExtractAuthFields};

verus! {

/// A player as ManiaPlanet's web services describe them: login, name and zone.
pub struct PlayerInfoNetBody {
    pub login: String,
    pub name: String,
    pub zone_path: Option<String>,
}

/// A player's new name and country.
pub struct UpdatePlayerBody {
    pub nickname: String,
    pub country: String,
}

/// The time at one checkpoint of a run.
#[derive(Clone, Copy)]
pub struct CheckpointTime {
    pub cp_num: u32,
    pub time: i32,
}

/// A finished run, sent by the game mode.
pub struct HasFinishedBody {
    pub secret: String,
    pub state: String,
    pub time: i32,
    pub respawn_count: i32,
    pub player_login: String,
    pub map_game_id: String,
    pub flags: Option<u32>,
    pub cps: Vec<CheckpointTime>,
}

impl ExtractAuthFields for HasFinishedBody {
    open spec fn spec_auth_fields(&self) -> (Seq<char>, Seq<char>) {
        (self.secret@, self.player_login@)
    }

    fn get_auth_fields(&self) -> (r: AuthFields<'_>) {
        AuthFields { token: self.secret.as_str(), login: self.player_login.as_str() }
    }
}

/// The answer to a finish: whether the run beat the player's last time, and both times.
pub struct HasFinishedResponse {
    pub has_improved: bool,
    pub login: String,
    pub old: i32,
    pub new: i32,
}

/// What is done with a finish, given the time of the player's last record on the map.
pub struct FinishPlan {
    pub old: i32,
    pub new: i32,
    pub has_improved: bool,
    /// The run is saved as a record.
    pub insert_record: bool,
    /// The map's cached leaderboard is updated with the new time.
    pub update_leaderboard: bool,
}

/// A run is saved when it is the player's first on the map or beats the last one; the
/// leaderboard is updated only in the second case.
pub fn plan_finish(last_time: Option<i32>, time: i32) -> (p: FinishPlan)
    ensures
        match last_time {
            Some(old) => p.old == old && p.new == time && p.has_improved == (time < old)
                && p.insert_record == (time < old) && p.update_leaderboard == (time < old),
            None => p.old == time && p.new == time && p.has_improved && p.insert_record
                && !p.update_leaderboard,
        },
{
    match last_time {
        Some(old) => {
            let improved = time < old;
            FinishPlan {
                old,
                new: time,
                has_improved: improved,
                insert_record: improved,
                update_leaderboard: improved,
            }
        },
        None => FinishPlan {
            old: time,
            new: time,
            has_improved: true,
            insert_record: true,
            update_leaderboard: false,
        },
    }
}

impl HasFinishedBody {
    /// The answer to this finish, once it was planned.
    pub fn response(self, plan: &FinishPlan) -> (r: HasFinishedResponse)
        ensures
            r.has_improved == plan.has_improved,
            r.login@ == self.player_login@,
            r.old == plan.old,
            r.new == plan.new,
    {
        HasFinishedResponse {
            has_improved: plan.has_improved,
            login: self.player_login,
            old: plan.old,
            new: plan.new,
        }
    }
}

/// A request for a player's token: the login and the OAuth state.
pub struct GetTokenBody {
    pub login: String,
    pub state: String,
}

/// The browser's answer in the OAuth exchange: the access token and the state.
pub struct GiveTokenBody {
    pub access_token: String,
    pub state: String,
}

/// A request to know whether a player is banned.
pub struct IsBannedBody {
    pub secret: String,
    pub login: String,
}

impl ExtractAuthFields for IsBannedBody {
    open spec fn spec_auth_fields(&self) -> (Seq<char>, Seq<char>) {
        (self.secret@, self.login@)
    }

    fn get_auth_fields(&self) -> (r: AuthFields<'_>) {
        AuthFields { token: self.secret.as_str(), login: self.login.as_str() }
    }
}

/// A request for a player's information.
pub struct InfoBody {
    pub secret: String,
    pub login: String,
}

impl ExtractAuthFields for InfoBody {
    open spec fn spec_auth_fields(&self) -> (Seq<char>, Seq<char>) {
        (self.secret@, self.login@)
    }

    fn get_auth_fields(&self) -> (r: AuthFields<'_>) {
        AuthFields { token: self.secret.as_str(), login: self.login.as_str() }
    }
}

} // verus!
