//! The bodies of the administration routes.
use vstd::prelude::*;

use crate::auth::{AuthFields, ExtractAuthFields};

verus! {

/// The admin making a request and the player it is about.
pub struct AdminRequest {
    pub admin_login: String,
    pub player_login: String,
}

/// An admin's request to delete the note on a player.
pub struct DelNoteBody {
    pub secret: String,
    pub req: AdminRequest,
}

impl ExtractAuthFields for DelNoteBody {
    open spec fn spec_auth_fields(&self) -> (Seq<char>, Seq<char>) {
        (self.secret@, self.req.admin_login@)
    }

    fn get_auth_fields(&self) -> (r: AuthFields<'_>) {
        AuthFields { token: self.secret.as_str(), login: self.req.admin_login.as_str() }
    }
}

/// An admin's request to set a player's role.
pub struct SetRoleBody {
    pub secret: String,
    pub req: AdminRequest,
    pub role: u8,
}

impl ExtractAuthFields for SetRoleBody {
    open spec fn spec_auth_fields(&self) -> (Seq<char>, Seq<char>) {
        (self.secret@, self.req.admin_login@)
    }

    fn get_auth_fields(&self) -> (r: AuthFields<'_>) {
        AuthFields { token: self.secret.as_str(), login: self.req.admin_login.as_str() }
    }
}

/// A moderator's request for a player's banishments.
pub struct BanishmentsBody {
    pub secret: String,
    pub req: AdminRequest,
}

impl ExtractAuthFields for BanishmentsBody {
    open spec fn spec_auth_fields(&self) -> (Seq<char>, Seq<char>) {
        (self.secret@, self.req.admin_login@)
    }

    fn get_auth_fields(&self) -> (r: AuthFields<'_>) {
        AuthFields { token: self.secret.as_str(), login: self.req.admin_login.as_str() }
    }
}

/// An admin's request to ban a player, for a duration in seconds (none: for ever).
pub struct BanBody {
    pub secret: String,
    pub req: AdminRequest,
    pub duration: Option<u32>,
    pub reason: Option<String>,
}

impl ExtractAuthFields for BanBody {
    open spec fn spec_auth_fields(&self) -> (Seq<char>, Seq<char>) {
        (self.secret@, self.req.admin_login@)
    }

    fn get_auth_fields(&self) -> (r: AuthFields<'_>) {
        AuthFields { token: self.secret.as_str(), login: self.req.admin_login.as_str() }
    }
}

/// An admin's request to lift a player's current ban.
pub struct UnbanBody {
    pub secret: String,
    pub req: AdminRequest,
}

impl ExtractAuthFields for UnbanBody {
    open spec fn spec_auth_fields(&self) -> (Seq<char>, Seq<char>) {
        (self.secret@, self.req.admin_login@)
    }

    fn get_auth_fields(&self) -> (r: AuthFields<'_>) {
        AuthFields { token: self.secret.as_str(), login: self.req.admin_login.as_str() }
    }
}

/// An admin's request for the note on a player.
pub struct PlayerNoteBody {
    pub secret: String,
    pub req: AdminRequest,
}

impl ExtractAuthFields for PlayerNoteBody {
    open spec fn spec_auth_fields(&self) -> (Seq<char>, Seq<char>) {
        (self.secret@, self.req.admin_login@)
    }

    fn get_auth_fields(&self) -> (r: AuthFields<'_>) {
        AuthFields { token: self.secret.as_str(), login: self.req.admin_login.as_str() }
    }
}

} // verus!
