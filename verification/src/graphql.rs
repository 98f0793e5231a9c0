//! Decisions of the GraphQL API that do not touch the databases.
use vstd::prelude::*;

use crate::numbers::{
    lemma_decimal_digits, parse_i32_text, parse_unsigned_text, spec_parse_i32_text,
    spec_parse_unsigned_text,
};
use crate::text::{
    decimal, lemma_split_plain, lemma_split_prefix, push_char, push_decimal, push_str,
    split_char, split_text, text_eq,
};

verus! {

/// The order in which records are sorted by date.
#[derive(Clone, Copy, PartialEq, Eq, Structural)]
pub enum SortState {
    Sort,
    Reverse,
}

impl SortState {
    /// The SQL order: ascending for `Reverse`, descending otherwise.
    pub fn sql_order_by(this: &Option<Self>) -> (r: &'static str)
        ensures
            r@ == (if this == &Some(SortState::Reverse) {
                "ASC"@
            } else {
                "DESC"@
            }),
    {
        match this {
            Some(SortState::Reverse) => "ASC",
            _ => "DESC",
        }
    }
}

/// The kinds of nodes that have a global identifier.
#[derive(Clone, Copy, PartialEq, Eq, Structural)]
pub enum NodeKind {
    MapNode,
    PlayerNode,
}

/// The name of a node kind in identifiers.
pub open spec fn kind_name(kind: NodeKind) -> Seq<char> {
    match kind {
        NodeKind::MapNode => "Map"@,
        NodeKind::PlayerNode => "Player"@,
    }
}

/// What a global identifier designates: `v0:Map:<id>` or `v0:Player:<id>`, with `<id>` a
/// `u32` as `str::parse` reads it.
pub open spec fn spec_node_id(id: Seq<char>) -> Option<(NodeKind, u32)> {
    let parts = split_text(id, ':');
    if parts.len() != 3 || parts[0] != "v0"@ || (parts[1] != "Map"@ && parts[1] != "Player"@) {
        None
    } else {
        match spec_parse_unsigned_text(parts[2], u32::MAX as nat) {
            Some(n) => Some((if parts[1] == "Map"@ { NodeKind::MapNode } else { NodeKind::PlayerNode }, n as u32)),
            None => None,
        }
    }
}

/// The cursor of a node, `v0:<kind>:<id>`.
pub open spec fn spec_node_cursor(kind: NodeKind, id: u32) -> Seq<char> {
    "v0:"@ + kind_name(kind) + seq![':'] + decimal(id as nat)
}

/// The root of GraphQL queries.
pub struct QueryRoot;

impl QueryRoot {
    /// Reads a global identifier: which kind of node, and which one.
    pub fn node_id(id: &str) -> (res: Option<(NodeKind, u32)>)
        ensures
            res == spec_node_id(id@),
    {
        let parts = split_char(id, ':');
        proof {
            assert(parts@.len() == split_text(id@, ':').len());
            assert(forall|i: int| 0 <= i < parts@.len() ==> #[trigger] parts@[i]@ == split_text(id@, ':')[i]);
        }
        if parts.len() != 3 || !text_eq(parts[0], "v0") || (!text_eq(parts[1], "Map") && !text_eq(parts[1], "Player")) {
            return None;
        }
        let is_map = text_eq(parts[1], "Map");
        match parse_unsigned_text(parts[2], 4294967295) {
            Some(n) => Some((if is_map { NodeKind::MapNode } else { NodeKind::PlayerNode }, n as u32)),
            None => None,
        }
    }

    /// The global identifier of a node.
    pub fn node_cursor(kind: NodeKind, id: u32) -> (cursor: String)
        ensures
            cursor@ == spec_node_cursor(kind, id),
    {
        let mut cursor = String::new();
        push_str(&mut cursor, "v0:");
        match kind {
            NodeKind::MapNode => push_str(&mut cursor, "Map"),
            NodeKind::PlayerNode => push_str(&mut cursor, "Player"),
        }
        push_char(&mut cursor, ':');
        push_decimal(&mut cursor, id as u64);
        cursor
    }
}

/// A mappack, by its identifier.
pub struct Mappack {
    pub event_has_expired: bool,
    pub mappack_id: String,
}

impl From<String> for Mappack {
    fn from(mappack_id: String) -> (m: Self)
        ensures
            m.mappack_id@ == mappack_id@,
            !m.event_has_expired,
    {
        Mappack { mappack_id, event_has_expired: false }
    }
}

impl vstd::std_specs::convert::FromSpecImpl<String> for Mappack {
    open spec fn obeys_from_spec() -> bool {
        true
    }

    open spec fn from_spec(v: String) -> Self {
        Mappack { mappack_id: v, event_has_expired: false }
    }
}

/// The delay between two updates of a mappack's scores, in seconds.
pub const UPDATE_PERIOD_SECS: u64 = 86400;

impl Mappack {
    /// Seconds until the next update of the scores, given the time of the last update and
    /// the current time (both in seconds since the Unix epoch, if known). None for a mappack
    /// of an expired event, when a time is unknown, or when the update is already due.
    pub fn next_update_in(&self, last_update: Option<u64>, now: Option<u64>) -> (r: Option<u64>)
        requires
            last_update matches Some(t) ==> t + UPDATE_PERIOD_SECS <= u64::MAX,
        ensures
            r == (if self.event_has_expired {
                None
            } else {
                match (last_update, now) {
                    (Some(last), Some(now)) => if now <= last + UPDATE_PERIOD_SECS {
                        Some((last + UPDATE_PERIOD_SECS - now) as u64)
                    } else {
                        None
                    },
                    _ => None,
                }
            }),
    {
        if self.event_has_expired {
            return None;
        }
        match last_update {
            Some(last) => {
                let next = last + UPDATE_PERIOD_SECS;
                match now {
                    Some(now) => next.checked_sub(now),
                    None => None,
                }
            },
            None => None,
        }
    }
}

/// A mappack identifier that is not a number, with that identifier.
pub struct InvalidMappackId(pub String);

/// The MX mappack to load into the cache first: none when the mappack already has maps,
/// else the identifier read as a `u32`.
pub fn mappack_to_fill(mappack_id: &str, has_maps: bool) -> (r: Result<Option<u32>, InvalidMappackId>)
    ensures
        has_maps ==> r matches Ok(None),
        !has_maps ==> match spec_parse_unsigned_text(mappack_id@, u32::MAX as nat) {
            Some(n) => r matches Ok(Some(id)) && id == n,
            None => r matches Err(InvalidMappackId(id)) && id@ == mappack_id@,
        },
{
    if has_maps {
        return Ok(None);
    }
    match parse_unsigned_text(mappack_id, 4294967295) {
        Some(n) => Ok(Some(n as u32)),
        None => Err(InvalidMappackId(crate::text::to_text(mappack_id))),
    }
}

/// A cursor is read back as the node it was made for.
pub proof fn law_node_cursor_roundtrip(kind: NodeKind, id: u32)
    ensures
        spec_node_id(spec_node_cursor(kind, id)) == Some((kind, id)),
{
    reveal_strlit("v0:");
    reveal_strlit("v0");
    reveal_strlit("Map");
    reveal_strlit("Player");
    let v0: Seq<char> = "v0"@;
    let name = kind_name(kind);
    let digits = decimal(id as nat);
    lemma_decimal_digits(id as nat);
    assert forall|j: int| 0 <= j < digits.len() implies #[trigger] digits[j] != ':' by {
        assert(crate::numbers::is_digit_char(digits[j]));
    }
    assert forall|j: int| 0 <= j < name.len() implies #[trigger] name[j] != ':' by {}
    assert forall|j: int| 0 <= j < v0.len() implies #[trigger] v0[j] != ':' by {}
    lemma_split_plain(digits, ':');
    lemma_split_prefix(name, digits, ':');
    lemma_split_prefix(v0, name + seq![':'] + digits, ':');
    assert(spec_node_cursor(kind, id) =~= v0 + seq![':'] + (name + seq![':'] + digits));
    let parts = split_text(spec_node_cursor(kind, id), ':');
    assert(parts =~= seq![v0, name, digits]);
    assert(digits.len() > 0 && digits[0] != '+');
}

/// A role as the database stores it: its identifier and its name.
pub struct RoleRow {
    pub id: u8,
    pub role_name: String,
}

/// The role of a player, as the GraphQL API shows it.
#[derive(Clone, Copy, PartialEq, Eq, Structural)]
pub enum PlayerRole {
    Player,
    Moderator,
    Admin,
}

/// A role whose identifier names no role of the API, with that identifier and its name.
pub struct UnknownRole(pub u8, pub String);

/// The role that an identifier stands for: 0, 1 and 2 in increasing order of privilege.
pub open spec fn role_of_id(id: u8) -> Option<PlayerRole> {
    if id == 0 {
        Some(PlayerRole::Player)
    } else if id == 1 {
        Some(PlayerRole::Moderator)
    } else if id == 2 {
        Some(PlayerRole::Admin)
    } else {
        None
    }
}

impl TryFrom<RoleRow> for PlayerRole {
    type Error = UnknownRole;

    fn try_from(role: RoleRow) -> (r: Result<PlayerRole, UnknownRole>)
        ensures
            match role_of_id(role.id) {
                Some(p) => r == Ok::<PlayerRole, UnknownRole>(p),
                None => r matches Err(UnknownRole(id, name)) && id == role.id && name@
                    == role.role_name@,
            },
    {
        if role.id == 0 {
            Ok(PlayerRole::Player)
        } else if role.id == 1 {
            Ok(PlayerRole::Moderator)
        } else if role.id == 2 {
            Ok(PlayerRole::Admin)
        } else {
            Err(UnknownRole(role.id, role.role_name))
        }
    }
}

impl vstd::std_specs::convert::TryFromSpecImpl<RoleRow> for PlayerRole {
    open spec fn obeys_try_from_spec() -> bool {
        true
    }

    open spec fn try_from_spec(v: RoleRow) -> Result<Self, Self::Error> {
        match role_of_id(v.id) {
            Some(p) => Ok(p),
            None => Err(UnknownRole(v.id, v.role_name)),
        }
    }
}

/// The role needed to read a player's medals on a map: the player may read their own,
/// an admin anyone's.
pub fn medal_for_role(login: &str, req_login: &str) -> (r: crate::auth::Role)
    ensures
        r == (if login@ == req_login@ {
            crate::auth::Role::Player
        } else {
            crate::auth::Role::Admin
        }),
{
    if text_eq(login, req_login) {
        crate::auth::Role::Player
    } else {
        crate::auth::Role::Admin
    }
}

/// The ranks of a player on the maps of a mappack, read from a list that alternates a
/// map's UID and the player's rank on it: a last UID without a rank is left out, and a rank
/// that does not read as an `i32` fails the whole list.
pub open spec fn spec_map_ranks(flat: Seq<Seq<char>>) -> Option<Seq<(Seq<char>, int)>>
    decreases flat.len(),
{
    if flat.len() < 2 {
        Some(seq![])
    } else {
        match spec_parse_i32_text(flat[1]) {
            Some(rank) => match spec_map_ranks(flat.skip(2)) {
                Some(rest) => Some(seq![(flat[0], rank)] + rest),
                None => None,
            },
            None => None,
        }
    }
}

/// The list of the ranks read so far, then those read from what is left.
pub open spec fn ranks_then(done: Seq<(Seq<char>, int)>, rest: Option<Seq<(Seq<char>, int)>>) -> Option<Seq<(Seq<char>, int)>> {
    match rest {
        Some(r) => Some(done + r),
        None => None,
    }
}

/// Pairs each map's UID with the player's rank on it.
pub fn mappack_map_ranks(flat: &Vec<String>) -> (r: Option<Vec<(String, i32)>>)
    ensures
        match spec_map_ranks(flat@.map_values(|s: String| s@)) {
            Some(v) => r matches Some(out) && out@.map_values(|p: (String, i32)| (p.0@, p.1 as int))
                == v,
            None => r is None,
        },
{
    let ghost fv = flat@.map_values(|s: String| s@);
    let mut out: Vec<(String, i32)> = Vec::new();
    let mut i: usize = 0;
    assert(fv.skip(0) =~= fv);
    assert(ranks_then(Seq::empty(), spec_map_ranks(fv)) == spec_map_ranks(fv)) by {
        if let Some(v) = spec_map_ranks(fv) {
            assert(Seq::<(Seq<char>, int)>::empty() + v =~= v);
        }
    }
    while flat.len() - i >= 2
        invariant
            fv == flat@.map_values(|s: String| s@),
            i <= flat@.len(),
            ranks_then(out@.map_values(|p: (String, i32)| (p.0@, p.1 as int)), spec_map_ranks(fv.skip(i as int)))
                == spec_map_ranks(fv),
        decreases flat@.len() - i,
    {
        let ghost done = out@.map_values(|p: (String, i32)| (p.0@, p.1 as int));
        let ghost rest = fv.skip(i as int);
        assert(rest[0] == fv[i as int] && rest[1] == fv[i + 1]);
        assert(rest.skip(2) =~= fv.skip(i + 2));
        match parse_i32_text(flat[i + 1].as_str()) {
            Some(rank) => {
                let uid = flat[i].clone();
                out.push((uid, rank));
                proof {
                    let next = out@.map_values(|p: (String, i32)| (p.0@, p.1 as int));
                    assert(next =~= done + seq![(fv[i as int], rank as int)]);
                    if let Some(tail) = spec_map_ranks(fv.skip(i + 2)) {
                        assert(done + (seq![(fv[i as int], rank as int)] + tail) =~= next + tail);
                    }
                }
                i = i + 2;
            },
            None => {
                return None;
            },
        }
    }
    proof {
        let done = out@.map_values(|p: (String, i32)| (p.0@, p.1 as int));
        assert(done + Seq::<(Seq<char>, int)>::empty() =~= done);
    }
    Some(out)
}

} // verus!
