//! Map ratings: which requests are accepted.
use vstd::prelude::*;

use vstd::std_specs::cmp::PartialEqSpec;

use crate::auth::Role;
use crate::utils::{any_repeated, has_repeat};

verus! {

/// A request for a player's ratings of a map.
pub struct PlayerRatingBody {
    pub map_uid: String,
}

/// A request for all the ratings of a map.
pub struct RatingsBody {
    pub map_id: String,
}

/// A request for the average ratings of a map.
pub struct RatingBody {
    pub map_uid: String,
}

/// An admin's request to delete the ratings of a map.
pub struct ResetRatingsBody {
    pub map_id: String,
}

/// A set of rates is valid when it has no more rates than there are kinds of rating and no
/// kind is rated twice (two rates are the same when their kinds are).
pub open spec fn spec_rates_valid(kinds: Seq<u8>, kind_count: i64) -> bool {
    kinds.len() <= kind_count && !has_repeat(kinds)
}

/// Whether the rates, given by their kinds, can be saved.
pub fn rates_valid(kinds: &[u8], kind_count: i64) -> (r: bool)
    requires
        0 <= kind_count <= usize::MAX,
    ensures
        r == spec_rates_valid(kinds@, kind_count),
{
    !(kinds.len() > kind_count as usize || any_repeated(kinds))
}

/// The role needed to read all the ratings of a map: its author may, any other player must
/// be an admin.
pub fn ratings_role(map_author_id: u32, player_id: u32) -> (r: Role)
    ensures
        r == (if map_author_id == player_id {
            Role::Player
        } else {
            Role::Admin
        }),
{
    if map_author_id == player_id {
        Role::Player
    } else {
        Role::Admin
    }
}

/// What a rating request leads to, once its rates are read.
pub enum RatePlan {
    /// Refused: more rates than kinds of rating, or a kind rated twice.
    InvalidRates,
    /// No rate is given: the player's rating of the map is read back as it stands.
    ReadExisting,
    /// The rates are written, each over the player's former rate of its kind if any.
    Write,
}

/// Decides what a rating request does, given the kinds of its rates and the number of
/// kinds of rating.
pub fn rate_plan(kinds: &[u8], kind_count: i64) -> (p: RatePlan)
    requires
        0 <= kind_count <= usize::MAX,
    ensures
        !spec_rates_valid(kinds@, kind_count) ==> p is InvalidRates,
        spec_rates_valid(kinds@, kind_count) && kinds@.len() == 0 ==> p is ReadExisting,
        spec_rates_valid(kinds@, kind_count) && kinds@.len() > 0 ==> p is Write,
{
    if !rates_valid(kinds, kind_count) {
        RatePlan::InvalidRates
    } else if kinds.len() == 0 {
        RatePlan::ReadExisting
    } else {
        RatePlan::Write
    }
}

/// Why a rating request fails on its own terms.
pub enum RateError {
    /// More rates than kinds of rating, or a kind rated twice.
    InvalidRates,
    /// No rate was given and the player never rated the map: the player's login and the map.
    NoRatingFound(String, String),
}

/// The answer to a request without rates, given the date of the player's rating of the map
/// if the player rated it: that date, or an error that names the player and the map.
pub fn existing_rating<D>(rating_date: Option<D>, login: String, map_id: String) -> (r: Result<D, RateError>)
    ensures
        match rating_date {
            Some(d) => r matches Ok(e) && e == d,
            None => r matches Err(RateError::NoRatingFound(l, m)) && l@ == login@ && m@ == map_id@,
        },
{
    match rating_date {
        Some(d) => Ok(d),
        None => Err(RateError::NoRatingFound(login, map_id)),
    }
}

/// How a row of the player's rating is written: over the existing row, or as a new one.
pub enum RowWrite {
    Update,
    Insert,
}

/// The row is updated when rows for it were counted, inserted otherwise; this holds for the
/// player's rating of the map and for each of its rates.
pub fn row_write(existing_count: i64) -> (w: RowWrite)
    ensures
        w is Update <==> existing_count != 0,
{
    if existing_count != 0 {
        RowWrite::Update
    } else {
        RowWrite::Insert
    }
}

/// A set of rates is accepted exactly when it has no more rates than there are kinds of
/// rating and no two of its rates, wherever they stand, are of the same kind.
pub proof fn law_rates_valid_distinct_kinds(kinds: Seq<u8>, kind_count: i64)
    ensures
        spec_rates_valid(kinds, kind_count) <==> (kinds.len() <= kind_count && forall|i: int, j: int|
            0 <= i < j < kinds.len() ==> kinds[i] != kinds[j]),
{
    if spec_rates_valid(kinds, kind_count) {
        assert forall|i: int, j: int| 0 <= i < j < kinds.len() implies kinds[i] != kinds[j] by {
            if kinds[i] == kinds[j] {
                assert(kinds[j].eq_spec(&kinds[i]));
            }
        }
    }
}

} // verus!
