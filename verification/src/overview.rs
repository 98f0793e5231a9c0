//! Which rows of a map's leaderboard the in-game overview shows.
//!
//! The overview has room for fifteen rows. A player ranked in the top fifteen sees them; a
//! player ranked lower sees the top three and twelve rows centred on their own rank; a player
//! without a record sees fourteen rows, the last line being kept for them.
use vstd::prelude::*;

verus! {

/// The rows shown to a player who has a record.
pub const TOTAL_ROWS: i64 = 15;

/// The rows shown to a player without a record.
pub const NO_RECORD_ROWS: i64 = 14;

/// A request of the overview: the player and the map.
pub struct OverviewQuery {
    pub login: String,
    pub map_uid: String,
}

/// The ranges of leaderboard rows to show, each from its first row to just before its
/// second bound, given the player's rank (if the player has a record) and the number of
/// records on the map.
pub open spec fn spec_display_ranges(player_rank: Option<i64>, count: i64) -> Seq<(int, int)> {
    match player_rank {
        Some(rank) => if rank < TOTAL_ROWS {
            seq![(0int, TOTAL_ROWS as int)]
        } else {
            let half = (TOTAL_ROWS - 3) / 2;
            let start = rank - half;
            let end = rank + half;
            seq![
                (0int, 3int),
                if end >= count {
                    (start - (end - count), count as int)
                } else {
                    (start, end)
                },
            ]
        },
        None => if count > NO_RECORD_ROWS {
            seq![(0int, (NO_RECORD_ROWS - 3) as int), (count - 3, count as int)]
        } else {
            seq![(0int, NO_RECORD_ROWS as int)]
        },
    }
}

/// The leaderboard rows to show, as ranges from a first row to just before a last one.
pub fn display_ranges(player_rank: Option<i64>, count: i64) -> (ranges: Vec<(i64, i64)>)
    requires
        count >= 0,
        player_rank matches Some(rank) ==> rank <= i64::MAX - (TOTAL_ROWS - 3) / 2,
    ensures
        ranges@.map_values(|r: (i64, i64)| (r.0 as int, r.1 as int)) == spec_display_ranges(
            player_rank,
            count,
        ),
{
    let mut ranges: Vec<(i64, i64)> = Vec::new();
    match player_rank {
        Some(rank) => {
            if rank < TOTAL_ROWS {
                ranges.push((0, TOTAL_ROWS));
            } else {
                ranges.push((0, 3));
                let row_minus_top3 = TOTAL_ROWS - 3;
                let start = rank - row_minus_top3 / 2;
                let end = rank + row_minus_top3 / 2;
                let range = if end >= count {
                    (start - (end - count), count)
                } else {
                    (start, end)
                };
                ranges.push(range);
            }
        },
        None => {
            if count > NO_RECORD_ROWS {
                ranges.push((0, NO_RECORD_ROWS - 3));
                ranges.push((count - 3, count));
            } else {
                ranges.push((0, NO_RECORD_ROWS));
            }
        },
    }
    assert(ranges@.map_values(|r: (i64, i64)| (r.0 as int, r.1 as int)) =~= spec_display_ranges(
        player_rank,
        count,
    ));
    ranges
}

/// The number of rows that the ranges cover.
pub open spec fn rows_shown(ranges: Seq<(int, int)>) -> int
    decreases ranges.len(),
{
    if ranges.len() == 0 {
        0
    } else {
        rows_shown(ranges.drop_last()) + (ranges.last().1 - ranges.last().0)
    }
}

/// The overview fills its fifteen lines: fifteen rows for a player with a record, and
/// fourteen rows plus the player's own line for a player without one.
pub proof fn law_rows_shown(player_rank: Option<i64>, count: i64)
    ensures
        rows_shown(spec_display_ranges(player_rank, count)) == (if player_rank is Some {
            TOTAL_ROWS as int
        } else {
            NO_RECORD_ROWS as int
        }),
{
    let r = spec_display_ranges(player_rank, count);
    reveal_with_fuel(rows_shown, 3);
    if r.len() == 2 {
        assert(r.drop_last().drop_last() =~= Seq::<(int, int)>::empty());
        assert(r.drop_last() =~= seq![r[0]]);
        assert(rows_shown(r) == (r[0].1 - r[0].0) + (r[1].1 - r[1].0));
    } else {
        assert(r.drop_last() =~= Seq::<(int, int)>::empty());
        assert(rows_shown(r) == r[0].1 - r[0].0);
    }
}

/// A player with a record sees their own row, and the top of the leaderboard is always
/// shown, starting at the first row.
pub proof fn law_player_row_shown(rank: i64, count: i64)
    requires
        0 <= rank < count,
    ensures
        exists|i: int|
            0 <= i < spec_display_ranges(Some(rank), count).len() && {
                let range = #[trigger] spec_display_ranges(Some(rank), count)[i];
                range.0 <= rank < range.1
            },
        spec_display_ranges(Some(rank), count)[0].0 == 0,
{
    let r = spec_display_ranges(Some(rank), count);
    if rank < TOTAL_ROWS {
        assert(r[0].0 <= rank < r[0].1);
    } else {
        assert(r[1].0 <= rank < r[1].1);
    }
}

/// A player without a record, on a map with more records than rows, sees the last three
/// records after the top eleven.
pub proof fn law_last_records_shown(count: i64)
    requires
        count > NO_RECORD_ROWS,
    ensures
        spec_display_ranges(None, count) == seq![(0int, 11int), (count - 3, count as int)],
{
}

/// When two ranges are shown, the second starts after the first and ends within the
/// leaderboard: no row is shown twice, and the rows around the player exist.
pub proof fn law_ranges_do_not_overlap(player_rank: Option<i64>, count: i64)
    requires
        count >= 0,
        player_rank matches Some(rank) ==> 0 <= rank < count,
    ensures
        spec_display_ranges(player_rank, count).len() == 2 ==> {
            let r = spec_display_ranges(player_rank, count);
            r[0].1 <= r[1].0 && r[1].0 <= r[1].1 && r[1].1 <= count
        },
{
}

} // verus!
