//! SQL texts that depend on a request.
use vstd::prelude::*;

use crate::graphql::SortState;
use crate::text::{push_str, to_text};

verus! {

/// `n` placeholders separated by commas: `?,?,...,?`.
pub open spec fn placeholders(n: nat) -> Seq<char>
    decreases n,
{
    if n == 0 {
        seq![]
    } else if n == 1 {
        "?"@
    } else {
        placeholders((n - 1) as nat) + ","@ + "?"@
    }
}

/// Writes `n` placeholders separated by commas.
pub fn placeholder_list(n: usize) -> (s: String)
    ensures
        s@ == placeholders(n as nat),
{
    let mut s = String::new();
    let mut i: usize = 0;
    while i < n
        invariant
            i <= n,
            s@ == placeholders(i as nat),
        decreases n - i,
    {
        if i > 0 {
            push_str(&mut s, ",");
        }
        push_str(&mut s, "?");
        i = i + 1;
    }
    s
}

/// The query of a player's best times on a list of maps, given how many maps.
pub open spec fn spec_times_query(map_count: nat) -> Seq<char> {
    "SELECT m.game_id AS map_uid, MIN(r.time) AS time
        FROM maps m
        INNER JOIN records r ON r.map_id = m.id
        WHERE r.record_player_id = ? AND m.game_id IN ("@ + placeholders(map_count)
        + ")
        GROUP BY m.id"@
}

/// Writes the query of a player's best times on `map_count` maps.
pub fn times_query(map_count: usize) -> (s: String)
    ensures
        s@ == spec_times_query(map_count as nat),
{
    let mut s = to_text(
        "SELECT m.game_id AS map_uid, MIN(r.time) AS time
        FROM maps m
        INNER JOIN records r ON r.map_id = m.id
        WHERE r.record_player_id = ? AND m.game_id IN (",
    );
    let list = placeholder_list(map_count);
    push_str(&mut s, list.as_str());
    push_str(
        &mut s,
        ")
        GROUP BY m.id",
    );
    s
}

/// The query of a map's records, and whether the identifiers of the ranked records are
/// bound after the map's identifier.
pub struct RecordsQuery {
    pub sql: String,
    pub bind_record_ids: bool,
}

/// The SQL order of a date sort: ascending for `Reverse`, descending otherwise.
pub open spec fn date_order(s: SortState) -> Seq<char> {
    if s == SortState::Reverse {
        "ASC"@
    } else {
        "DESC"@
    }
}

/// The filter on players and the order of a map's records. Sorted by date, all records are
/// read in that order; otherwise only the ranked players' records are read, by time
/// (slowest first when the ranks are reversed) and then by date.
pub open spec fn records_clauses(record_count: nat, rank_sort_by: Option<SortState>, date_sort_by: Option<SortState>) -> (Seq<char>, Seq<char>) {
    match date_sort_by {
        Some(s) => (Seq::<char>::empty(), "r.record_date "@ + date_order(s)),
        None => (
            "AND r.record_player_id IN ("@ + placeholders(record_count) + ")"@,
            "r.time "@ + (if rank_sort_by == Some(SortState::Reverse) {
                "DESC"@
            } else {
                "ASC"@
            }) + ", r.record_date ASC"@,
        ),
    }
}

/// The whole query of a map's records, read from `view_name` with the event filter
/// `and_event`; it is limited to a hundred rows when a sort is asked for.
pub open spec fn spec_records_query(
    record_count: nat,
    rank_sort_by: Option<SortState>,
    date_sort_by: Option<SortState>,
    view_name: Seq<char>,
    and_event: Seq<char>,
) -> Seq<char> {
    let (and_player_id_in, order_by) = records_clauses(record_count, rank_sort_by, date_sort_by);
    "SELECT * FROM "@ + view_name + " r
            WHERE map_id = ? "@ + and_player_id_in + "
            "@ + and_event + "
            ORDER BY "@ + order_by + "
            "@ + (if date_sort_by is Some || rank_sort_by is Some {
        "LIMIT 100"@
    } else {
        Seq::<char>::empty()
    })
}

/// Writes the query of the records of a map, for `record_count` ranked records.
pub fn records_query(
    record_count: usize,
    rank_sort_by: Option<SortState>,
    date_sort_by: Option<SortState>,
    view_name: &str,
    and_event: &str,
) -> (q: RecordsQuery)
    ensures
        q.sql@ == spec_records_query(record_count as nat, rank_sort_by, date_sort_by, view_name@, and_event@),
        q.bind_record_ids == (date_sort_by is None),
{
    let to_reverse = match rank_sort_by {
        Some(SortState::Reverse) => true,
        _ => false,
    };
    let mut and_player_id_in = String::new();
    let mut order_by = String::new();
    match date_sort_by {
        Some(s) => {
            push_str(&mut order_by, "r.record_date ");
            match s {
                SortState::Reverse => push_str(&mut order_by, "ASC"),
                SortState::Sort => push_str(&mut order_by, "DESC"),
            }
        },
        None => {
            push_str(&mut and_player_id_in, "AND r.record_player_id IN (");
            let list = placeholder_list(record_count);
            push_str(&mut and_player_id_in, list.as_str());
            push_str(&mut and_player_id_in, ")");
            push_str(&mut order_by, "r.time ");
            if to_reverse {
                push_str(&mut order_by, "DESC");
            } else {
                push_str(&mut order_by, "ASC");
            }
            push_str(&mut order_by, ", r.record_date ASC");
        },
    }
    let mut sql = to_text("SELECT * FROM ");
    push_str(&mut sql, view_name);
    push_str(&mut sql, " r
            WHERE map_id = ? ");
    push_str(&mut sql, and_player_id_in.as_str());
    push_str(&mut sql, "
            ");
    push_str(&mut sql, and_event);
    push_str(&mut sql, "
            ORDER BY ");
    push_str(&mut sql, order_by.as_str());
    push_str(&mut sql, "
            ");
    if date_sort_by.is_some() || rank_sort_by.is_some() {
        push_str(&mut sql, "LIMIT 100");
    }
    RecordsQuery { sql, bind_record_ids: date_sort_by.is_none() }
}

/// The number of times `c` occurs in `s`.
pub open spec fn occurrences(s: Seq<char>, c: char) -> nat
    decreases s.len(),
{
    if s.len() == 0 {
        0
    } else {
        occurrences(s.drop_last(), c) + (if s.last() == c {
            1nat
        } else {
            0nat
        })
    }
}

proof fn lemma_occurrences_concat(a: Seq<char>, b: Seq<char>, c: char)
    ensures
        occurrences(a + b, c) == occurrences(a, c) + occurrences(b, c),
    decreases b.len(),
{
    if b.len() > 0 {
        assert((a + b).drop_last() =~= a + b.drop_last());
        lemma_occurrences_concat(a, b.drop_last(), c);
    } else {
        assert(a + b =~= a);
    }
}

/// A list of `n` placeholders binds `n` values.
pub proof fn law_placeholders_bind_n(n: nat)
    ensures
        occurrences(placeholders(n), '?') == n,
    decreases n,
{
    reveal_strlit("?");
    reveal_strlit(",");
    if n == 1 {
        assert(occurrences("?"@.drop_last(), '?') == 0);
    } else if n > 1 {
        law_placeholders_bind_n((n - 1) as nat);
        lemma_occurrences_concat(placeholders((n - 1) as nat), ","@, '?');
        lemma_occurrences_concat(placeholders((n - 1) as nat) + ","@, "?"@, '?');
        assert(occurrences(","@.drop_last(), '?') == 0);
        assert(occurrences("?"@.drop_last(), '?') == 0);
    }
}

/// `q` ends with `s`.
pub open spec fn ends_with(q: Seq<char>, s: Seq<char>) -> bool {
    q.len() >= s.len() && q.skip(q.len() - s.len()) == s
}

/// `q` starts with `s`.
pub open spec fn starts_with(q: Seq<char>, s: Seq<char>) -> bool {
    q.len() >= s.len() && q.take(s.len() as int) == s
}

/// A player's times on a list of maps are their best times: the query selects, per map, the
/// lowest of the player's record times, and groups the rows by map.
pub proof fn law_times_query_selects_best(map_count: nat)
    ensures
        starts_with(spec_times_query(map_count), "SELECT m.game_id AS map_uid, MIN(r.time) AS time"@),
        ends_with(spec_times_query(map_count), "GROUP BY m.id"@),
{
    reveal_strlit("SELECT m.game_id AS map_uid, MIN(r.time) AS time");
    reveal_strlit("GROUP BY m.id");
    reveal_strlit("SELECT m.game_id AS map_uid, MIN(r.time) AS time
        FROM maps m
        INNER JOIN records r ON r.map_id = m.id
        WHERE r.record_player_id = ? AND m.game_id IN (");
    reveal_strlit(")
        GROUP BY m.id");
    let q = spec_times_query(map_count);
    let head = "SELECT m.game_id AS map_uid, MIN(r.time) AS time
        FROM maps m
        INNER JOIN records r ON r.map_id = m.id
        WHERE r.record_player_id = ? AND m.game_id IN ("@;
    let tail = ")
        GROUP BY m.id"@;
    assert(q == head + placeholders(map_count) + tail);
    assert(q.take(48) =~= "SELECT m.game_id AS map_uid, MIN(r.time) AS time"@);
    assert(q.skip(q.len() - 13) =~= "GROUP BY m.id"@);
}

/// The order of a map's records when no date sort is asked for: by time, fastest first,
/// unless the ranks are reversed, then by date; limited to a hundred rows when a rank sort
/// is asked for. Whatever the view and the event filter, the query ends with that order.
pub proof fn law_records_rank_order(
    record_count: nat,
    rank_sort_by: Option<SortState>,
    view_name: Seq<char>,
    and_event: Seq<char>,
)
    ensures
        ends_with(
            spec_records_query(record_count, rank_sort_by, None, view_name, and_event),
            match rank_sort_by {
                Some(SortState::Reverse) => "ORDER BY r.time DESC, r.record_date ASC
            LIMIT 100"@,
                Some(SortState::Sort) => "ORDER BY r.time ASC, r.record_date ASC
            LIMIT 100"@,
                None => "ORDER BY r.time ASC, r.record_date ASC
            "@,
            },
        ),
{
    reveal_strlit("ORDER BY r.time DESC, r.record_date ASC
            LIMIT 100");
    reveal_strlit("ORDER BY r.time ASC, r.record_date ASC
            LIMIT 100");
    reveal_strlit("ORDER BY r.time ASC, r.record_date ASC
            ");
    reveal_strlit("
            ORDER BY ");
    reveal_strlit("r.time ");
    reveal_strlit("DESC");
    reveal_strlit("ASC");
    reveal_strlit(", r.record_date ASC");
    reveal_strlit("
            ");
    reveal_strlit("LIMIT 100");
    let q = spec_records_query(record_count, rank_sort_by, None, view_name, and_event);
    let (filter, order) = records_clauses(record_count, rank_sort_by, None);
    let limit = if rank_sort_by is Some {
        "LIMIT 100"@
    } else {
        Seq::<char>::empty()
    };
    let before = "SELECT * FROM "@ + view_name + " r
            WHERE map_id = ? "@ + filter + "
            "@ + and_event;
    let after = "
            ORDER BY "@ + order + "
            "@ + limit;
    assert(q == before + after);
    let s = match rank_sort_by {
        Some(SortState::Reverse) => "ORDER BY r.time DESC, r.record_date ASC
            LIMIT 100"@,
        Some(SortState::Sort) => "ORDER BY r.time ASC, r.record_date ASC
            LIMIT 100"@,
        None => "ORDER BY r.time ASC, r.record_date ASC
            "@,
    };
    assert(after.skip(13) =~= s);
    assert(q.skip(q.len() - s.len()) =~= after.skip(13));
}

/// The order of a map's records when a date sort is asked for: by date, newest first unless
/// reversed, limited to a hundred rows, and the ranked players' identifiers are not bound.
pub proof fn law_records_date_order(
    record_count: nat,
    rank_sort_by: Option<SortState>,
    date_sort_by: SortState,
    view_name: Seq<char>,
    and_event: Seq<char>,
)
    ensures
        ends_with(
            spec_records_query(record_count, rank_sort_by, Some(date_sort_by), view_name, and_event),
            match date_sort_by {
                SortState::Reverse => "ORDER BY r.record_date ASC
            LIMIT 100"@,
                SortState::Sort => "ORDER BY r.record_date DESC
            LIMIT 100"@,
            },
        ),
{
    reveal_strlit("ORDER BY r.record_date ASC
            LIMIT 100");
    reveal_strlit("ORDER BY r.record_date DESC
            LIMIT 100");
    reveal_strlit("
            ORDER BY ");
    reveal_strlit("r.record_date ");
    reveal_strlit("DESC");
    reveal_strlit("ASC");
    reveal_strlit("
            ");
    reveal_strlit("LIMIT 100");
    let q = spec_records_query(record_count, rank_sort_by, Some(date_sort_by), view_name, and_event);
    let (filter, order) = records_clauses(record_count, rank_sort_by, Some(date_sort_by));
    let before = "SELECT * FROM "@ + view_name + " r
            WHERE map_id = ? "@ + filter + "
            "@ + and_event;
    let after = "
            ORDER BY "@ + order + "
            "@ + "LIMIT 100"@;
    assert(q == before + after);
    let s = match date_sort_by {
        SortState::Reverse => "ORDER BY r.record_date ASC
            LIMIT 100"@,
        SortState::Sort => "ORDER BY r.record_date DESC
            LIMIT 100"@,
    };
    assert(after.skip(13) =~= s);
    assert(q.skip(q.len() - s.len()) =~= after.skip(13));
}

/// Which records are read: after the view, the query keeps the map's records and, when no
/// date sort is asked for, only those of the ranked players, one placeholder per ranked
/// record; sorted by date, no player filter is applied.
pub proof fn law_records_filter(
    record_count: nat,
    rank_sort_by: Option<SortState>,
    date_sort_by: Option<SortState>,
    view_name: Seq<char>,
    and_event: Seq<char>,
)
    ensures
        starts_with(
            spec_records_query(record_count, rank_sort_by, date_sort_by, view_name, and_event),
            "SELECT * FROM "@ + view_name + (if date_sort_by is None {
                " r
            WHERE map_id = ? AND r.record_player_id IN ("@ + placeholders(record_count) + ")"@
            } else {
                " r
            WHERE map_id = ? 
            "@
            }),
        ),
{
    reveal_strlit(" r
            WHERE map_id = ? AND r.record_player_id IN (");
    reveal_strlit(" r
            WHERE map_id = ? 
            ");
    reveal_strlit(" r
            WHERE map_id = ? ");
    reveal_strlit("AND r.record_player_id IN (");
    reveal_strlit("
            ");
    let q = spec_records_query(record_count, rank_sort_by, date_sort_by, view_name, and_event);
    let (filter, order) = records_clauses(record_count, rank_sort_by, date_sort_by);
    let rest = "
            "@ + and_event + "
            ORDER BY "@ + order + "
            "@ + (if date_sort_by is Some || rank_sort_by is Some {
        "LIMIT 100"@
    } else {
        Seq::<char>::empty()
    });
    let head = "SELECT * FROM "@ + view_name + " r
            WHERE map_id = ? "@ + filter;
    assert(q =~= head + rest);
    let s = "SELECT * FROM "@ + view_name + (if date_sort_by is None {
        " r
            WHERE map_id = ? AND r.record_player_id IN ("@ + placeholders(record_count) + ")"@
    } else {
        " r
            WHERE map_id = ? 
            "@
    });
    if date_sort_by is None {
        assert(s =~= head);
        assert(q.take(s.len() as int) =~= s);
    } else {
        assert(filter =~= Seq::<char>::empty());
        assert(s =~= head + "
            "@);
        assert(q.take(s.len() as int) =~= s);
    }
}

} // verus!
