use game_api::event::{categories_or_all_maps, edition_layout, get_sql_fragments, leaderboard_sql_fragments, EventCategory};
use game_api::finish_lock::Impl;
use game_api::graphql::{
    mappack_map_ranks, mappack_to_fill, InvalidMappackId, medal_for_role, Mappack, NodeKind, PlayerRole, QueryRoot, RoleRow, SortState,
    UnknownRole,
};
use game_api::map::{MapAuthor, UpdateMapBody};
use game_api::overview::display_ranges;
use game_api::pb::{pb_response, PbResponseItem};
use game_api::player::plan_finish;
use game_api::player_finished::{finish_outcome, times_coherent};
use game_api::poolsize::{logs_pool_size, next_req_count};
use game_api::queries::{placeholder_list, records_query, times_query};
use game_api::rating::{
    existing_rating, rate_plan, rates_valid, ratings_role, row_write, RateError, RatePlan, RowWrite,
};
use game_api::auth::Role;
use game_api::utils::any_repeated;
use game_api::xml::{xml, xml_elements};

fn category(id: u32, handle: &str) -> EventCategory {
    EventCategory {
        id,
        handle: handle.to_string(),
        name: handle.to_uppercase(),
        banner_img_url: Some(format!("https://img/{handle}")),
    }
}

fn layout(keys: &[Option<u32>], cats: Vec<EventCategory>) -> Vec<(String, String, String, usize)> {
    edition_layout(keys, cats)
        .into_iter()
        .map(|s| (s.handle, s.name, s.banner_img_url, s.map_count))
        .collect()
}

#[test]
fn edition_maps_are_grouped_by_category() {
    let slots = layout(
        &[Some(1), Some(1), Some(2), None, Some(1)],
        vec![category(1, "white"), category(2, "green"), category(3, "blue")],
    );
    assert_eq!(
        slots,
        vec![
            ("white".into(), "WHITE".into(), "https://img/white".into(), 2),
            ("green".into(), "GREEN".into(), "https://img/green".into(), 1),
            (String::new(), String::new(), String::new(), 1),
            (String::new(), String::new(), String::new(), 1),
            ("blue".into(), "BLUE".into(), "https://img/blue".into(), 0),
        ]
    );
    assert_eq!(slots.iter().map(|s| s.3).sum::<usize>(), 5);
}

#[test]
fn edition_without_maps_lists_its_categories() {
    let slots = layout(&[], vec![category(4, "a"), category(5, "b")]);
    assert_eq!(slots.iter().map(|s| (s.0.as_str(), s.3)).collect::<Vec<_>>(), vec![("a", 0), ("b", 0)]);
    assert!(layout(&[None, None], vec![]) == vec![(String::new(), String::new(), String::new(), 2)]);
}

#[test]
fn category_without_banner_gets_empty_url() {
    let mut cat = category(9, "x");
    cat.banner_img_url = None;
    let slots = layout(&[Some(9)], vec![cat]);
    assert_eq!(slots, vec![("x".into(), "X".into(), String::new(), 1)]);
}

#[test]
fn event_sql_fragments() {
    let (join, filter) = get_sql_fragments();
    assert_eq!(join, "INNER JOIN event_edition_records eer ON r.record_id = eer.record_id");
    assert_eq!(filter, "AND eer.event_id = ? AND eer.edition_id = ?");
    assert_eq!(leaderboard_sql_fragments(true), (join, filter));
    assert_eq!(leaderboard_sql_fragments(false), ("", ""));
}

#[test]
fn overview_rows_for_top_player() {
    assert_eq!(display_ranges(Some(0), 100), vec![(0, 15)]);
    assert_eq!(display_ranges(Some(14), 100), vec![(0, 15)]);
}

#[test]
fn overview_rows_around_lower_player() {
    assert_eq!(display_ranges(Some(50), 100), vec![(0, 3), (44, 56)]);
    assert_eq!(display_ranges(Some(97), 100), vec![(0, 3), (88, 100)]);
    for rank in [15i64, 40, 95, 99] {
        let ranges = display_ranges(Some(rank), 100);
        let shown: i64 = ranges.iter().map(|(a, b)| b - a).sum();
        assert_eq!(shown, 15);
        assert!(ranges.iter().any(|&(a, b)| a <= rank && rank < b));
    }
}

#[test]
fn overview_rows_without_record() {
    assert_eq!(display_ranges(None, 100), vec![(0, 11), (97, 100)]);
    assert_eq!(display_ranges(None, 10), vec![(0, 14)]);
    assert_eq!(display_ranges(None, 14), vec![(0, 14)]);
}

#[test]
fn finish_plans() {
    let first = plan_finish(None, 5000);
    assert!(first.has_improved && first.insert_record && !first.update_leaderboard);
    assert_eq!((first.old, first.new), (5000, 5000));
    let better = plan_finish(Some(6000), 5000);
    assert!(better.has_improved && better.insert_record && better.update_leaderboard);
    assert_eq!((better.old, better.new), (6000, 5000));
    let worse = plan_finish(Some(4000), 5000);
    assert!(!worse.has_improved && !worse.insert_record && !worse.update_leaderboard);
    let same = plan_finish(Some(5000), 5000);
    assert!(!same.has_improved);
}

#[test]
fn finish_outcomes_rank_the_best_time() {
    let first = finish_outcome(None, 5000);
    assert!(first.has_improved && !first.with_old_rank);
    assert_eq!(first.ranked_time, 5000);
    let better = finish_outcome(Some(6000), 5000);
    assert!(better.has_improved && better.with_old_rank);
    assert_eq!(better.ranked_time, 5000);
    let worse = finish_outcome(Some(4000), 5000);
    assert!(!worse.has_improved && worse.with_old_rank);
    assert_eq!((worse.old, worse.new, worse.ranked_time), (4000, 5000, 4000));
}

#[test]
fn checkpoint_times_must_add_up() {
    assert!(times_coherent(Some(2), &[100, 200, 300], 600));
    assert!(!times_coherent(Some(2), &[100, 200, 300], 601));
    assert!(!times_coherent(Some(3), &[100, 200, 300], 600));
    assert!(times_coherent(None, &[100, 200, 300], 600));
    assert!(times_coherent(None, &[], 0));
    assert!(!times_coherent(Some(0), &[], 0));
}

#[test]
fn pool_size_is_logged_once_per_chunk() {
    let mut count = 0usize;
    let mut logged = Vec::new();
    for request in 0..9 {
        if logs_pool_size(count) {
            logged.push(request);
        }
        count = next_req_count(count);
    }
    assert_eq!(logged, vec![0, 3, 6]);
    assert_eq!(next_req_count(2), 0);
}

#[test]
fn placeholders_and_queries() {
    assert_eq!(placeholder_list(0), "");
    assert_eq!(placeholder_list(1), "?");
    assert_eq!(placeholder_list(3), "?,?,?");
    let q = times_query(2);
    assert!(q.contains("m.game_id IN (?,?)"));
    assert!(q.ends_with("GROUP BY m.id"));
}

#[test]
fn records_query_by_rank() {
    let q = records_query(2, None, None, "global_records", "");
    assert!(q.bind_record_ids);
    assert!(q.sql.starts_with("SELECT * FROM global_records r"));
    assert!(q.sql.contains("AND r.record_player_id IN (?,?)"));
    assert!(q.sql.contains("ORDER BY r.time ASC, r.record_date ASC"));
    assert!(!q.sql.contains("LIMIT 100"));
    let reversed = records_query(1, Some(SortState::Reverse), None, "v", "AND x");
    assert!(reversed.sql.contains("ORDER BY r.time DESC, r.record_date ASC"));
    assert!(reversed.sql.contains("AND x"));
    assert!(reversed.sql.ends_with("LIMIT 100"));
}

#[test]
fn records_query_by_date() {
    let q = records_query(5, None, Some(SortState::Sort), "v", "");
    assert!(!q.bind_record_ids);
    assert!(!q.sql.contains("IN ("));
    assert!(q.sql.contains("ORDER BY r.record_date DESC"));
    assert!(q.sql.ends_with("LIMIT 100"));
    let asc = records_query(5, Some(SortState::Sort), Some(SortState::Reverse), "v", "");
    assert!(asc.sql.contains("ORDER BY r.record_date ASC"));
    assert_eq!(SortState::sql_order_by(&Some(SortState::Reverse)), "ASC");
    assert_eq!(SortState::sql_order_by(&Some(SortState::Sort)), "DESC");
    assert_eq!(SortState::sql_order_by(&None), "DESC");
}

#[test]
fn rates_are_checked() {
    assert!(rates_valid(&[0, 1, 2], 3));
    assert!(!rates_valid(&[0, 1, 2], 2));
    assert!(!rates_valid(&[0, 1, 0], 3));
    assert!(rates_valid(&[], 0));
    assert!(ratings_role(5, 5) == Role::Player);
    assert!(ratings_role(5, 6) == Role::Admin);
}

#[test]
fn repeated_items_are_found() {
    assert!(any_repeated(&[1, 2, 3, 2]));
    assert!(!any_repeated(&[1, 2, 3]));
    assert!(!any_repeated::<u8>(&[]));
    assert!(any_repeated(&["a", "a"]));
}

#[test]
fn node_ids_round_trip() {
    assert_eq!(QueryRoot::node_cursor(NodeKind::MapNode, 42), "v0:Map:42");
    assert_eq!(QueryRoot::node_cursor(NodeKind::PlayerNode, 0), "v0:Player:0");
    assert!(QueryRoot::node_id("v0:Map:42") == Some((NodeKind::MapNode, 42)));
    assert!(QueryRoot::node_id("v0:Player:+7") == Some((NodeKind::PlayerNode, 7)));
    let max = QueryRoot::node_cursor(NodeKind::PlayerNode, u32::MAX);
    assert!(QueryRoot::node_id(&max) == Some((NodeKind::PlayerNode, u32::MAX)));
}

#[test]
fn bad_node_ids_are_refused() {
    for id in ["", "v0:Map", "v1:Map:1", "v0:Record:1", "v0:Map:1:2", "v0:Map:x", "v0:Map:4294967296", "v0:map:1"] {
        assert!(QueryRoot::node_id(id).is_none(), "{id}");
    }
}

#[test]
fn mappack_updates() {
    let m = Mappack::from("123".to_string());
    assert!(!m.event_has_expired);
    assert_eq!(m.next_update_in(Some(1000), Some(1000)), Some(86400));
    assert_eq!(m.next_update_in(Some(1000), Some(87400)), Some(0));
    assert_eq!(m.next_update_in(Some(1000), Some(87401)), None);
    assert_eq!(m.next_update_in(None, Some(5)), None);
    assert_eq!(m.next_update_in(Some(5), None), None);
    let expired = Mappack { event_has_expired: true, mappack_id: "1".to_string() };
    assert_eq!(expired.next_update_in(Some(1000), Some(1000)), None);
}

#[test]
fn mappack_to_load() {
    assert!(matches!(mappack_to_fill("123", false), Ok(Some(123))));
    assert!(matches!(mappack_to_fill("abc", true), Ok(None)));
    assert!(matches!(mappack_to_fill("abc", false), Err(InvalidMappackId(ref id)) if id == "abc"));
    assert!(matches!(mappack_to_fill("4294967296", false), Err(InvalidMappackId(_))));
}

#[test]
fn pending_maps() {
    let mut lock = Impl::new();
    assert!(!lock.is_finish_pending(1));
    lock.pend(1);
    lock.pend(2);
    assert!(lock.is_finish_pending(1));
    lock.release(1);
    assert!(!lock.is_finish_pending(1));
    assert!(lock.is_finish_pending(2));
    assert!(!Impl::default().is_finish_pending(2));
}

#[test]
fn xml_documents() {
    let doc = xml(Ok(b"<a/>".to_vec()));
    assert_eq!(doc.size(), 42);
    let reply = doc.into_response();
    assert_eq!(reply.status, 200);
    assert_eq!(reply.content_type, Some("application/xml; charset=utf-8"));
    assert_eq!(reply.body, b"<?xml version=\"1.0\" encoding=\"UTF-8\"?><a/>".to_vec());
    let failed = xml(Err(()));
    assert_eq!(failed.size(), 0);
    let reply = failed.into_response();
    assert_eq!(reply.status, 500);
    assert!(reply.body.is_empty());
}

#[test]
fn xml_lists() {
    let doc = xml_elements(&vec![Ok(b"<a/>".to_vec()), Ok(b"<b/>".to_vec())]);
    assert_eq!(
        doc.into_response().body,
        b"<?xml version=\"1.0\" encoding=\"UTF-8\"?><response><a/><b/></response>".to_vec()
    );
    let failed = xml_elements(&vec![Ok(b"<a/>".to_vec()), Err(())]);
    assert_eq!(failed.into_response().status, 500);
}

#[test]
fn rate_plans() {
    assert!(matches!(rate_plan(&[0, 0], 3), RatePlan::InvalidRates));
    assert!(matches!(rate_plan(&[0, 1, 2, 3], 3), RatePlan::InvalidRates));
    assert!(matches!(rate_plan(&[], 3), RatePlan::ReadExisting));
    assert!(matches!(rate_plan(&[2, 0], 3), RatePlan::Write));
}

#[test]
fn ranks_are_listed_under_all_maps_without_categories() {
    let all = categories_or_all_maps(vec![]);
    assert_eq!(all.len(), 1);
    assert_eq!((all[0].id, all[0].handle.as_str(), all[0].name.as_str()), (0, "", "All maps"));
    assert!(all[0].banner_img_url.is_none());
    let own = categories_or_all_maps(vec![category(3, "red")]);
    assert_eq!(own.len(), 1);
    assert_eq!(own[0].handle, "red");
}

#[test]
fn roles_are_read_from_their_identifier() {
    let role = |id: u8| PlayerRole::try_from(RoleRow { id, role_name: format!("r{id}") });
    assert!(matches!(role(0), Ok(PlayerRole::Player)));
    assert!(matches!(role(1), Ok(PlayerRole::Moderator)));
    assert!(matches!(role(2), Ok(PlayerRole::Admin)));
    assert!(matches!(role(3), Err(UnknownRole(3, ref name)) if name == "r3"));
    assert!(matches!(role(255), Err(UnknownRole(255, _))));
}

#[test]
fn medals_of_others_need_an_admin() {
    assert!(medal_for_role("me", "me") == Role::Player);
    assert!(medal_for_role("me", "you") == Role::Admin);
}

#[test]
fn placeholders_bind_as_many_values() {
    for n in [0usize, 1, 2, 7, 50] {
        assert_eq!(placeholder_list(n).matches('?').count(), n);
    }
}

#[test]
fn overview_ranges_do_not_overlap() {
    for count in [15i64, 16, 30, 100] {
        for rank in 0..count {
            let ranges = display_ranges(Some(rank), count);
            if ranges.len() == 2 {
                assert!(ranges[0].1 <= ranges[1].0 && ranges[1].0 <= ranges[1].1 && ranges[1].1 <= count);
            }
        }
    }
    let ranges = display_ranges(None, 15);
    assert!(ranges[0].1 <= ranges[1].0 && ranges[1].1 <= 15);
}

#[test]
fn mappack_ranks_are_paired() {
    let flat: Vec<String> = ["uidA", "3", "uidB", "-1", "uidC"].iter().map(|s| s.to_string()).collect();
    let ranks = mappack_map_ranks(&flat).expect("ranks read");
    assert_eq!(ranks, vec![("uidA".to_string(), 3), ("uidB".to_string(), -1)]);
    let bad: Vec<String> = ["uidA", "3", "uidB", "x"].iter().map(|s| s.to_string()).collect();
    assert!(mappack_map_ranks(&bad).is_none());
    assert_eq!(mappack_map_ranks(&vec![]), Some(vec![]));
}

#[test]
fn personal_best_rows() {
    let rows = [
        PbResponseItem { rs_count: 2, cp_num: 0, time: 1000 },
        PbResponseItem { rs_count: 2, cp_num: 1, time: 2500 },
        PbResponseItem { rs_count: 2, cp_num: 2, time: 4000 },
    ];
    let res = pb_response(&rows);
    assert_eq!(res.rs_count, 2);
    let times: Vec<(u32, i32)> = res.cps_times.iter().map(|c| (c.cp_num, c.time)).collect();
    assert_eq!(times, vec![(0, 1000), (1, 2500), (2, 4000)]);
    let empty = pb_response(&[]);
    assert_eq!(empty.rs_count, 0);
    assert!(empty.cps_times.is_empty());
}

#[test]
fn map_author_is_registered_with_its_zone() {
    let body = UpdateMapBody {
        name: "Map".to_string(),
        map_uid: "uid".to_string(),
        author: MapAuthor {
            login: "author".to_string(),
            nickname: "Nick".to_string(),
            zone_path: "World|Europe".to_string(),
        },
    };
    let update = body.author_update();
    assert_eq!(update.nickname, "Nick");
    assert_eq!(update.country, "World|Europe");
}

#[test]
fn rating_without_rates_needs_an_existing_rating() {
    assert!(matches!(existing_rating(Some(17u64), "p".to_string(), "m".to_string()), Ok(17)));
    assert!(matches!(
        existing_rating(None::<u64>, "p".to_string(), "m".to_string()),
        Err(RateError::NoRatingFound(ref l, ref m)) if l == "p" && m == "m"
    ));
}

#[test]
fn rating_rows_are_updated_or_inserted() {
    assert!(matches!(row_write(0), RowWrite::Insert));
    assert!(matches!(row_write(1), RowWrite::Update));
    assert!(matches!(row_write(3), RowWrite::Update));
}

#[test]
fn wrong_checkpoint_count_is_refused_before_summing() {
    assert!(!times_coherent(Some(1), &[i32::MAX, i32::MAX, 5], 0));
}

#[test]
fn overview_for_the_greatest_rank() {
    let rank = i64::MAX - 6;
    assert_eq!(display_ranges(Some(rank), i64::MAX), vec![(0, 3), (rank - 6, i64::MAX)]);
}

#[test]
fn each_category_gets_its_own_maps_once() {
    let slots = layout(
        &[Some(2), Some(2), Some(7), None, Some(1)],
        vec![category(1, "a"), category(2, "b"), category(3, "c"), category(4, "d")],
    );
    assert_eq!(slots.len(), 6);
    assert_eq!((slots[0].0.as_str(), slots[0].3), ("b", 2));
    assert_eq!((slots[1].0.as_str(), slots[1].3), ("", 1));
    assert_eq!((slots[2].0.as_str(), slots[2].3), ("", 1));
    assert_eq!((slots[3].0.as_str(), slots[3].3), ("a", 1));
    let mut left: Vec<&str> = slots[4..].iter().map(|s| s.0.as_str()).collect();
    left.sort();
    assert_eq!(left, vec!["c", "d"]);
    assert!(slots[4..].iter().all(|s| s.3 == 0));
}
