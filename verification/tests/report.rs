use game_api::report::{
    invalid_request_report, ACBody, ConnectionInfo, EmbedField, HttpMethod, PlayerReportErrorBody,
    ReportErrorBody, FINISH_ERROR_COLOR, REPORT_COLOR,
};

fn fields(f: &Option<Vec<EmbedField>>) -> Vec<(String, String, Option<bool>)> {
    f.as_ref()
        .expect("fields")
        .iter()
        .map(|f| (f.name.clone(), f.value.clone(), f.inline))
        .collect()
}

fn field(name: &str, value: &str) -> (String, String, Option<bool>) {
    (name.to_string(), value.to_string(), None)
}

#[test]
fn mode_error_report() {
    let body = ReportErrorBody {
        method: HttpMethod::Post,
        route: "/player/finished".to_string(),
        body: "{}".to_string(),
        player_login: "smokegun".to_string(),
        status_code: -3,
        error: "boom".to_string(),
    };
    let m = body.report("2.7.4");
    assert_eq!(m.content, "Error reported (mode version: 2.7.4)");
    assert_eq!(m.embeds.len(), 2);
    assert_eq!(m.embeds[0].title, "Error");
    assert_eq!(m.embeds[0].description.as_deref(), Some("```boom```"));
    assert_eq!(m.embeds[0].color, REPORT_COLOR);
    assert_eq!(fields(&m.embeds[0].fields), vec![field("Status code", "-3")]);
    assert_eq!(m.embeds[1].title, "Context");
    assert_eq!(
        fields(&m.embeds[1].fields),
        vec![
            field("HTTP method", "POST"),
            field("API route", "`/player/finished`"),
            field("Player login", "`smokegun`"),
            field("Request body", "```{}```"),
        ]
    );
}

#[test]
fn mode_error_report_skips_empty_login_and_body() {
    let body = ReportErrorBody {
        method: HttpMethod::Get,
        route: "/overview".to_string(),
        body: String::new(),
        player_login: String::new(),
        status_code: 500,
        error: "e".to_string(),
    };
    let m = body.report("");
    assert_eq!(
        fields(&m.embeds[1].fields),
        vec![field("HTTP method", "GET"), field("API route", "`/overview`")]
    );
    assert_eq!(HttpMethod::Get.to_text(), "GET");
}

#[test]
fn player_error_report_on_finish() {
    let body = PlayerReportErrorBody {
        on_route: "/player/finished".to_string(),
        request_id: "r1".to_string(),
        map_uid: "uid".to_string(),
        err_type: 2,
        err_msg: "lost".to_string(),
        time: 12345,
        respawn_count: -1,
    };
    let m = body.report("ahmad");
    assert_eq!(m.content, "🚨 Player `ahmad` finished a map but got an error.");
    assert_eq!(m.embeds[0].title, "Error type 2");
    assert_eq!(m.embeds[0].description.as_deref(), Some("`lost`"));
    assert!(m.embeds[0].fields.is_none());
    assert_eq!(m.embeds[0].color, FINISH_ERROR_COLOR);
    assert_eq!(m.embeds[1].color, FINISH_ERROR_COLOR);
    assert_eq!(
        fields(&m.embeds[1].fields),
        vec![
            field("Map UID", "`uid`"),
            field("When called this API route", "`/player/finished`"),
            field("Request ID", "`r1`"),
            field("Run time", "`12345`"),
            field("Respawn count", "`-1`"),
        ]
    );
}

#[test]
fn player_error_report_elsewhere() {
    let body = PlayerReportErrorBody {
        on_route: "/overview".to_string(),
        request_id: "r2".to_string(),
        map_uid: "uid".to_string(),
        err_type: -7,
        err_msg: "x".to_string(),
        time: 1,
        respawn_count: 1,
    };
    let m = body.report("p");
    assert_eq!(m.content, "⚠️ Player `p` got an error while playing.");
    assert_eq!(m.embeds[0].title, "Error type -7");
    assert_eq!(m.embeds[0].color, REPORT_COLOR);
    assert_eq!(fields(&m.embeds[1].fields).len(), 3);
}

#[test]
fn anticheat_report() {
    let body = ACBody {
        run_time: "1:00.000".to_string(),
        map_name: "Map".to_string(),
        map_uid: "abc".to_string(),
        cp_times: "cps".to_string(),
        player_field: "pl".to_string(),
        server_text: "srv".to_string(),
        irl_time_passed: "61s".to_string(),
        discrepancy: "1s".to_string(),
        discrepancy_ratio: "1.6%".to_string(),
        ac_version: "3".to_string(),
    };
    let m = body.report();
    assert_eq!(m.content, "Map has been finished in 1:00.000");
    assert_eq!(m.embeds.len(), 1);
    assert_eq!(m.embeds[0].title, "Map");
    assert_eq!(m.embeds[0].url.as_deref(), Some("https://obstacle.titlepack.io/map/abc"));
    assert_eq!(m.embeds[0].description.as_deref(), Some("cps"));
    assert_eq!(
        fields(&m.embeds[0].fields),
        vec![
            field("Player", "pl"),
            field("Server", "srv"),
            ("IRL time elapsed".to_string(), "61s".to_string(), Some(true)),
            ("Discrepancy".to_string(), "1s".to_string(), Some(true)),
            field("Discrepancy ratio", "1.6%"),
            field("Anticheat version", "3"),
        ]
    );
}

#[test]
fn invalid_request_report_lists_connection() {
    let m = invalid_request_report(
        "```GET / HTTP/1.1\n```".to_string(),
        ConnectionInfo {
            host: "api".to_string(),
            peer_addr: Some("1.2.3.4:5".to_string()),
            realip_remote_addr: None,
            scheme: "https".to_string(),
        },
    );
    assert_eq!(m.content, "Got an invalid request 🥷");
    assert_eq!(fields(&m.embeds[0].fields), vec![field("Head", "```GET / HTTP/1.1\n```")]);
    assert_eq!(
        fields(&m.embeds[1].fields),
        vec![
            field("Host", "api"),
            field("Peer address", "1.2.3.4:5"),
            field("Real IP remote address", "Unknown"),
            field("Scheme", "https"),
        ]
    );
}
