use game_api::request_filter::agent::{is_known_client, is_no_context, parse_rv, parse_version};
use game_api::request_filter::grammar::{bytes_eq, field, parse_unsigned, sep_unsigned, tag, take_until};
use game_api::request_filter::ingame::{parse_agent, InGameAgent};
use game_api::request_filter::website::WebsiteAgent;
use game_api::request_filter::{
    filter_agent, CurrentUserAgent, init_wh_url, should_report, wh_url, InGameFilter, WebhookUrl, WebsiteFilter,
};

const GAME_AGENT: &str =
    "ManiaPlanet/3.3.0 (Win64; rv: 2019-11-19_18_50; context: none; distro: AGES)";

fn agent_of(text: &str) -> Option<InGameAgent> {
    InGameAgent::try_from(text.as_bytes()).ok()
}

#[test]
fn ingame_agent_reads_every_field() {
    let agent = agent_of(GAME_AGENT).expect("the game's agent parses");
    assert_eq!(agent.maniaplanet_version, (3, 3, 0));
    assert_eq!(agent.rv, (2019, 11, 19, 18, 50));
    assert_eq!(&*agent.client, b"Win64");
    assert_eq!(&*agent.context, b"none");
    assert_eq!(&*agent._distro, b"AGES");
}

#[test]
fn ingame_agent_stops_before_closing_parenthesis() {
    let input = format!("{GAME_AGENT} trailing");
    let (agent, end) = parse_agent(input.as_bytes()).expect("parses");
    assert_eq!(end, GAME_AGENT.len() - 1);
    assert_eq!(input.as_bytes()[end], b')');
    assert_eq!(&*agent._distro, b"AGES");
}

#[test]
fn ingame_agent_clone_keeps_fields() {
    let agent = agent_of(GAME_AGENT).unwrap();
    let copy = agent.clone();
    assert_eq!(copy.rv, agent.rv);
    assert_eq!(&*copy.client, &*agent.client);
    assert_eq!(&*copy.context, &*agent.context);
    assert_eq!(&*copy._distro, &*agent._distro);
}

#[test]
fn ingame_agent_refuses_malformed_headers() {
    assert!(agent_of("").is_none());
    assert!(agent_of("Mozilla/5.0 (X11; Linux x86_64)").is_none());
    assert!(agent_of("ManiaPlanet/3.3 (Win64; rv: 2019-11-19_18_50; context: none; distro: AGES)").is_none());
    assert!(agent_of("ManiaPlanet/3.3.0 (Win64; rv: 2019-11-19; context: none; distro: AGES)").is_none());
    assert!(agent_of("ManiaPlanet/3.3.0 (Win64; rv: 2019-11-19_18_50; context: none; distro: AGES").is_none());
    assert!(agent_of("ManiaPlanet/256.0.0 (Win64; rv: 2019-11-19_18_50; context: none; distro: AGES)").is_none());
    assert!(agent_of("ManiaPlanet/3.3.0 (Win64; rv: 70000-11-19_18_50; context: none; distro: AGES)").is_none());
}

#[test]
fn ingame_filter_accepts_supported_clients() {
    let agent = agent_of(GAME_AGENT);
    assert!(filter_agent::<InGameFilter>(agent).is_some());
    let linux = agent_of("ManiaPlanet/3.2.9 (Linux; rv: 2019-11-19_18_58; context: none; distro: AGES)");
    assert!(filter_agent::<InGameFilter>(linux).is_some());
    let old = agent_of("ManiaPlanet/2.9.9 (Win32; rv: 2018-12-31_23_59; context: none; distro: AGES)");
    assert!(filter_agent::<InGameFilter>(old).is_some());
}

#[test]
fn ingame_filter_refuses_unsupported_clients() {
    let newer_build = agent_of("ManiaPlanet/3.3.0 (Win64; rv: 2019-11-19_18_59; context: none; distro: AGES)");
    assert!(newer_build.is_some());
    assert!(filter_agent::<InGameFilter>(newer_build).is_none());
    let newer_version = agent_of("ManiaPlanet/3.3.1 (Win64; rv: 2019-11-19_18_50; context: none; distro: AGES)");
    assert!(filter_agent::<InGameFilter>(newer_version).is_none());
    let mac = agent_of("ManiaPlanet/3.3.0 (Mac; rv: 2019-11-19_18_50; context: none; distro: AGES)");
    assert!(filter_agent::<InGameFilter>(mac).is_none());
    let in_menu = agent_of("ManiaPlanet/3.3.0 (Win64; rv: 2019-11-19_18_50; context: menu; distro: AGES)");
    assert!(filter_agent::<InGameFilter>(in_menu).is_none());
    assert!(filter_agent::<InGameFilter>(None).is_none());
}

#[test]
fn website_agent_is_exactly_node() {
    assert!(WebsiteAgent::try_from(&b"node"[..]).is_ok());
    assert!(WebsiteAgent::try_from(&b"node-fetch"[..]).is_err());
    assert!(WebsiteAgent::try_from(&b"Node"[..]).is_err());
    assert!(WebsiteAgent::try_from(&b""[..]).is_err());
    assert!(filter_agent::<WebsiteFilter>(Some(WebsiteAgent)).is_some());
}

#[test]
fn reports_only_unflagged_invalid_requests() {
    assert!(should_report(true, false, false));
    assert!(!should_report(false, false, false));
    assert!(!should_report(true, true, false));
    assert!(!should_report(true, false, true));
}

#[test]
fn webhook_url_is_set_once() {
    let mut cell = WebhookUrl::new();
    assert_eq!(wh_url(&cell), "");
    assert_eq!(init_wh_url(&mut cell, "https://first".to_string()), Ok(()));
    assert_eq!(wh_url(&cell), "https://first");
    assert_eq!(
        init_wh_url(&mut cell, "https://second".to_string()),
        Err("https://second".to_string())
    );
    assert_eq!(wh_url(&cell), "https://first");
}

#[test]
fn grammar_pieces() {
    assert_eq!(parse_unsigned(b"255.", 0, 255), Some((255, 3)));
    assert_eq!(parse_unsigned(b"256", 0, 255), None);
    assert_eq!(parse_unsigned(b"x1", 0, 255), None);
    assert_eq!(parse_unsigned(b"a42b", 1, 255), Some((42, 3)));
    assert_eq!(sep_unsigned(b"3.14", 1, b".", 255), Some((14, 4)));
    assert_eq!(tag(b"ManiaPlanet/3", 0, b"ManiaPlanet/"), Some(12));
    assert_eq!(tag(b"Mania", 0, b"ManiaPlanet/"), None);
    assert_eq!(take_until(b"Win64; rv", 0, b';'), Some(5));
    assert_eq!(take_until(b"Win64", 0, b';'), None);
    assert_eq!(field(b" (Win64;", 0, b" (", b';'), Some((2, 7)));
    assert!(bytes_eq(b"none", b"none"));
    assert!(!bytes_eq(b"none", b"nona"));
    assert_eq!(parse_version(b"3.3.0 (", 0), Some(((3, 3, 0), 5)));
    assert_eq!(parse_rv(b"2019-11-19_18_50;"), Some(((2019, 11, 19, 18, 50), 16)));
    assert!(is_known_client(b"Win32"));
    assert!(is_known_client(b"Linux"));
    assert!(!is_known_client(b"Win"));
    assert!(is_no_context(b"none"));
    assert!(!is_no_context(b"menu"));
}

#[test]
fn written_headers_are_read_back() {
    let cases: [((u8, u8, u8), (u16, u8, u8, u8, u8), &str, &str, &str); 3] = [
        ((0, 0, 0), (0, 0, 0, 0, 0), "", "", ""),
        ((255, 10, 7), (65535, 255, 1, 23, 9), "Win32", "menu", "TMNext (beta)"),
        ((3, 3, 0), (2019, 11, 19, 18, 50), "Linux", "none", "AGES; x"),
    ];
    for ((a, b, c), (r0, r1, r2, r3, r4), client, context, distro) in cases {
        let distro = distro.replace(')', "");
        let header = format!(
            "ManiaPlanet/{a}.{b}.{c} ({client}; rv: {r0}-{r1}-{r2}_{r3}_{r4}; context: {context}; distro: {distro}) rest"
        );
        let (agent, end) = parse_agent(header.as_bytes()).expect("written header parses");
        assert_eq!(agent.maniaplanet_version, (a, b, c));
        assert_eq!(agent.rv, (r0, r1, r2, r3, r4));
        assert_eq!(&*agent.client, client.as_bytes());
        assert_eq!(&*agent.context, context.as_bytes());
        assert_eq!(&*agent._distro, distro.as_bytes());
        assert_eq!(&header.as_bytes()[end..], b") rest");
    }
}

#[test]
fn current_agent_clone_keeps_the_agent() {
    let current: CurrentUserAgent<InGameFilter> = CurrentUserAgent { user_agent: agent_of(GAME_AGENT) };
    let copy = current.clone();
    let agent = copy.user_agent.expect("the agent is kept");
    assert_eq!(agent.rv, (2019, 11, 19, 18, 50));
    assert_eq!(&*agent.client, b"Win64");
    let none: CurrentUserAgent<InGameFilter> = CurrentUserAgent { user_agent: None };
    assert!(none.clone().user_agent.is_none());
}
