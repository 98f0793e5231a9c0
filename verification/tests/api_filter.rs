use game_api::api_filter::check::{is_known_agent, is_request_valid};
use game_api::api_filter::format::{head_block, text_eq_ignore_ascii_case, FormattedHeaderValue, FormattedRequestHead};
use game_api::api_filter::parse::parse_agent;
use game_api::api_filter::website::{parse_agent as parse_website_agent, WebsiteAgent, WebsiteFilter};
use game_api::api_filter::{filtered_agent, FilterAgent, FromBytes};

const GAME_AGENT: &[u8] =
    b"ManiaPlanet/3.3.0 (Win64; rv: 2019-11-19_18_50; context: none; distro: AGES)";

#[test]
fn api_spelling_reads_no_agent() {
    assert!(parse_agent(GAME_AGENT).is_none());
    assert!(parse_agent(b"ManiaPlanet/3.3.0 (Win64 rv: 2019-11-19_18_50 context: none distro: AGES;").is_none());
    assert!(parse_agent(b"").is_none());
}

#[test]
fn no_agent_is_known() {
    assert!(!is_known_agent(GAME_AGENT));
    assert!(!is_known_agent(b"node"));
    assert!(!is_request_valid(Some(GAME_AGENT)));
    assert!(!is_request_valid(None));
}

#[test]
fn website_agent_starts_with_node() {
    let (end, _) = parse_website_agent(b"node-fetch/1.0").expect("starts with node");
    assert_eq!(end, 4);
    assert!(parse_website_agent(b"nod").is_none());
    assert!(parse_website_agent(b"Mozilla").is_none());
    assert!(<WebsiteAgent as FromBytes>::from_bytes(b"node").is_ok());
    assert!(<WebsiteAgent as FromBytes>::from_bytes(b"deno").is_err());
    assert!(<WebsiteFilter as FilterAgent>::is_valid(&WebsiteAgent));
}

#[test]
fn header_value_text_is_kept() {
    let value = FormattedHeaderValue::new(b"text/html; q=0.9");
    assert_eq!(value.inner, Ok("text/html; q=0.9"));
    assert_eq!(value.render(), "text/html; q=0.9");
    assert_eq!(FormattedHeaderValue::new("é".as_bytes()).render(), "é");
}

#[test]
fn invalid_header_value_lists_its_bytes() {
    let bytes = [0xffu8, 1, 200];
    let value = FormattedHeaderValue::new(&bytes);
    assert_eq!(value.inner, Err(&bytes[..]));
    assert_eq!(value.render(), "Invalid UTF-8: [255, 1, 200]");
}

#[test]
fn long_invalid_header_value_is_cut() {
    let mut bytes = vec![0xffu8];
    bytes.extend(std::iter::repeat(7u8).take(100));
    let text = FormattedHeaderValue::new(&bytes).render();
    let mut expected = String::from("Invalid UTF-8: [255");
    for _ in 0..99 {
        expected.push_str(", 7");
    }
    expected.push_str(", ..]");
    assert_eq!(text, expected);

    let exact = vec![0xffu8; 100];
    let text = FormattedHeaderValue::new(&exact).render();
    assert!(text.ends_with("255]"));
    assert_eq!(text.matches("255").count(), 100);
}

#[test]
fn header_names_compare_without_case() {
    assert!(text_eq_ignore_ascii_case("authorization", "Authorization"));
    assert!(text_eq_ignore_ascii_case("X-Real-IP", "x-real-ip"));
    assert!(!text_eq_ignore_ascii_case("Authorization", "Authorisation"));
    assert!(!text_eq_ignore_ascii_case("Auth", "Authorization"));
}

#[test]
fn request_head_hides_authorization() {
    let head = FormattedRequestHead {
        request_line: "POST /player/finished HTTP/1.1".to_string(),
        headers: vec![
            ("authorization".to_string(), b"secret".to_vec()),
            ("user-agent".to_string(), b"curl/8.0".to_vec()),
            ("x-raw".to_string(), vec![0xfe]),
        ],
    };
    let expected = "POST /player/finished HTTP/1.1\nauthorization: ***\nuser-agent: curl/8.0\nx-raw: Invalid UTF-8: [254]\n";
    assert_eq!(head.render(), expected);
    assert_eq!(head_block(&head), format!("```{expected}```"));
}

#[test]
fn agents_are_read_then_filtered() {
    assert!(filtered_agent::<WebsiteFilter>(Some(b"node/18")).is_some());
    assert!(filtered_agent::<WebsiteFilter>(Some(b"curl/8")).is_none());
    assert!(filtered_agent::<WebsiteFilter>(None).is_none());
}
