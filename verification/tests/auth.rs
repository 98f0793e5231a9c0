use game_api::auth::{
    browser_answer, check_player, check_token, new_tokens, AuthError, AuthHeader, AuthState,
    Message, OAuthError, Role, WebToken, MP_TOKEN_LEN, WEB_TOKEN_LEN,
};
use game_api::utils::generate_token;

const ABC_DIGEST: &str = "ba7816bf8f01cfea414140de5dae2223b00361a396177a9cb410ff61f20015ad";
const EMPTY_DIGEST: &str = "e3b0c44298fc1c149afbf4c8996fb92427ae41e4649b934ca495991b7852b855";

#[test]
fn token_matches_its_stored_digest() {
    assert!(check_token(Some(ABC_DIGEST.to_string()), "abc").is_ok());
    assert!(check_token(Some(EMPTY_DIGEST.to_string()), "").is_ok());
}

#[test]
fn token_is_refused_without_matching_digest() {
    assert!(matches!(
        check_token(Some(ABC_DIGEST.to_string()), "abd"),
        Err(AuthError::Unauthorized)
    ));
    assert!(matches!(check_token(Some("abc".to_string()), "abc"), Err(AuthError::Unauthorized)));
    assert!(matches!(check_token(None, "abc"), Err(AuthError::Unauthorized)));
}

#[test]
fn player_checks_in_order() {
    assert!(matches!(
        check_player("ghost".to_string(), None, true, Role::Admin, Role::Player),
        Err(AuthError::PlayerNotFound(login)) if login == "ghost"
    ));
    assert!(matches!(
        check_player("p".to_string(), Some(3), true, Role::Admin, Role::Player),
        Err(AuthError::Unauthorized)
    ));
    assert!(matches!(
        check_player("p".to_string(), Some(3), false, Role::Moderator, Role::Admin),
        Err(AuthError::Forbidden)
    ));
    assert!(matches!(
        check_player("p".to_string(), Some(3), false, Role::Moderator, Role::Moderator),
        Ok(3)
    ));
    assert!(matches!(
        check_player("p".to_string(), Some(7), false, Role::Player, Role::Player),
        Ok(7)
    ));
}

#[test]
fn roles_are_ordered() {
    assert!(Role::Admin.at_least(Role::Moderator));
    assert!(Role::Admin.at_least(Role::Admin));
    assert!(Role::Moderator.at_least(Role::Player));
    assert!(!Role::Player.at_least(Role::Moderator));
    assert!(!Role::Moderator.at_least(Role::Admin));
}

#[test]
fn fresh_tokens_are_accepted() {
    let t = new_tokens();
    assert_eq!(t.mp_token.chars().count(), MP_TOKEN_LEN);
    assert_eq!(t.web_token.chars().count(), WEB_TOKEN_LEN);
    assert!(t.mp_token.chars().all(|c| c.is_ascii_alphanumeric()));
    assert!(t.web_token.chars().all(|c| c.is_ascii_alphanumeric()));
    assert_eq!(t.mp_token_hash.len(), 64);
    assert_ne!(t.mp_token_hash, t.mp_token);
    assert!(check_token(Some(t.mp_token_hash.clone()), &t.mp_token).is_ok());
    assert!(check_token(Some(t.web_token_hash.clone()), &t.web_token).is_ok());
    assert!(check_token(Some(t.web_token_hash.clone()), &t.mp_token).is_err());
}

#[test]
fn generated_tokens_have_the_asked_length() {
    for len in [0usize, 1, 32, 256] {
        let token = generate_token(len);
        assert_eq!(token.len(), len);
        assert!(token.chars().all(|c| c.is_ascii_alphanumeric()));
    }
}

#[test]
fn auth_header_needs_both_values() {
    let h = AuthHeader::from_headers(Some("login".to_string()), Some("tok".to_string()))
        .ok()
        .expect("both given");
    assert_eq!(h.login, "login");
    assert_eq!(h.token, "tok");
    assert!(matches!(
        AuthHeader::from_headers(None, Some("tok".to_string())),
        Err(AuthError::Unauthorized)
    ));
    assert!(matches!(
        AuthHeader::from_headers(Some("login".to_string()), None),
        Err(AuthError::Unauthorized)
    ));
}

#[test]
fn oauth_state_is_used_once() {
    let mut states: AuthState<&str> = AuthState::new();
    assert_eq!(states.len(), 0);
    assert!(states.connect_with_browser("s1".to_string(), "first", 10).is_ok());
    assert!(matches!(
        states.connect_with_browser("s1".to_string(), "second", 20),
        Err(OAuthError::StateAlreadyReceived(10))
    ));
    assert!(states.connect_with_browser("s2".to_string(), "other", 30).is_ok());
    assert_eq!(states.len(), 2);
    assert!(matches!(states.take_state("s1"), Ok("first")));
    assert!(matches!(states.take_state("s1"), Err(OAuthError::MissingGetTokenReq)));
    assert_eq!(states.len(), 1);
    states.remove_state("s2");
    states.remove_state("unknown");
    assert_eq!(states.len(), 0);
    assert!(matches!(states.take_state("s2"), Err(OAuthError::MissingGetTokenReq)));
}

#[test]
fn browser_answers() {
    let granted = browser_answer(Some(Message::Granted(WebToken {
        login: "l".to_string(),
        token: "t".to_string(),
    })));
    assert!(matches!(granted, Ok(WebToken { ref login, ref token }) if login == "l" && token == "t"));
    assert!(matches!(browser_answer(Some(Message::InvalidMPToken)), Err(OAuthError::InvalidMPToken)));
    assert!(matches!(browser_answer(None), Err(OAuthError::Timeout)));
}

#[test]
fn each_fresh_token_passes_only_its_own_check() {
    let t = new_tokens();
    assert!(check_token(Some(t.mp_token_hash.clone()), &t.web_token).is_err());
    assert!(check_token(Some(t.web_token_hash.clone()), &t.mp_token).is_err());
}
