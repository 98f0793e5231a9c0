//! The authentication of players.
//!
//! Each player holds a ManiaPlanet token and a website token; only their SHA-256 digests are
//! stored. A request is authenticated when the digest of the token it carries is the stored
//! one, the player exists, is not banned, and holds the required role.
use vstd::prelude::*;

use crate::utils::{generate_token, is_alphanumeric};

verus! {

/// The SHA-256 digest of a text, as the `sha256` crate writes it.
pub uninterp spec fn spec_sha256_digest(input: Seq<char>) -> Seq<char>;

/// `sha256::digest` on a text. Claimed of it: its result is the named digest of the text, so
/// that the same text always gives the same digest; what the digest is, is not stated.
#[verifier::external_body]
fn digest(input: &str) -> (hash: String)
    ensures
        hash@ == spec_sha256_digest(input@),
{
    sha256::digest(input)
}

/// The length of ManiaPlanet tokens.
pub const MP_TOKEN_LEN: usize = 256;

/// The length of website tokens.
pub const WEB_TOKEN_LEN: usize = 32;

/// The website token of a player, kept in the session.
pub struct WebToken {
    pub login: String,
    pub token: String,
}

impl Clone for WebToken {
    fn clone(&self) -> (c: Self)
        ensures
            c.login@ == self.login@,
            c.token@ == self.token@,
    {
        WebToken { login: self.login.clone(), token: self.token.clone() }
    }
}

/// What the two sides of the OAuth exchange send each other.
pub enum Message {
    MPAccessToken(String),
    InvalidMPToken,
    Granted(WebToken),
}

/// The roles of players, in increasing order of privilege.
#[derive(Clone, Copy, PartialEq, Eq, Structural)]
pub enum Role {
    Player,
    Moderator,
    Admin,
}

impl Role {
    /// The rank of the role among the roles.
    pub open spec fn level(self) -> nat {
        match self {
            Role::Player => 0,
            Role::Moderator => 1,
            Role::Admin => 2,
        }
    }

    /// Whether this role grants what `required` grants.
    pub fn at_least(self, required: Role) -> (r: bool)
        ensures
            r == (self.level() >= required.level()),
    {
        let mine: u8 = match self {
            Role::Player => 0,
            Role::Moderator => 1,
            Role::Admin => 2,
        };
        let needed: u8 = match required {
            Role::Player => 0,
            Role::Moderator => 1,
            Role::Admin => 2,
        };
        mine >= needed
    }
}

/// Why a request was not authenticated.
pub enum AuthError {
    /// The token is not the stored one, no token is stored, or the player is banned.
    Unauthorized,
    /// The token is valid but no player has the login.
    PlayerNotFound(String),
    /// The player's role is below the required one.
    Forbidden,
}

/// A token is valid when a digest is stored for the player and the token's digest equals it.
pub open spec fn token_valid(stored: Option<Seq<char>>, token: Seq<char>) -> bool {
    stored matches Some(hash) && hash == spec_sha256_digest(token)
}

/// The token of a request against the stored digest.
pub fn check_token(stored: Option<String>, token: &str) -> (r: Result<(), AuthError>)
    ensures
        r is Ok <==> token_valid(
            match stored {
                Some(h) => Some(h@),
                None => None,
            },
            token@,
        ),
        r is Err ==> r matches Err(AuthError::Unauthorized),
{
    match stored {
        Some(hash) => {
            let expected = digest(token);
            if crate::text::text_eq(hash.as_str(), expected.as_str()) {
                Ok(())
            } else {
                Err(AuthError::Unauthorized)
            }
        },
        None => Err(AuthError::Unauthorized),
    }
}

/// The rest of the check, once the token is valid: the player must exist (`player` is
/// their identifier, if found), must not be banned (a banned player is answered as an
/// unauthorized request), and must hold the required role.
pub fn check_player(
    login: String,
    player: Option<u32>,
    banned: bool,
    role: Role,
    required: Role,
) -> (r: Result<u32, AuthError>)
    ensures
        match player {
            None => r matches Err(AuthError::PlayerNotFound(l)) && l@ == login@,
            Some(id) => if banned {
                r matches Err(AuthError::Unauthorized)
            } else if role.level() < required.level() {
                r matches Err(AuthError::Forbidden)
            } else {
                r == Ok::<u32, AuthError>(id)
            },
        },
{
    let id = match player {
        Some(id) => id,
        None => return Err(AuthError::PlayerNotFound(login)),
    };
    if banned {
        return Err(AuthError::Unauthorized);
    }
    if !role.at_least(required) {
        return Err(AuthError::Forbidden);
    }
    Ok(id)
}

/// Fresh tokens for a player and the digests to store for them.
pub struct NewTokens {
    pub mp_token: String,
    pub web_token: String,
    pub mp_token_hash: String,
    pub web_token_hash: String,
}

/// Generates a ManiaPlanet token of 256 characters and a website token of 32, random
/// letters and digits, with their digests.
pub fn new_tokens() -> (t: NewTokens)
    ensures
        t.mp_token@.len() == MP_TOKEN_LEN,
        t.web_token@.len() == WEB_TOKEN_LEN,
        forall|i: int| 0 <= i < MP_TOKEN_LEN ==> is_alphanumeric(#[trigger] t.mp_token@[i]),
        forall|i: int| 0 <= i < WEB_TOKEN_LEN ==> is_alphanumeric(#[trigger] t.web_token@[i]),
        t.mp_token_hash@ == spec_sha256_digest(t.mp_token@),
        t.web_token_hash@ == spec_sha256_digest(t.web_token@),
{
    let mp_token = generate_token(MP_TOKEN_LEN);
    let web_token = generate_token(WEB_TOKEN_LEN);
    let mp_token_hash = digest(mp_token.as_str());
    let web_token_hash = digest(web_token.as_str());
    NewTokens { mp_token, web_token, mp_token_hash, web_token_hash }
}

/// The tokens handed out by [`new_tokens`] are accepted against the digests stored with
/// them; without a stored digest no token is accepted; and one of the two tokens passes the
/// check of the other only when their digests coincide.
pub proof fn law_new_tokens_accepted(t: NewTokens, any: Seq<char>)
    requires
        t.mp_token_hash@ == spec_sha256_digest(t.mp_token@),
        t.web_token_hash@ == spec_sha256_digest(t.web_token@),
    ensures
        token_valid(Some(t.mp_token_hash@), t.mp_token@),
        token_valid(Some(t.web_token_hash@), t.web_token@),
        !token_valid(None, any),
        token_valid(Some(t.mp_token_hash@), t.web_token@) <==> spec_sha256_digest(t.web_token@)
            == spec_sha256_digest(t.mp_token@),
        token_valid(Some(t.web_token_hash@), t.mp_token@) <==> spec_sha256_digest(t.mp_token@)
            == spec_sha256_digest(t.web_token@),
{
}

/// The login and token that a request authenticates with.
pub struct AuthHeader {
    pub login: String,
    pub token: String,
}

impl AuthHeader {
    /// The header pair of a request, from its `PlayerLogin` and `Authorization` headers
    /// (each given when present and readable as text): both are needed.
    pub fn from_headers(login: Option<String>, token: Option<String>) -> (r: Result<AuthHeader, AuthError>)
        ensures
            match (login, token) {
                (Some(l), Some(t)) => r matches Ok(h) && h.login@ == l@ && h.token@ == t@,
                _ => r matches Err(AuthError::Unauthorized),
            },
    {
        match (login, token) {
            (Some(login), Some(token)) => Ok(AuthHeader { login, token }),
            _ => Err(AuthError::Unauthorized),
        }
    }
}

impl Clone for AuthHeader {
    fn clone(&self) -> (c: Self)
        ensures
            c.login@ == self.login@,
            c.token@ == self.token@,
    {
        AuthHeader { login: self.login.clone(), token: self.token.clone() }
    }
}

/// The token and login that a request body carries.
pub struct AuthFields<'a> {
    pub token: &'a str,
    pub login: &'a str,
}

/// A request body that carries a token and a login.
pub trait ExtractAuthFields {
    /// The token and the login, as texts.
    spec fn spec_auth_fields(&self) -> (Seq<char>, Seq<char>);

    fn get_auth_fields(&self) -> (r: AuthFields<'_>)
        ensures
            (r.token@, r.login@) == self.spec_auth_fields(),
    ;
}


/// Why an OAuth exchange failed.
pub enum OAuthError {
    /// A game request with this state was already received, at the given instant.
    StateAlreadyReceived(i64),
    /// The browser answered for a state on which no game request waits.
    MissingGetTokenReq,
    /// The game request found the ManiaPlanet token invalid.
    InvalidMPToken,
    /// No answer came in time.
    Timeout,
}

/// A game request waiting for the browser: the channels that join the two requests, and
/// the instant the game request came (milliseconds since the Unix epoch).
pub struct TokenState<T> {
    pub channels: T,
    pub instant: i64,
}

impl<T> TokenState<T> {
    /// The state of a game request that came at `instant`.
    pub fn new(channels: T, instant: i64) -> (s: Self)
        ensures
            s.channels == channels,
            s.instant == instant,
    {
        TokenState { channels, instant }
    }
}

/// The waiting requests of a list of entries, by state.
pub open spec fn states_map<T>(entries: Seq<(String, TokenState<T>)>) -> Map<Seq<char>, TokenState<T>>
    decreases entries.len(),
{
    if entries.len() == 0 {
        Map::empty()
    } else {
        states_map(entries.drop_last()).insert(entries.last().0@, entries.last().1)
    }
}

/// No state occurs twice among the entries.
pub open spec fn distinct_states<T>(entries: Seq<(String, TokenState<T>)>) -> bool {
    forall|i: int, j: int| 0 <= i < j < entries.len() ==> #[trigger] entries[i].0@ != #[trigger] entries[j].0@
}

proof fn lemma_states_absent<T>(entries: Seq<(String, TokenState<T>)>, k: Seq<char>)
    requires
        forall|i: int| 0 <= i < entries.len() ==> #[trigger] entries[i].0@ != k,
    ensures
        !states_map(entries).contains_key(k),
    decreases entries.len(),
{
    if entries.len() > 0 {
        let rest = entries.drop_last();
        assert forall|i: int| 0 <= i < rest.len() implies #[trigger] rest[i].0@ != k by {
            assert(rest[i] == entries[i]);
        }
        lemma_states_absent(rest, k);
        assert(entries.last() == entries[entries.len() - 1]);
    }
}

proof fn lemma_states_lookup<T>(entries: Seq<(String, TokenState<T>)>, i: int)
    requires
        distinct_states(entries),
        0 <= i < entries.len(),
    ensures
        states_map(entries).contains_key(entries[i].0@),
        states_map(entries)[entries[i].0@] == entries[i].1,
    decreases entries.len(),
{
    let rest = entries.drop_last();
    if i < entries.len() - 1 {
        assert forall|a: int, b: int| 0 <= a < b < rest.len() implies #[trigger] rest[a].0@
            != #[trigger] rest[b].0@ by {
            assert(rest[a] == entries[a] && rest[b] == entries[b]);
        }
        lemma_states_lookup(rest, i);
        assert(rest[i] == entries[i]);
        assert(entries.last() == entries[entries.len() - 1]);
        assert(entries[i].0@ != entries[entries.len() - 1].0@);
    }
}

proof fn lemma_states_remove<T>(entries: Seq<(String, TokenState<T>)>, i: int)
    requires
        distinct_states(entries),
        0 <= i < entries.len(),
    ensures
        distinct_states(entries.remove(i)),
        states_map(entries.remove(i)) == states_map(entries).remove(entries[i].0@),
    decreases entries.len(),
{
    let rest = entries.drop_last();
    let k = entries[i].0@;
    let removed = entries.remove(i);
    assert forall|a: int, b: int| 0 <= a < b < removed.len() implies #[trigger] removed[a].0@
        != #[trigger] removed[b].0@ by {
        let a2 = if a < i { a } else { a + 1 };
        let b2 = if b < i { b } else { b + 1 };
        assert(removed[a] == entries[a2] && removed[b] == entries[b2]);
    }
    assert forall|a: int, b: int| 0 <= a < b < rest.len() implies #[trigger] rest[a].0@
        != #[trigger] rest[b].0@ by {
        assert(rest[a] == entries[a] && rest[b] == entries[b]);
    }
    if i == entries.len() - 1 {
        assert(removed =~= rest);
        assert forall|j: int| 0 <= j < rest.len() implies #[trigger] rest[j].0@ != k by {
            assert(rest[j] == entries[j]);
        }
        lemma_states_absent(rest, k);
        assert(states_map(entries).remove(k) =~= states_map(rest));
    } else {
        lemma_states_remove(rest, i);
        assert(removed.drop_last() =~= rest.remove(i));
        assert(removed.last() == entries.last());
        assert(rest[i] == entries[i]);
        assert(entries.last() == entries[entries.len() - 1]);
        assert(entries[entries.len() - 1].0@ != k);
        assert(states_map(removed) =~= states_map(entries).remove(k));
    }
}

proof fn lemma_states_len<T>(entries: Seq<(String, TokenState<T>)>)
    requires
        distinct_states(entries),
    ensures
        states_map(entries).dom().finite(),
        states_map(entries).len() == entries.len(),
    decreases entries.len(),
{
    if entries.len() > 0 {
        let rest = entries.drop_last();
        assert forall|a: int, b: int| 0 <= a < b < rest.len() implies #[trigger] rest[a].0@
            != #[trigger] rest[b].0@ by {
            assert(rest[a] == entries[a] && rest[b] == entries[b]);
        }
        lemma_states_len(rest);
        assert(entries.last() == entries[entries.len() - 1]);
        assert forall|j: int| 0 <= j < rest.len() implies #[trigger] rest[j].0@ != entries.last().0@ by {
            assert(rest[j] == entries[j]);
        }
        lemma_states_absent(rest, entries.last().0@);
        assert(states_map(entries).dom() =~= states_map(rest).dom().insert(entries.last().0@));
    } else {
        assert(states_map(entries).dom() =~= Set::<Seq<char>>::empty());
    }
}

/// What a game request does to the waiting requests: it waits under its state, unless a
/// request with that state was already received, which is refused with its instant.
pub open spec fn spec_connect<T>(states: Map<Seq<char>, TokenState<T>>, state: Seq<char>, new: TokenState<T>) -> (Map<Seq<char>, TokenState<T>>, Result<(), OAuthError>) {
    if states.contains_key(state) {
        (states, Err(OAuthError::StateAlreadyReceived(states[state].instant)))
    } else {
        (states.insert(state, new), Ok(()))
    }
}

/// What the browser's answer does to the waiting requests: the request with its state stops
/// waiting and its channels are handed over; without one, the answer is refused.
pub open spec fn spec_take<T>(states: Map<Seq<char>, TokenState<T>>, state: Seq<char>) -> (Map<Seq<char>, TokenState<T>>, Result<T, OAuthError>) {
    if states.contains_key(state) {
        (states.remove(state), Ok(states[state].channels))
    } else {
        (states, Err(OAuthError::MissingGetTokenReq))
    }
}

/// The game requests waiting for the browser, by state; a state is waited on at most once.
pub struct AuthState<T> {
    token_states_map: Vec<(String, TokenState<T>)>,
}

impl<T> View for AuthState<T> {
    type V = Map<Seq<char>, TokenState<T>>;

    closed spec fn view(&self) -> Map<Seq<char>, TokenState<T>> {
        states_map(self.token_states_map@)
    }
}

impl<T> AuthState<T> {
    #[verifier::type_invariant]
    closed spec fn states_distinct(self) -> bool {
        distinct_states(self.token_states_map@)
    }

    /// No request waits.
    pub fn new() -> (s: Self)
        ensures
            s@ == Map::<Seq<char>, TokenState<T>>::empty(),
    {
        let s = AuthState { token_states_map: Vec::new() };
        assert(s@ =~= Map::<Seq<char>, TokenState<T>>::empty());
        s
    }

    /// Where the entry of `state` lies, if there is one.
    fn position(&self, state: &str) -> (r: Option<usize>)
        ensures
            match r {
                Some(i) => i < self.token_states_map@.len() && self.token_states_map@[i as int].0@
                    == state@,
                None => forall|i: int| 0 <= i < self.token_states_map@.len()
                    ==> #[trigger] self.token_states_map@[i].0@ != state@,
            },
    {
        let mut i: usize = 0;
        while i < self.token_states_map.len()
            invariant
                i <= self.token_states_map@.len(),
                forall|j: int| 0 <= j < i ==> #[trigger] self.token_states_map@[j].0@ != state@,
            decreases self.token_states_map@.len() - i,
        {
            if crate::text::text_eq(self.token_states_map[i].0.as_str(), state) {
                return Some(i);
            }
            i = i + 1;
        }
        None
    }

    /// The number of waiting requests.
    pub fn len(&self) -> (n: usize)
        ensures
            n == self@.len(),
    {
        proof {
            use_type_invariant(self);
            lemma_states_len(self.token_states_map@);
        }
        self.token_states_map.len()
    }

    /// Stops waiting on `state`.
    pub fn remove_state(&mut self, state: &str)
        ensures
            final(self)@ == old(self)@.remove(state@),
    {
        proof {
            use_type_invariant(&*self);
        }
        match self.position(state) {
            Some(i) => {
                let mut entries = Vec::new();
                std::mem::swap(&mut entries, &mut self.token_states_map);
                proof {
                    lemma_states_remove(entries@, i as int);
                }
                entries.remove(i);
                self.token_states_map = entries;
            },
            None => {
                proof {
                    lemma_states_absent(self.token_states_map@, state@);
                    assert(self@.remove(state@) =~= self@);
                }
            },
        }
    }

    /// A game request with the given state comes at `now`, with the channels on which it
    /// waits for the browser.
    pub fn connect_with_browser(&mut self, state: String, channels: T, now: i64) -> (r: Result<(), OAuthError>)
        ensures
            (final(self)@, r) == spec_connect(old(self)@, state@, TokenState { channels, instant: now }),
    {
        proof {
            use_type_invariant(&*self);
        }
        match self.position(state.as_str()) {
            Some(i) => {
                proof {
                    lemma_states_lookup(self.token_states_map@, i as int);
                }
                Err(OAuthError::StateAlreadyReceived(self.token_states_map[i].1.instant))
            },
            None => {
                proof {
                    lemma_states_absent(self.token_states_map@, state@);
                }
                let mut entries = Vec::new();
                std::mem::swap(&mut entries, &mut self.token_states_map);
                let ghost before = entries@;
                let ghost key = state@;
                entries.push((state, TokenState::new(channels, now)));
                proof {
                    assert(entries@.drop_last() =~= before);
                    assert forall|a: int, b: int| 0 <= a < b < entries@.len() implies #[trigger] entries@[a].0@
                        != #[trigger] entries@[b].0@ by {
                        if b == entries@.len() - 1 {
                            assert(entries@[a] == before[a]);
                        } else {
                            assert(entries@[a] == before[a] && entries@[b] == before[b]);
                        }
                    }
                }
                self.token_states_map = entries;
                Ok(())
            },
        }
    }

    /// The browser answers for `state`: the game request waiting on it stops waiting and its
    /// channels are handed over.
    pub fn take_state(&mut self, state: &str) -> (r: Result<T, OAuthError>)
        ensures
            (final(self)@, r) == spec_take(old(self)@, state@),
    {
        proof {
            use_type_invariant(&*self);
        }
        match self.position(state) {
            Some(i) => {
                let mut entries = Vec::new();
                std::mem::swap(&mut entries, &mut self.token_states_map);
                proof {
                    lemma_states_lookup(entries@, i as int);
                    lemma_states_remove(entries@, i as int);
                }
                let (_, waiting) = entries.remove(i);
                self.token_states_map = entries;
                Ok(waiting.channels)
            },
            None => {
                proof {
                    lemma_states_absent(self.token_states_map@, state@);
                }
                Err(OAuthError::MissingGetTokenReq)
            },
        }
    }
}

/// What the browser's request answers, given what the game request sent back on its channel
/// (nothing when the wait timed out or the game request was dropped).
pub fn browser_answer(answer: Option<Message>) -> (r: Result<WebToken, OAuthError>)
    requires
        !(answer matches Some(Message::MPAccessToken(_))),
    ensures
        match answer {
            Some(Message::Granted(t)) => r matches Ok(w) && w.login@ == t.login@ && w.token@ == t.token@,
            Some(Message::InvalidMPToken) => r matches Err(OAuthError::InvalidMPToken),
            _ => r matches Err(OAuthError::Timeout),
        },
{
    match answer {
        Some(Message::Granted(t)) => Ok(t),
        Some(Message::InvalidMPToken) => Err(OAuthError::InvalidMPToken),
        _ => Err(OAuthError::Timeout),
    }
}

/// A state is waited on once: a second game request with it is refused with the instant of
/// the first, the browser's answer hands over the first request's channels, and a second
/// answer for the same state finds no request.
pub proof fn law_state_used_once<T>(
    states: Map<Seq<char>, TokenState<T>>,
    state: Seq<char>,
    first: TokenState<T>,
    second: TokenState<T>,
)
    requires
        !states.contains_key(state),
    ensures
        spec_connect(states, state, first).1 == Ok::<(), OAuthError>(()),
        spec_connect(spec_connect(states, state, first).0, state, second) == (
            spec_connect(states, state, first).0,
            Err::<(), OAuthError>(OAuthError::StateAlreadyReceived(first.instant)),
        ),
        spec_take(spec_connect(states, state, first).0, state) == (
            states,
            Ok::<T, OAuthError>(first.channels),
        ),
        spec_take(states, state).1 == Err::<T, OAuthError>(OAuthError::MissingGetTokenReq),
{
    assert(states.insert(state, first).remove(state) =~= states);
}

} // verus!
