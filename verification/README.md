# game_api

The verified core of the ShootMania Obstacle records API, written in Verus.

`src/` holds the decisions of the API that do not depend on its databases, each with a
contract that Verus proves:

- `request_filter`, `api_filter`: the grammars of the `User-Agent` header sent by the game
  and by the website, the filters that accept supported clients, and the printing of the
  head of an invalid request.
- `auth`: token digests, the checks of a player's access, and the OAuth states that join
  the game's request for a token to the browser's.
- `finish_lock`: the maps whose finishes are being saved.
- `player`, `player_finished`, `rating`, `overview`, `event`, `graphql`, `queries`, `pb`,
  `map`: what a finish changes, which rates are accepted, which rows of a leaderboard the
  overview shows, how an event edition is laid out by category, global identifiers and
  roles, a player's ranks on a mappack, personal bests, and the SQL texts built per request.
- `report`, `xml`: the Discord messages and the XML replies.
- `text`, `numbers`, `escaped`, `utils`: text building, decimal numbers, HTML escaping.

Calls into outside crates (`sha256`, `rand`, `itertools`) and a few standard functions sit
behind `#[verifier::external_body]` functions whose contracts state what those functions
are documented to do.

`tests/` runs the library on concrete values. `app/` is ordinary Rust around the library:
the JSON forms of the request bodies and webhook messages, the actix-web middleware that
flags invalid requests, and the shared state of the finish lock and of the OAuth exchange.
