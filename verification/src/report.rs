//! The Discord messages that report errors and suspicious requests.
use vstd::prelude::*;

use crate::text::{fence_text, fenced, i32_to_text, push_str, signed_decimal, to_text};

verus! {

/// The embed colour of ordinary reports.
pub const REPORT_COLOR: u32 = 5814783;

/// The embed colour of reports of failed finishes.
pub const FINISH_ERROR_COLOR: u32 = 11862016;

/// A named value in an embed.
pub struct EmbedField {
    pub name: String,
    pub value: String,
    pub inline: Option<bool>,
}

/// A field as plain values.
pub type FieldView = (Seq<char>, Seq<char>, Option<bool>);

impl EmbedField {
    pub open spec fn view_of(&self) -> FieldView {
        (self.name@, self.value@, self.inline)
    }
}

/// The fields as plain values.
pub open spec fn fields_view(fields: Seq<EmbedField>) -> Seq<FieldView> {
    fields.map_values(|f: EmbedField| f.view_of())
}

/// A block of a message.
pub struct Embed {
    pub title: String,
    pub description: Option<String>,
    pub color: u32,
    pub url: Option<String>,
    pub fields: Option<Vec<EmbedField>>,
}

/// A message posted to a webhook.
pub struct WebhookMessage {
    pub content: String,
    pub embeds: Vec<Embed>,
}

/// A field without the `inline` flag.
fn field(name: &str, value: String) -> (f: EmbedField)
    ensures
        f.view_of() == (name@, value@, None::<bool>),
{
    EmbedField { name: to_text(name), value, inline: None }
}

/// The HTTP methods of the API.
#[derive(Clone, Copy, PartialEq, Eq, Structural)]
pub enum HttpMethod {
    Get,
    Post,
}

impl HttpMethod {
    pub open spec fn spec_text(self) -> Seq<char> {
        match self {
            HttpMethod::Get => "GET"@,
            HttpMethod::Post => "POST"@,
        }
    }

    /// The method's name in upper case, as HTTP writes it.
    pub fn to_text(&self) -> (s: String)
        ensures
            s@ == self.spec_text(),
    {
        match self {
            HttpMethod::Get => to_text("GET"),
            HttpMethod::Post => to_text("POST"),
        }
    }
}

/// An error that the game mode reports.
pub struct ReportErrorBody {
    pub method: HttpMethod,
    pub route: String,
    pub body: String,
    pub player_login: String,
    pub status_code: i32,
    pub error: String,
}

/// The context fields of an error report: the method and the route, then the player's
/// login and the request body when they are not empty.
pub open spec fn spec_report_fields(b: ReportErrorBody) -> Seq<FieldView> {
    let base = seq![
        ("HTTP method"@, b.method.spec_text(), None::<bool>),
        ("API route"@, fenced("`"@, b.route@), None::<bool>),
    ];
    let with_login = if b.player_login@.len() > 0 {
        base.push(("Player login"@, fenced("`"@, b.player_login@), None::<bool>))
    } else {
        base
    };
    if b.body@.len() > 0 {
        with_login.push(("Request body"@, fenced("```"@, b.body@), None::<bool>))
    } else {
        with_login
    }
}

impl ReportErrorBody {
    /// The message that reports the error, for the game mode of the given version.
    pub fn report(&self, mode_version: &str) -> (m: WebhookMessage)
        ensures
            m.content@ == "Error reported (mode version: "@ + mode_version@ + ")"@,
            m.embeds@.len() == 2,
            m.embeds@[0].title@ == "Error"@,
            m.embeds@[0].description matches Some(d) && d@ == fenced("```"@, self.error@),
            m.embeds@[0].color == REPORT_COLOR,
            m.embeds@[0].url is None,
            m.embeds@[0].fields matches Some(f) && fields_view(f@) == seq![
                ("Status code"@, signed_decimal(self.status_code as int), None::<bool>),
            ],
            m.embeds@[1].title@ == "Context"@,
            m.embeds@[1].description is None,
            m.embeds@[1].color == REPORT_COLOR,
            m.embeds@[1].url is None,
            m.embeds@[1].fields matches Some(f) && fields_view(f@) == spec_report_fields(*self),
    {
        let mut fields: Vec<EmbedField> = Vec::new();
        fields.push(field("HTTP method", self.method.to_text()));
        fields.push(field("API route", fence_text("`", self.route.as_str())));
        if self.player_login.as_str().unicode_len() > 0 {
            fields.push(field("Player login", fence_text("`", self.player_login.as_str())));
        }
        if self.body.as_str().unicode_len() > 0 {
            fields.push(field("Request body", fence_text("```", self.body.as_str())));
        }
        assert(fields_view(fields@) =~= spec_report_fields(*self));
        let mut content = String::new();
        push_str(&mut content, "Error reported (mode version: ");
        push_str(&mut content, mode_version);
        push_str(&mut content, ")");
        let mut status: Vec<EmbedField> = Vec::new();
        status.push(field("Status code", i32_to_text(self.status_code)));
        assert(fields_view(status@) =~= seq![
            ("Status code"@, signed_decimal(self.status_code as int), None::<bool>),
        ]);
        let mut embeds: Vec<Embed> = Vec::new();
        embeds.push(
            Embed {
                title: to_text("Error"),
                description: Some(fence_text("```", self.error.as_str())),
                color: REPORT_COLOR,
                fields: Some(status),
                url: None,
            },
        );
        embeds.push(
            Embed {
                title: to_text("Context"),
                description: None,
                color: REPORT_COLOR,
                fields: Some(fields),
                url: None,
            },
        );
        WebhookMessage { content, embeds }
    }
}

/// An error that a player met while playing, reported by the game mode.
pub struct PlayerReportErrorBody {
    pub on_route: String,
    pub request_id: String,
    pub map_uid: String,
    pub err_type: i32,
    pub err_msg: String,
    pub time: i32,
    pub respawn_count: i32,
}

/// The route of finishes, whose errors are reported with the run.
pub open spec fn finished_route() -> Seq<char> {
    "/player/finished"@
}

/// The context fields of a player's report: the map, the route and the request, then the
/// run's time and respawns for an error on a finish.
pub open spec fn spec_player_report_fields(b: PlayerReportErrorBody) -> Seq<FieldView> {
    let base = seq![
        ("Map UID"@, fenced("`"@, b.map_uid@), None::<bool>),
        ("When called this API route"@, fenced("`"@, b.on_route@), None::<bool>),
        ("Request ID"@, fenced("`"@, b.request_id@), None::<bool>),
    ];
    if b.on_route@ == finished_route() {
        base + seq![
            ("Run time"@, fenced("`"@, signed_decimal(b.time as int)), None::<bool>),
            ("Respawn count"@, fenced("`"@, signed_decimal(b.respawn_count as int)), None::<bool>),
        ]
    } else {
        base
    }
}

/// Writes `text` between backquotes.
fn quoted(text: &str) -> (s: String)
    ensures
        s@ == fenced("`"@, text@),
{
    fence_text("`", text)
}

impl PlayerReportErrorBody {
    /// The message that reports the error met by the player with the given login.
    pub fn report(&self, login: &str) -> (m: WebhookMessage)
        ensures
            m.content@ == (if self.on_route@ == finished_route() {
                "🚨 Player `"@ + login@ + "` finished a map but got an error."@
            } else {
                "⚠️ Player `"@ + login@ + "` got an error while playing."@
            }),
            m.embeds@.len() == 2,
            m.embeds@[0].title@ == "Error type "@ + signed_decimal(self.err_type as int),
            m.embeds@[0].description matches Some(d) && d@ == fenced("`"@, self.err_msg@),
            m.embeds@[0].fields is None,
            m.embeds@[0].url is None,
            m.embeds@[1].title@ == "Context"@,
            m.embeds@[1].description is None,
            m.embeds@[1].url is None,
            m.embeds@[1].fields matches Some(f) && fields_view(f@) == spec_player_report_fields(
                *self,
            ),
            m.embeds@[0].color == m.embeds@[1].color,
            m.embeds@[0].color == (if self.on_route@ == finished_route() {
                FINISH_ERROR_COLOR
            } else {
                REPORT_COLOR
            }),
    {
        let mut fields: Vec<EmbedField> = Vec::new();
        fields.push(field("Map UID", quoted(self.map_uid.as_str())));
        fields.push(field("When called this API route", quoted(self.on_route.as_str())));
        fields.push(field("Request ID", quoted(self.request_id.as_str())));
        let on_finish = crate::text::text_eq(self.on_route.as_str(), "/player/finished");
        let mut content = String::new();
        let color = if on_finish {
            let t = i32_to_text(self.time);
            let r = i32_to_text(self.respawn_count);
            fields.push(field("Run time", quoted(t.as_str())));
            fields.push(field("Respawn count", quoted(r.as_str())));
            push_str(&mut content, "🚨 Player `");
            push_str(&mut content, login);
            push_str(&mut content, "` finished a map but got an error.");
            FINISH_ERROR_COLOR
        } else {
            push_str(&mut content, "⚠️ Player `");
            push_str(&mut content, login);
            push_str(&mut content, "` got an error while playing.");
            REPORT_COLOR
        };
        assert(fields_view(fields@) =~= spec_player_report_fields(*self));
        let mut title = String::new();
        push_str(&mut title, "Error type ");
        let code = i32_to_text(self.err_type);
        push_str(&mut title, code.as_str());
        let mut embeds: Vec<Embed> = Vec::new();
        embeds.push(
            Embed {
                title,
                description: Some(quoted(self.err_msg.as_str())),
                color,
                fields: None,
                url: None,
            },
        );
        embeds.push(
            Embed {
                title: to_text("Context"),
                description: None,
                color,
                fields: Some(fields),
                url: None,
            },
        );
        WebhookMessage { content, embeds }
    }
}

/// A finish reported by the anticheat.
pub struct ACBody {
    pub run_time: String,
    pub map_name: String,
    pub map_uid: String,
    pub cp_times: String,
    pub player_field: String,
    pub server_text: String,
    pub irl_time_passed: String,
    pub discrepancy: String,
    pub discrepancy_ratio: String,
    pub ac_version: String,
}

impl ACBody {
    /// The message that reports the finish: the map, linked to its page, with the
    /// checkpoint times and the anticheat's findings.
    pub fn report(self) -> (m: WebhookMessage)
        ensures
            m.content@ == "Map has been finished in "@ + self.run_time@,
            m.embeds@.len() == 1,
            m.embeds@[0].title@ == self.map_name@,
            m.embeds@[0].description matches Some(d) && d@ == self.cp_times@,
            m.embeds@[0].color == REPORT_COLOR,
            m.embeds@[0].url matches Some(u) && u@ == "https://obstacle.titlepack.io/map/"@
                + self.map_uid@,
            m.embeds@[0].fields matches Some(f) && fields_view(f@) == seq![
                ("Player"@, self.player_field@, None::<bool>),
                ("Server"@, self.server_text@, None::<bool>),
                ("IRL time elapsed"@, self.irl_time_passed@, Some(true)),
                ("Discrepancy"@, self.discrepancy@, Some(true)),
                ("Discrepancy ratio"@, self.discrepancy_ratio@, None::<bool>),
                ("Anticheat version"@, self.ac_version@, None::<bool>),
            ],
    {
        let mut content = String::new();
        push_str(&mut content, "Map has been finished in ");
        push_str(&mut content, self.run_time.as_str());
        let mut url = String::new();
        push_str(&mut url, "https://obstacle.titlepack.io/map/");
        push_str(&mut url, self.map_uid.as_str());
        let mut fields: Vec<EmbedField> = Vec::new();
        fields.push(field("Player", self.player_field));
        fields.push(field("Server", self.server_text));
        fields.push(EmbedField { name: to_text("IRL time elapsed"), value: self.irl_time_passed, inline: Some(true) });
        fields.push(EmbedField { name: to_text("Discrepancy"), value: self.discrepancy, inline: Some(true) });
        fields.push(field("Discrepancy ratio", self.discrepancy_ratio));
        fields.push(field("Anticheat version", self.ac_version));
        assert(fields_view(fields@) =~= seq![
            ("Player"@, self.player_field@, None::<bool>),
            ("Server"@, self.server_text@, None::<bool>),
            ("IRL time elapsed"@, self.irl_time_passed@, Some(true)),
            ("Discrepancy"@, self.discrepancy@, Some(true)),
            ("Discrepancy ratio"@, self.discrepancy_ratio@, None::<bool>),
            ("Anticheat version"@, self.ac_version@, None::<bool>),
        ]);
        let mut embeds: Vec<Embed> = Vec::new();
        embeds.push(
            Embed {
                title: self.map_name,
                description: Some(self.cp_times),
                color: REPORT_COLOR,
                url: Some(url),
                fields: Some(fields),
            },
        );
        WebhookMessage { content, embeds }
    }
}

/// What is known of the connection of a request.
pub struct ConnectionInfo {
    pub host: String,
    pub peer_addr: Option<String>,
    pub realip_remote_addr: Option<String>,
    pub scheme: String,
}

/// A known address, or `Unknown`.
pub open spec fn or_unknown(addr: Option<String>) -> Seq<char> {
    match addr {
        Some(a) => a@,
        None => "Unknown"@,
    }
}

fn text_or_unknown(addr: Option<String>) -> (s: String)
    ensures
        s@ == or_unknown(addr),
{
    match addr {
        Some(a) => a,
        None => to_text("Unknown"),
    }
}

/// The message that reports an invalid request, given its head already written in a code
/// block and its connection.
pub fn invalid_request_report(head_block: String, connection: ConnectionInfo) -> (m: WebhookMessage)
    ensures
        m.content@ == "Got an invalid request 🥷"@,
        m.embeds@.len() == 2,
        m.embeds@[0].title@ == "Request"@,
        m.embeds@[0].description is None,
        m.embeds@[0].color == REPORT_COLOR,
        m.embeds@[0].url is None,
        m.embeds@[0].fields matches Some(f) && fields_view(f@) == seq![
            ("Head"@, head_block@, None::<bool>),
        ],
        m.embeds@[1].title@ == "Connection info"@,
        m.embeds@[1].description is None,
        m.embeds@[1].color == REPORT_COLOR,
        m.embeds@[1].url is None,
        m.embeds@[1].fields matches Some(f) && fields_view(f@) == seq![
            ("Host"@, connection.host@, None::<bool>),
            ("Peer address"@, or_unknown(connection.peer_addr), None::<bool>),
            ("Real IP remote address"@, or_unknown(connection.realip_remote_addr), None::<bool>),
            ("Scheme"@, connection.scheme@, None::<bool>),
        ],
{
    let ghost conn = connection;
    let mut head: Vec<EmbedField> = Vec::new();
    head.push(field("Head", head_block));
    let mut info: Vec<EmbedField> = Vec::new();
    info.push(field("Host", connection.host));
    info.push(field("Peer address", text_or_unknown(connection.peer_addr)));
    info.push(field("Real IP remote address", text_or_unknown(connection.realip_remote_addr)));
    info.push(field("Scheme", connection.scheme));
    assert(fields_view(head@) =~= seq![("Head"@, head@[0].value@, None::<bool>)]);
    assert(fields_view(info@) =~= seq![
        ("Host"@, conn.host@, None::<bool>),
        ("Peer address"@, or_unknown(conn.peer_addr), None::<bool>),
        ("Real IP remote address"@, or_unknown(conn.realip_remote_addr), None::<bool>),
        ("Scheme"@, conn.scheme@, None::<bool>),
    ]);
    let mut embeds: Vec<Embed> = Vec::new();
    embeds.push(
        Embed {
            title: to_text("Request"),
            description: None,
            color: REPORT_COLOR,
            fields: Some(head),
            url: None,
        },
    );
    embeds.push(
        Embed {
            title: to_text("Connection info"),
            description: None,
            color: REPORT_COLOR,
            fields: Some(info),
            url: None,
        },
    );
    WebhookMessage { content: to_text("Got an invalid request 🥷"), embeds }
}

} // verus!
