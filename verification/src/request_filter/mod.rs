//! Filters on the `User-Agent` header of incoming requests.
pub mod agent;
pub mod grammar;
pub mod ingame;
pub mod website;

pub use ingame::InGameFilter;
pub use website::WebsiteFilter;

use vstd::prelude::*;

verus! {

/// A kind of client whose requests are recognised by their `User-Agent` header.
pub trait FilterAgent {
    /// The parsed header; each kind also reads it from the header's bytes with `TryFrom`.
    type AgentType: Clone;

    /// Whether a parsed header belongs to a supported client.
    spec fn spec_is_valid(agent: &Self::AgentType) -> bool;

    /// Whether a parsed header belongs to a supported client.
    fn is_valid(agent: &Self::AgentType) -> (r: bool)
        ensures
            r == Self::spec_is_valid(agent),
    ;
}

/// The agent recognised by a filter for the request being served, if any.
pub struct CurrentUserAgent<F: FilterAgent> {
    pub user_agent: Option<<F as FilterAgent>::AgentType>,
}

impl<F: FilterAgent> Clone for CurrentUserAgent<F> {
    fn clone(&self) -> (c: Self)
        ensures
            self.user_agent is None ==> c.user_agent is None,
            self.user_agent is Some ==> c.user_agent is Some && cloned::<F::AgentType>(
                self.user_agent->0,
                c.user_agent->0,
            ),
    {
        CurrentUserAgent { user_agent: self.user_agent.clone() }
    }
}

/// Keeps a parsed agent only if the filter accepts it.
pub fn filter_agent<F: FilterAgent>(parsed: Option<F::AgentType>) -> (r: Option<F::AgentType>)
    ensures
        r == (match parsed {
            Some(agent) => if F::spec_is_valid(&agent) {
                Some(agent)
            } else {
                None
            },
            None => None,
        }),
{
    match parsed {
        Some(agent) => {
            if F::is_valid(&agent) {
                Some(agent)
            } else {
                None
            }
        },
        None => None,
    }
}

/// Whether a served request is reported as invalid: it had no valid agent (so its
/// details were kept), its answer is not a 404, and no earlier pass reported it.
pub fn should_report(kept_for_report: bool, is_not_found: bool, already_flagged: bool) -> (r: bool)
    ensures
        r == (kept_for_report && !is_not_found && !already_flagged),
{
    kept_for_report && !is_not_found && !already_flagged
}

/// The URL of the webhook that invalid requests are reported to; it is set once.
pub struct WebhookUrl {
    url: Option<String>,
}

impl View for WebhookUrl {
    type V = Option<Seq<char>>;

    closed spec fn view(&self) -> Option<Seq<char>> {
        match self.url {
            Some(u) => Some(u@),
            None => None,
        }
    }
}

impl WebhookUrl {
    /// No URL is set yet.
    pub fn new() -> (w: Self)
        ensures
            w@ is None,
    {
        WebhookUrl { url: None }
    }
}

/// The URL held after an attempt to set it: the first one set stays.
pub open spec fn spec_after_init(cell: Option<Seq<char>>, url: Seq<char>) -> Option<Seq<char>> {
    match cell {
        Some(u) => Some(u),
        None => Some(url),
    }
}

/// The URL read from the cell: the one set, or an empty text.
pub open spec fn spec_read_url(cell: Option<Seq<char>>) -> Seq<char> {
    match cell {
        Some(u) => u,
        None => Seq::<char>::empty(),
    }
}

/// Sets the webhook URL, once: a second call gives its URL back and changes nothing.
pub fn init_wh_url(cell: &mut WebhookUrl, url: String) -> (r: Result<(), String>)
    ensures
        final(cell)@ == spec_after_init(old(cell)@, url@),
        r is Ok <==> old(cell)@ is None,
        r matches Err(u) ==> u@ == url@,
{
    if cell.url.is_some() {
        Err(url)
    } else {
        cell.url = Some(url);
        Ok(())
    }
}

/// The webhook URL, or an empty text when it was not set.
pub fn wh_url(cell: &WebhookUrl) -> (u: &str)
    ensures
        u@ == spec_read_url(cell@),
{
    match &cell.url {
        Some(url) => url.as_str(),
        None => {
            proof {
                reveal_strlit("");
            }
            ""
        },
    }
}

/// The URL set first is the one read back, whatever is set after it; before any is set,
/// the URL read is empty.
pub proof fn law_webhook_url_set_once(first: Seq<char>, second: Seq<char>)
    ensures
        spec_read_url(spec_after_init(None, first)) == first,
        spec_read_url(spec_after_init(spec_after_init(None, first), second)) == first,
        spec_read_url(None) == Seq::<char>::empty(),
{
}

} // verus!
