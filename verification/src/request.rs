//! The requests that the lookups send.

use vstd::prelude::*;

verus! {

/// A GET request as plain values.
pub struct RequestView {
    pub url: Seq<char>,
    pub query: Option<(Seq<char>, Seq<char>)>,
    pub user_agent: Seq<char>,
    pub bearer_token: Option<Seq<char>>,
}

/// A GET request, ready to be sent.
#[derive(Debug, PartialEq, Eq)]
pub struct HttpRequest {
    /// Where to send it, without the query.
    pub url: String,
    /// The one query parameter, if there is one: its name and its value,
    /// not yet encoded.
    pub query: Option<(String, String)>,
    /// The value of the `User-Agent` header.
    pub user_agent: String,
    /// The token of the `Authorization: Bearer` header, if one is sent.
    pub bearer_token: Option<String>,
}

impl View for HttpRequest {
    type V = RequestView;

    open spec fn view(&self) -> RequestView {
        RequestView {
            url: self.url@,
            query: match self.query {
                Some(pair) => Some((pair.0@, pair.1@)),
                None => None,
            },
            user_agent: self.user_agent@,
            bearer_token: match self.bearer_token {
                Some(token) => Some(token@),
                None => None,
            },
        }
    }
}

/// What came back for a request: an answer with its HTTP status and its body,
/// or the words of the failure that kept an answer from coming.
#[derive(Debug)]
pub enum LookupReply {
    Answer { status: u16, body: Vec<u8> },
    Failed(String),
}

/// The name under which the validator introduces itself to both services.
pub open spec fn user_agent() -> Seq<char> {
    "ScottyLabs-Governance-Validator"@
}

/// Writes the validator's `User-Agent`.
pub fn user_agent_text() -> (text: String)
    ensures
        text@ == user_agent(),
{
    String::from_str("ScottyLabs-Governance-Validator")
}

} // verus!
