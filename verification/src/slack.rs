//! The lookup of a Slack member or channel: what to ask, and what the answer
//! means.

use vstd::prelude::*;
use crate::json::{
    as_bool, as_text, json_bool, json_document, json_member, json_text, member, parse_json,
};
use crate::outcome::{CheckOutcome, Inconclusive, Outcome, Reason};
use crate::request::{user_agent, user_agent_text, HttpRequest, LookupReply, RequestView};

verus! {

/// The two lookups that Slack offers.
#[derive(Clone, Copy, Debug, PartialEq, Eq, Structural)]
pub enum SlackLookup {
    /// Of a member, for ids that start with `U`.
    User,
    /// Of a channel, for ids that start with `C` or `G`.
    Channel,
}

/// The lookup that the first character of `id` selects, if it selects one.
pub open spec fn slack_lookup(id: Seq<char>) -> Option<SlackLookup> {
    if id.len() > 0 && id[0] == 'U' {
        Some(SlackLookup::User)
    } else if id.len() > 0 && (id[0] == 'C' || id[0] == 'G') {
        Some(SlackLookup::Channel)
    } else {
        None
    }
}

/// The address of a lookup.
pub open spec fn slack_endpoint(lookup: SlackLookup) -> Seq<char> {
    match lookup {
        SlackLookup::User => "https://slack.com/api/users.info"@,
        SlackLookup::Channel => "https://slack.com/api/conversations.info"@,
    }
}

/// The name of the query parameter that carries the id.
pub open spec fn slack_parameter(lookup: SlackLookup) -> Seq<char> {
    match lookup {
        SlackLookup::User => "user"@,
        SlackLookup::Channel => "channel"@,
    }
}

/// What to do about the Slack id `id`: with no token, nothing can be asked;
/// an id that selects no lookup is malformed; else the request to send.
pub open spec fn slack_plan(id: Seq<char>, token: Seq<char>) -> Result<RequestView, Reason> {
    if token.len() == 0 {
        Err(Reason::MissingToken)
    } else {
        match slack_lookup(id) {
            None => Err(Reason::MalformedId(id)),
            Some(lookup) => Ok(
                RequestView {
                    url: slack_endpoint(lookup),
                    query: Some((slack_parameter(lookup), id)),
                    user_agent: user_agent(),
                    bearer_token: Some(token),
                },
            ),
        }
    }
}

/// The plan as plain values.
pub open spec fn plan_view(plan: Result<HttpRequest, Inconclusive>) -> Result<RequestView, Reason> {
    match plan {
        Ok(request) => Ok(request@),
        Err(reason) => Err(reason@),
    }
}

/// Decides what to do about the Slack id `slack_id`. An empty `token` stands
/// for no token. Where the result is an error, the lookup is settled as
/// unknown for that reason and nothing is sent.
pub fn slack_request(slack_id: &str, token: &str) -> (plan: Result<HttpRequest, Inconclusive>)
    ensures
        plan_view(plan) == slack_plan(slack_id@, token@),
{
    if token.is_empty() {
        return Err(Inconclusive::MissingToken);
    }
    let first: Option<char> = if slack_id.unicode_len() > 0 {
        Some(slack_id.get_char(0))
    } else {
        None
    };
    let lookup = match first {
        Some('U') => Some(SlackLookup::User),
        Some('C') => Some(SlackLookup::Channel),
        Some('G') => Some(SlackLookup::Channel),
        _ => None,
    };
    match lookup {
        None => Err(Inconclusive::MalformedId(String::from_str(slack_id))),
        Some(SlackLookup::User) => Ok(
            HttpRequest {
                url: String::from_str("https://slack.com/api/users.info"),
                query: Some((String::from_str("user"), String::from_str(slack_id))),
                user_agent: user_agent_text(),
                bearer_token: Some(String::from_str(token)),
            },
        ),
        Some(SlackLookup::Channel) => Ok(
            HttpRequest {
                url: String::from_str("https://slack.com/api/conversations.info"),
                query: Some((String::from_str("channel"), String::from_str(slack_id))),
                user_agent: user_agent_text(),
                bearer_token: Some(String::from_str(token)),
            },
        ),
    }
}

/// What an error code of Slack means for the identity asked about.
pub open spec fn slack_error_outcome(code: Seq<char>) -> Outcome {
    if code == "user_not_found"@ || code == "channel_not_found"@ {
        Outcome::Absent
    } else if code == "ratelimited"@ {
        Outcome::Unknown(Reason::RateLimited)
    } else if code == "invalid_auth"@ {
        Outcome::Unknown(Reason::InvalidAuth)
    } else {
        Outcome::Unknown(Reason::ServiceError(code))
    }
}

/// What Slack's answer means, given its success flag and its error code as
/// far as the answer holds them.
pub open spec fn slack_reply_outcome(ok: Option<bool>, error: Option<Seq<char>>) -> Outcome {
    match ok {
        Some(true) => Outcome::Exists,
        Some(false) => match error {
            Some(code) => slack_error_outcome(code),
            None => Outcome::Unknown(Reason::UnexpectedResponse),
        },
        None => Outcome::Unknown(Reason::UnexpectedResponse),
    }
}

/// The text of an optional string.
pub open spec fn text_of(text: Option<&str>) -> Option<Seq<char>> {
    match text {
        Some(inner) => Some(inner@),
        None => None,
    }
}

fn same_text(left: &str, right: &str) -> (same: bool)
    ensures
        same == (left@ == right@),
{
    String::from_str(left) == String::from_str(right)
}

/// Classifies Slack's answer from its success flag `ok` and its error code
/// `error`, each absent where the answer does not hold it in the expected
/// form. Success confirms the identity; `user_not_found` and
/// `channel_not_found` confirm that there is none; everything else settles
/// nothing.
pub fn classify_slack_reply(ok: Option<bool>, error: Option<&str>) -> (outcome: CheckOutcome)
    ensures
        outcome@ == slack_reply_outcome(ok, text_of(error)),
{
    match ok {
        Some(true) => CheckOutcome::Exists,
        Some(false) => match error {
            Some(code) => {
                if same_text(code, "user_not_found") || same_text(code, "channel_not_found") {
                    CheckOutcome::Absent
                } else if same_text(code, "ratelimited") {
                    CheckOutcome::Unknown(Inconclusive::RateLimited)
                } else if same_text(code, "invalid_auth") {
                    CheckOutcome::Unknown(Inconclusive::InvalidAuth)
                } else {
                    CheckOutcome::Unknown(Inconclusive::ServiceError(String::from_str(code)))
                }
            },
            None => CheckOutcome::Unknown(Inconclusive::UnexpectedResponse),
        },
        None => CheckOutcome::Unknown(Inconclusive::UnexpectedResponse),
    }
}

/// The truth value of the member `key` of `value`, if it has such a member
/// and that is a truth value.
pub open spec fn member_bool(value: serde_json::Value, key: Seq<char>) -> Option<bool> {
    match json_member(value, key) {
        Some(inner) => json_bool(inner),
        None => None,
    }
}

/// The text of the member `key` of `value`, if it has such a member and that
/// is a text.
pub open spec fn member_text(value: serde_json::Value, key: Seq<char>) -> Option<Seq<char>> {
    match json_member(value, key) {
        Some(inner) => json_text(inner),
        None => None,
    }
}

/// What the body of Slack's answer means: a body that is not JSON settles
/// nothing; of one that is, the members `ok` and `error` decide.
pub open spec fn slack_body_outcome(body: Seq<u8>) -> Outcome {
    match json_document(body) {
        None => Outcome::Unknown(Reason::UndecodableBody),
        Some(value) => slack_reply_outcome(member_bool(value, "ok"@), member_text(value, "error"@)),
    }
}

/// Classifies the body of Slack's answer. Slack answers every request with
/// the HTTP status 200 and says in the body what came of it.
pub fn check_slack_body(body: &[u8]) -> (outcome: CheckOutcome)
    ensures
        outcome@ == slack_body_outcome(body@),
{
    match parse_json(body) {
        Err(_) => CheckOutcome::Unknown(Inconclusive::UndecodableBody),
        Ok(value) => {
            let ok: Option<bool> = match member(&value, "ok") {
                Some(inner) => as_bool(inner),
                None => None,
            };
            let error: Option<&str> = match member(&value, "error") {
                Some(inner) => as_text(inner),
                None => None,
            };
            classify_slack_reply(ok, error)
        },
    }
}

/// What a reply means for the identity asked about: the body of an answer
/// decides, whatever its status, and a failed request settles nothing.
pub open spec fn slack_reply_meaning(reply: LookupReply) -> Outcome {
    match reply {
        LookupReply::Answer { status, body } => slack_body_outcome(body@),
        LookupReply::Failed(words) => Outcome::Unknown(Reason::Unreachable(words@)),
    }
}

/// Settles one lookup at Slack from what came back. A failed request settles
/// nothing and is an outcome like any other.
pub fn check_slack_id_exists(reply: &LookupReply) -> (outcome: CheckOutcome)
    ensures
        outcome@ == slack_reply_meaning(*reply),
{
    match reply {
        LookupReply::Answer { status, body } => check_slack_body(body.as_slice()),
        LookupReply::Failed(words) => CheckOutcome::Unknown(
            Inconclusive::Unreachable(words.clone()),
        ),
    }
}

} // verus!
