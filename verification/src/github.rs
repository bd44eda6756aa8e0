//! The lookup of a GitHub user: what to ask, and what the answer means.

use vstd::prelude::*;
use crate::outcome::{CheckOutcome, Inconclusive, Outcome, Reason};
use crate::request::{user_agent, user_agent_text, HttpRequest, LookupReply, RequestView};
use crate::text::join2;

verus! {

/// The address of GitHub's record of the user `username`.
pub open spec fn github_user_url(username: Seq<char>) -> Seq<char> {
    "https://api.github.com/users/"@ + username
}

/// The request that asks GitHub for `username`, with the token if there is
/// one.
pub open spec fn github_lookup(username: Seq<char>, token: Seq<char>) -> RequestView {
    RequestView {
        url: github_user_url(username),
        query: None,
        user_agent: user_agent(),
        bearer_token: if token.len() == 0 {
            None
        } else {
            Some(token)
        },
    }
}

/// The request that asks GitHub for the user `username`. An empty `token`
/// stands for no token: the request then goes out without authorisation.
pub fn github_request(username: &str, token: &str) -> (request: HttpRequest)
    ensures
        request@ == github_lookup(username@, token@),
{
    let bearer_token = if token.is_empty() {
        None
    } else {
        Some(String::from_str(token))
    };
    HttpRequest {
        url: join2("https://api.github.com/users/", username),
        query: None,
        user_agent: user_agent_text(),
        bearer_token,
    }
}

/// What an HTTP status of GitHub's answer means for the user asked about.
pub open spec fn github_outcome(status: u16) -> Outcome {
    if status == 200 {
        Outcome::Exists
    } else if status == 404 {
        Outcome::Absent
    } else if status == 403 {
        Outcome::Unknown(Reason::Forbidden)
    } else {
        Outcome::Unknown(Reason::UnexpectedStatus(status))
    }
}

/// Classifies GitHub's answer by its HTTP status: 200 confirms the user, 404
/// confirms that there is none, 403 and every other status settle nothing.
pub fn classify_github_status(status: u16) -> (outcome: CheckOutcome)
    ensures
        outcome@ == github_outcome(status),
{
    if status == 200 {
        CheckOutcome::Exists
    } else if status == 404 {
        CheckOutcome::Absent
    } else if status == 403 {
        CheckOutcome::Unknown(Inconclusive::Forbidden)
    } else {
        CheckOutcome::Unknown(Inconclusive::UnexpectedStatus(status))
    }
}

/// What a reply means for the user asked about: the status of an answer
/// decides, and a failed request settles nothing.
pub open spec fn github_reply_outcome(reply: LookupReply) -> Outcome {
    match reply {
        LookupReply::Answer { status, body } => github_outcome(status),
        LookupReply::Failed(words) => Outcome::Unknown(Reason::Unreachable(words@)),
    }
}

/// Settles one lookup of a GitHub user from what came back. A failed request
/// settles nothing and is an outcome like any other.
pub fn check_github_user_exists(reply: &LookupReply) -> (outcome: CheckOutcome)
    ensures
        outcome@ == github_reply_outcome(*reply),
{
    match reply {
        LookupReply::Answer { status, body } => classify_github_status(*status),
        LookupReply::Failed(words) => CheckOutcome::Unknown(
            Inconclusive::Unreachable(words.clone()),
        ),
    }
}

} // verus!
