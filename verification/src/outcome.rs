//! What a lookup of an identity at an outside service can come to.

use vstd::prelude::*;
use crate::text::{decimal, decimal_text, join2};

verus! {

/// Why a lookup settled nothing, as plain values.
pub enum Reason {
    Forbidden,
    UnexpectedStatus(u16),
    MissingToken,
    MalformedId(Seq<char>),
    RateLimited,
    InvalidAuth,
    ServiceError(Seq<char>),
    UnexpectedResponse,
    UndecodableBody,
    Unreachable(Seq<char>),
}

/// Why a lookup settled nothing.
#[derive(Debug, PartialEq, Eq)]
pub enum Inconclusive {
    /// GitHub answered 403: the rate limit is used up or access is forbidden.
    Forbidden,
    /// GitHub answered with a status that is none of 200, 403 and 404.
    UnexpectedStatus(u16),
    /// No Slack token is configured.
    MissingToken,
    /// The Slack id starts with none of `U`, `C` and `G`.
    MalformedId(String),
    /// Slack answered `ratelimited`.
    RateLimited,
    /// Slack answered `invalid_auth`.
    InvalidAuth,
    /// Slack answered with another error code.
    ServiceError(String),
    /// Slack's answer is JSON without the expected members.
    UnexpectedResponse,
    /// Slack's answer is not JSON.
    UndecodableBody,
    /// The request failed before an answer came, with the transport's words.
    Unreachable(String),
}

impl View for Inconclusive {
    type V = Reason;

    open spec fn view(&self) -> Reason {
        match self {
            Inconclusive::Forbidden => Reason::Forbidden,
            Inconclusive::UnexpectedStatus(status) => Reason::UnexpectedStatus(*status),
            Inconclusive::MissingToken => Reason::MissingToken,
            Inconclusive::MalformedId(id) => Reason::MalformedId(id@),
            Inconclusive::RateLimited => Reason::RateLimited,
            Inconclusive::InvalidAuth => Reason::InvalidAuth,
            Inconclusive::ServiceError(code) => Reason::ServiceError(code@),
            Inconclusive::UnexpectedResponse => Reason::UnexpectedResponse,
            Inconclusive::UndecodableBody => Reason::UndecodableBody,
            Inconclusive::Unreachable(words) => Reason::Unreachable(words@),
        }
    }
}

/// The words in which a warning gives the reason.
pub open spec fn reason_text(reason: Reason) -> Seq<char> {
    match reason {
        Reason::Forbidden => "Rate limit exceeded or access forbidden"@,
        Reason::UnexpectedStatus(status) => "Unexpected status "@ + decimal(status as nat),
        Reason::MissingToken => "SLACK_TOKEN environment variable not set"@,
        Reason::MalformedId(id) => "Invalid Slack ID format: "@ + id,
        Reason::RateLimited => "Rate limit exceeded"@,
        Reason::InvalidAuth => "Invalid authentication"@,
        Reason::ServiceError(code) => "Slack API error: "@ + code,
        Reason::UnexpectedResponse => "Unexpected response from Slack API"@,
        Reason::UndecodableBody => "error decoding response body"@,
        Reason::Unreachable(words) => words,
    }
}

impl Inconclusive {
    /// The reason in words.
    pub fn describe(&self) -> (words: String)
        ensures
            words@ == reason_text(self@),
    {
        match self {
            Inconclusive::Forbidden => String::from_str("Rate limit exceeded or access forbidden"),
            Inconclusive::UnexpectedStatus(status) => {
                let number = decimal_text(*status);
                join2("Unexpected status ", number.as_str())
            },
            Inconclusive::MissingToken => String::from_str(
                "SLACK_TOKEN environment variable not set",
            ),
            Inconclusive::MalformedId(id) => join2("Invalid Slack ID format: ", id.as_str()),
            Inconclusive::RateLimited => String::from_str("Rate limit exceeded"),
            Inconclusive::InvalidAuth => String::from_str("Invalid authentication"),
            Inconclusive::ServiceError(code) => join2("Slack API error: ", code.as_str()),
            Inconclusive::UnexpectedResponse => String::from_str(
                "Unexpected response from Slack API",
            ),
            Inconclusive::UndecodableBody => String::from_str("error decoding response body"),
            Inconclusive::Unreachable(words) => words.clone(),
        }
    }
}

/// The outcome of a lookup, as plain values.
pub enum Outcome {
    Exists,
    Absent,
    Unknown(Reason),
}

/// The outcome of one lookup: the service confirmed the identity, it
/// confirmed that there is none, or nothing was settled.
#[derive(Debug, PartialEq, Eq)]
pub enum CheckOutcome {
    Exists,
    Absent,
    Unknown(Inconclusive),
}

impl View for CheckOutcome {
    type V = Outcome;

    open spec fn view(&self) -> Outcome {
        match self {
            CheckOutcome::Exists => Outcome::Exists,
            CheckOutcome::Absent => Outcome::Absent,
            CheckOutcome::Unknown(reason) => Outcome::Unknown(reason@),
        }
    }
}

impl CheckOutcome {
    /// Whether the service confirmed the identity.
    pub fn is_exists(&self) -> (yes: bool)
        ensures
            yes == (self@ is Exists),
    {
        match self {
            CheckOutcome::Exists => true,
            _ => false,
        }
    }

    /// Whether the service confirmed that there is no such identity.
    pub fn is_absent(&self) -> (yes: bool)
        ensures
            yes == (self@ is Absent),
    {
        match self {
            CheckOutcome::Absent => true,
            _ => false,
        }
    }

    /// Whether nothing was settled.
    pub fn is_unknown(&self) -> (yes: bool)
        ensures
            yes == (self@ is Unknown),
    {
        match self {
            CheckOutcome::Unknown(_) => true,
            _ => false,
        }
    }
}

} // verus!
