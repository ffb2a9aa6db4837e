//! Decoding of webhook deliveries into events.
use vstd::prelude::*;
use crate::shared::{
    Issue, IssueAction, IssueEvent, PR, PRAction, PREvent, Repository, User, WebhookEvent,
};
use crate::text::same_text;

verus! {

/// The event category that a delivery's `X-GitHub-Event` header names.
#[derive(Clone, Copy, Debug, PartialEq, Eq, Structural)]
pub enum EventKind {
    Issues,
    PullRequest,
}

/// Why a delivery could not be decoded.
#[derive(Clone, Debug, PartialEq, Eq)]
pub enum DecodeError {
    /// The delivery has no event header.
    MissingHeader,
    /// The event header names a category that is not handled.
    Unrecognized,
    /// The body does not match the expected schema; the text says why.
    Decode(String),
}

/// The fields of a delivery's body that events are built from.
#[derive(Clone, Debug, PartialEq, Eq)]
pub struct Payload {
    pub action: String,
    pub sender_login: String,
    pub repository_id: usize,
    pub repository_name: String,
    pub repository_url: String,
    /// The issue or pull request.
    pub subject_id: u64,
    pub subject_title: String,
    pub subject_url: String,
}

/// The category that an event header names, if it is handled.
pub open spec fn spec_event_kind(header: Seq<char>) -> Option<EventKind> {
    if header == "issues"@ {
        Some(EventKind::Issues)
    } else if header == "pull_request"@ {
        Some(EventKind::PullRequest)
    } else {
        None
    }
}

/// Reads the event header of a delivery.
pub fn classify_event(header: Option<&str>) -> (r: Result<EventKind, DecodeError>)
    ensures
        header is None ==> r == Err::<EventKind, DecodeError>(DecodeError::MissingHeader),
        header is Some ==> match spec_event_kind(header->0@) {
            Some(kind) => r == Ok::<EventKind, DecodeError>(kind),
            None => r == Err::<EventKind, DecodeError>(DecodeError::Unrecognized),
        },
{
    match header {
        None => Err(DecodeError::MissingHeader),
        Some(h) => if same_text(h, "issues") {
            Ok(EventKind::Issues)
        } else if same_text(h, "pull_request") {
            Ok(EventKind::PullRequest)
        } else {
            Err(DecodeError::Unrecognized)
        },
    }
}

/// The message of the error for an action that the family does not have.
pub open spec fn unknown_action_message(action: Seq<char>) -> Seq<char> {
    "unknown action: "@ + action
}

fn unknown_action(action: &String) -> (r: DecodeError)
    ensures
        r matches DecodeError::Decode(m) && m@ == unknown_action_message(action@),
{
    let mut m = String::from_str("unknown action: ");
    m.append(action.as_str());
    DecodeError::Decode(m)
}

/// Builds the event that a delivery of category `kind` describes.
pub fn decode_event(kind: EventKind, payload: Payload) -> (r: Result<WebhookEvent, DecodeError>)
    ensures
        kind == EventKind::Issues ==> match IssueAction::spec_from_name(payload.action@) {
            Some(action) => r == Ok::<WebhookEvent, DecodeError>(
                WebhookEvent::Issue(
                    IssueEvent {
                        action,
                        sender: User { login: payload.sender_login },
                        repository: Repository {
                            id: payload.repository_id,
                            name: payload.repository_name,
                            url: payload.repository_url,
                        },
                        issue: Issue {
                            id: payload.subject_id,
                            title: payload.subject_title,
                            url: payload.subject_url,
                        },
                    },
                ),
            ),
            None => r matches Err(DecodeError::Decode(m)) && m@ == unknown_action_message(
                payload.action@,
            ),
        },
        kind == EventKind::PullRequest ==> match PRAction::spec_from_name(payload.action@) {
            Some(action) => r == Ok::<WebhookEvent, DecodeError>(
                WebhookEvent::PR(
                    PREvent {
                        action,
                        sender: User { login: payload.sender_login },
                        repository: Repository {
                            id: payload.repository_id,
                            name: payload.repository_name,
                            url: payload.repository_url,
                        },
                        pull_request: PR {
                            id: payload.subject_id,
                            title: payload.subject_title,
                            url: payload.subject_url,
                        },
                    },
                ),
            ),
            None => r matches Err(DecodeError::Decode(m)) && m@ == unknown_action_message(
                payload.action@,
            ),
        },
{
    match kind {
        EventKind::Issues => match IssueAction::from_name(payload.action.as_str()) {
            None => Err(unknown_action(&payload.action)),
            Some(action) => Ok(
                WebhookEvent::Issue(
                    IssueEvent {
                        action,
                        sender: User { login: payload.sender_login },
                        repository: Repository {
                            id: payload.repository_id,
                            name: payload.repository_name,
                            url: payload.repository_url,
                        },
                        issue: Issue {
                            id: payload.subject_id,
                            title: payload.subject_title,
                            url: payload.subject_url,
                        },
                    },
                ),
            ),
        },
        EventKind::PullRequest => match PRAction::from_name(payload.action.as_str()) {
            None => Err(unknown_action(&payload.action)),
            Some(action) => Ok(
                WebhookEvent::PR(
                    PREvent {
                        action,
                        sender: User { login: payload.sender_login },
                        repository: Repository {
                            id: payload.repository_id,
                            name: payload.repository_name,
                            url: payload.repository_url,
                        },
                        pull_request: PR {
                            id: payload.subject_id,
                            title: payload.subject_title,
                            url: payload.subject_url,
                        },
                    },
                ),
            ),
        },
    }
}

} // verus!
