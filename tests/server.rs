use github_bot::server::{classify_event, decode_event, DecodeError, EventKind, Payload};
use github_bot::shared::{
    Issue, IssueAction, IssueEvent, PRAction, PREvent, Repository, User, WebhookEvent, PR,
};
use serde_json::Value;

/// A delivery body in the shape the host sends, trimmed to a few fields.
fn fixture(action: &str, subject_key: &str, subject_id: u64, title: &str, path: &str) -> String {
    format!(
        r#"{{
  "action": "{action}",
  "{subject_key}": {{
    "url": "https://api.github.com/repos/Septias/testrepo/{path}",
    "html_url": "https://github.com/Septias/testrepo/{path}",
    "id": {subject_id},
    "number": 1,
    "title": "{title}",
    "state": "open"
  }},
  "repository": {{
    "id": 558781383,
    "name": "testrepo",
    "full_name": "Septias/testrepo",
    "url": "https://api.github.com/repos/Septias/testrepo"
  }},
  "sender": {{
    "login": "Septias",
    "id": 1
  }}
}}"#
    )
}

/// Reads the payload fields of a delivery body.
fn payload(body: &str, subject_key: &str) -> Payload {
    let v: Value = serde_json::from_str(body).unwrap();
    let text = |v: &Value| v.as_str().unwrap().to_string();
    Payload {
        action: text(&v["action"]),
        sender_login: text(&v["sender"]["login"]),
        repository_id: v["repository"]["id"].as_u64().unwrap() as usize,
        repository_name: text(&v["repository"]["name"]),
        repository_url: text(&v["repository"]["url"]),
        subject_id: v[subject_key]["id"].as_u64().unwrap(),
        subject_title: text(&v[subject_key]["title"]),
        subject_url: text(&v[subject_key]["url"]),
    }
}

fn decode(header: &str, body: &str, subject_key: &str) -> Result<WebhookEvent, DecodeError> {
    let kind = classify_event(Some(header))?;
    decode_event(kind, payload(body, subject_key))
}

#[test]
fn test_issue_closed() {
    let mock = fixture("closed", "issue", 1427422736, "test", "issues/1");
    assert_eq!(
        decode("issues", &mock, "issue").unwrap(),
        WebhookEvent::Issue(IssueEvent {
            action: IssueAction::Closed,
            sender: User {
                login: "Septias".to_owned()
            },
            repository: Repository {
                id: 558781383,
                name: "testrepo".to_owned(),
                url: "https://api.github.com/repos/Septias/testrepo".to_string(),
            },
            issue: Issue {
                id: 1427422736,
                title: "test".to_owned(),
                url: "https://api.github.com/repos/Septias/testrepo/issues/1".to_owned(),
            }
        })
    );
}

#[test]
fn test_issue_opened() {
    let mock = fixture("opened", "issue", 1427422736, "test", "issues/1");
    assert_eq!(
        decode("issues", &mock, "issue").unwrap(),
        WebhookEvent::Issue(IssueEvent {
            action: IssueAction::Opened,
            sender: User {
                login: "Septias".to_owned()
            },
            repository: Repository {
                id: 558781383,
                name: "testrepo".to_owned(),
                url: "https://api.github.com/repos/Septias/testrepo".to_string(),
            },
            issue: Issue {
                id: 1427422736,
                title: "test".to_owned(),
                url: "https://api.github.com/repos/Septias/testrepo/issues/1".to_owned(),
            }
        })
    );
}

#[test]
fn test_pr_closed() {
    let mock = fixture("closed", "pull_request", 1103900553, "PR 2", "pulls/3");
    assert_eq!(
        decode("pull_request", &mock, "pull_request").unwrap(),
        WebhookEvent::PR(PREvent {
            action: PRAction::Closed,
            sender: User {
                login: "Septias".to_owned()
            },
            repository: Repository {
                id: 558781383,
                name: "testrepo".to_owned(),
                url: "https://api.github.com/repos/Septias/testrepo".to_string(),
            },
            pull_request: PR {
                id: 1103900553,
                title: "PR 2".to_owned(),
                url: "https://api.github.com/repos/Septias/testrepo/pulls/3".to_owned(),
            }
        })
    );
}

#[test]
fn test_pr_opened() {
    let mock = fixture("opened", "pull_request", 1103900553, "PR 2", "pulls/3");
    assert_eq!(
        decode("pull_request", &mock, "pull_request").unwrap(),
        WebhookEvent::PR(PREvent {
            action: PRAction::Opened,
            sender: User {
                login: "Septias".to_owned()
            },
            repository: Repository {
                url: "https://api.github.com/repos/Septias/testrepo".to_string(),
                id: 558781383,
                name: "testrepo".to_owned(),
            },
            pull_request: PR {
                id: 1103900553,
                title: "PR 2".to_owned(),
                url: "https://api.github.com/repos/Septias/testrepo/pulls/3".to_owned(),
            }
        })
    );
}

#[test]
fn event_header_is_classified() {
    assert_eq!(classify_event(Some("issues")), Ok(EventKind::Issues));
    assert_eq!(classify_event(Some("pull_request")), Ok(EventKind::PullRequest));
    assert_eq!(classify_event(Some("push")), Err(DecodeError::Unrecognized));
    assert_eq!(classify_event(Some("Issues")), Err(DecodeError::Unrecognized));
    assert_eq!(classify_event(None), Err(DecodeError::MissingHeader));
}

#[test]
fn unknown_action_is_a_decode_error() {
    let mock = fixture("pinned", "pull_request", 1, "t", "pulls/1");
    assert_eq!(
        decode("pull_request", &mock, "pull_request"),
        Err(DecodeError::Decode("unknown action: pinned".to_string()))
    );
    let mock = fixture("review_requested", "issue", 1, "t", "issues/1");
    assert_eq!(
        decode("issues", &mock, "issue"),
        Err(DecodeError::Decode(
            "unknown action: review_requested".to_string()
        ))
    );
}
