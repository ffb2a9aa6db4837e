use github_bot::db::{Repository as StoredInput, SubscriptionKey, DB};
use github_bot::parser::Family;
use github_bot::router::{event_key, render, route, Delivery, FanOut, RouteReport};
use github_bot::shared::{
    Issue, IssueAction, IssueEvent, PRAction, PREvent, Repository, User, WebhookEvent, PR,
};

fn issue_event(repo: usize, action: IssueAction) -> WebhookEvent {
    WebhookEvent::Issue(IssueEvent {
        action,
        sender: User {
            login: "Septias".to_string(),
        },
        repository: Repository {
            id: repo,
            name: "testrepo".to_string(),
            url: "https://api.github.com/repos/Septias/testrepo".to_string(),
        },
        issue: Issue {
            id: 1427422736,
            title: "test".to_string(),
            url: "https://api.github.com/repos/Septias/testrepo/issues/1".to_string(),
        },
    })
}

fn pr_event(repo: usize, action: PRAction) -> WebhookEvent {
    WebhookEvent::PR(PREvent {
        action,
        sender: User {
            login: "octo".to_string(),
        },
        repository: Repository {
            id: repo,
            name: "r".to_string(),
            url: "u".to_string(),
        },
        pull_request: PR {
            id: 3,
            title: "PR 2".to_string(),
            url: "p".to_string(),
        },
    })
}

/// Delivers a fan-out, failing the recipients in `failing`.
fn deliver(delivery: Delivery, failing: &[u32]) -> (Vec<(u32, String)>, RouteReport) {
    let mut fan = FanOut::new(delivery);
    let mut inbox = Vec::new();
    while let Some(chat) = fan.next_recipient() {
        let ok = !failing.contains(&chat);
        if ok {
            inbox.push((chat, fan.text().clone()));
        }
        fan.record(ok);
    }
    (inbox, fan.report())
}

#[test]
fn rendered_texts() {
    assert_eq!(
        render(&issue_event(1, IssueAction::Opened)),
        "User Septias opened issue test"
    );
    assert_eq!(
        render(&pr_event(1, PRAction::ReviewRequested)),
        "User octo review_requested PR PR 2"
    );
}

#[test]
fn event_keys() {
    assert_eq!(
        event_key(&pr_event(9, PRAction::Closed)),
        SubscriptionKey {
            repo: 9,
            family: Family::Pr {
                pr_action: PRAction::Closed
            }
        }
    );
}

#[test]
fn subscribed_conversation_gets_exactly_one_message() {
    let mut db = DB::new();
    db.add_repository(StoredInput {
        id: 42,
        ..Default::default()
    })
    .unwrap();
    let c1 = 1;
    let c2 = 2;
    db.add_subscriber(
        SubscriptionKey {
            repo: 42,
            family: Family::Issue {
                issue_action: IssueAction::Opened,
            },
        },
        c1,
    );
    let (inbox, report) = deliver(route(&db, &issue_event(42, IssueAction::Opened)), &[]);
    assert_eq!(inbox.len(), 1);
    assert_eq!(inbox[0].0, c1);
    assert!(inbox[0].1.contains("Septias"));
    assert!(inbox[0].1.contains("test"));
    assert!(inbox.iter().all(|(c, _)| *c != c2));
    assert_eq!(report.delivered, vec![c1]);
    assert!(report.failed.is_empty());
}

#[test]
fn no_subscribers_means_no_messages() {
    let mut db = DB::new();
    db.add_subscriber(
        SubscriptionKey {
            repo: 42,
            family: Family::Issue {
                issue_action: IssueAction::Opened,
            },
        },
        1,
    );
    let (inbox, report) = deliver(route(&db, &issue_event(42, IssueAction::Closed)), &[]);
    assert!(inbox.is_empty());
    assert!(report.delivered.is_empty() && report.failed.is_empty());
    let (inbox, _) = deliver(route(&db, &issue_event(43, IssueAction::Opened)), &[]);
    assert!(inbox.is_empty());
}

#[test]
fn failed_delivery_does_not_stop_the_others() {
    let mut db = DB::new();
    let key = SubscriptionKey {
        repo: 42,
        family: Family::Pr {
            pr_action: PRAction::Opened,
        },
    };
    db.add_subscriber(key, 1);
    db.add_subscriber(key, 2);
    let (inbox, report) = deliver(route(&db, &pr_event(42, PRAction::Opened)), &[1]);
    assert_eq!(inbox, vec![(2, "User octo opened PR PR 2".to_string())]);
    assert_eq!(report.delivered, vec![2]);
    assert_eq!(report.failed, vec![1]);
}

#[test]
fn fan_out_offers_each_recipient_once_in_order() {
    let delivery = Delivery {
        recipients: vec![5, 3, 8],
        text: "hi".to_string(),
    };
    let mut fan = FanOut::new(delivery);
    let mut offered = Vec::new();
    let mut ok = false;
    while let Some(c) = fan.next_recipient() {
        offered.push(c);
        fan.record(ok);
        ok = !ok;
    }
    assert_eq!(offered, vec![5, 3, 8]);
    let report = fan.report();
    assert_eq!(report.delivered, vec![3]);
    assert_eq!(report.failed, vec![5, 8]);
}
