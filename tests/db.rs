use github_bot::db::{
    family_of_list, get_list_prefix, RegistryError, Repository, StoredRepository, SubscriptionKey,
    DB,
};
use github_bot::parser::Family;
use github_bot::shared::{IssueAction, PRAction};

fn key(repo: usize) -> SubscriptionKey {
    SubscriptionKey {
        repo,
        family: Family::Issue {
            issue_action: IssueAction::Opened,
        },
    }
}

fn sorted(mut v: Vec<u32>) -> Vec<u32> {
    v.sort();
    v
}

#[test]
fn test_get_repository_ids() {
    let mut db = DB::new();
    db.add_repository(Repository {
        id: 12,
        ..Default::default()
    })
    .unwrap();
    assert_eq!(db.get_repository_ids(), [12]);
}

#[test]
fn test_remove() {
    let mut db = DB::new();
    db.add_repository(Repository {
        id: 12,
        ..Default::default()
    })
    .unwrap();
    db.remove_repository(12).unwrap();
    assert_eq!(db.get_repository_ids(), [] as [usize; 0]);
}

#[test]
fn test_get_hook_id() {
    let mut db = DB::new();
    db.add_repository(Repository {
        hook_id: 23,
        id: 12,
        url: "",
        ..Default::default()
    })
    .unwrap();
    assert_eq!(db.get_hook_id(12).unwrap(), 23);
}

#[test]
fn test_get_owner() {
    let mut db = DB::new();
    db.add_repository(Repository {
        owner: "Me",
        id: 12,
        ..Default::default()
    })
    .unwrap();
    assert_eq!(db.get_owner(12).unwrap(), "Me".to_string());
}

#[test]
fn test_get_name() {
    let mut db = DB::new();
    db.add_repository(Repository {
        name: "ligma",
        id: 12,
        ..Default::default()
    })
    .unwrap();
    assert_eq!(db.get_name(12).unwrap(), "ligma".to_string());
}

#[test]
fn adding_a_subscriber_twice_is_adding_it_once() {
    let mut db = DB::new();
    db.add_subscriber(key(1), 5);
    let once = db.get_subscribers(1, key(1).family);
    db.add_subscriber(key(1), 5);
    assert_eq!(db.get_subscribers(1, key(1).family), once);
    assert_eq!(once, vec![5]);
}

#[test]
fn removing_an_absent_subscriber_changes_nothing() {
    let mut db = DB::new();
    db.add_subscriber(key(1), 5);
    db.remove_subscriber(key(1), 6);
    db.remove_subscriber(key(2), 5);
    assert_eq!(db.get_subscribers(1, key(1).family), vec![5]);
    db.remove_subscriber(key(1), 5);
    assert_eq!(db.get_subscribers(1, key(1).family), Vec::<u32>::new());
}

#[test]
fn subscribers_are_kept_per_topic() {
    let mut db = DB::new();
    let pr = Family::Pr {
        pr_action: PRAction::Opened,
    };
    db.add_subscriber(key(1), 5);
    db.add_subscriber(key(1), 6);
    db.add_subscriber(SubscriptionKey { repo: 1, family: pr }, 7);
    db.add_subscriber(key(2), 8);
    assert_eq!(sorted(db.get_subscribers(1, key(1).family)), vec![5, 6]);
    assert_eq!(db.get_subscribers(1, pr), vec![7]);
    assert_eq!(db.get_subscribers(2, key(1).family), vec![8]);
    assert_eq!(db.get_subscribers(3, key(1).family), Vec::<u32>::new());
}

#[test]
fn ids_listed_after_add_and_gone_after_remove() {
    let mut db = DB::new();
    for id in [4, 9, 1] {
        db.add_repository(Repository {
            id,
            ..Default::default()
        })
        .unwrap();
    }
    let mut ids = db.get_repository_ids();
    ids.sort();
    assert_eq!(ids, vec![1, 4, 9]);
    db.remove_repository(4).unwrap();
    let mut ids = db.get_repository_ids();
    ids.sort();
    assert_eq!(ids, vec![1, 9]);
}

#[test]
fn adding_a_taken_id_is_a_conflict() {
    let mut db = DB::new();
    db.add_repository(Repository {
        id: 12,
        owner: "a",
        ..Default::default()
    })
    .unwrap();
    assert_eq!(
        db.add_repository(Repository {
            id: 12,
            owner: "b",
            ..Default::default()
        }),
        Err(RegistryError::Conflict)
    );
    assert_eq!(db.get_owner(12).unwrap(), "a");
}

#[test]
fn missing_repositories_are_not_found() {
    let mut db = DB::new();
    assert_eq!(db.remove_repository(3), Err(RegistryError::NotFound));
    assert_eq!(db.get_hook_id(3), Err(RegistryError::NotFound));
    assert_eq!(db.get_owner(3), Err(RegistryError::NotFound));
    assert_eq!(db.get_name(3), Err(RegistryError::NotFound));
    assert_eq!(db.get_repository(3), Err(RegistryError::NotFound));
}

#[test]
fn stored_repository_keeps_every_field() {
    let mut db = DB::new();
    db.add_repository(Repository {
        name: "testrepo",
        owner: "Septias",
        hook_id: 77,
        id: 558781383,
        url: "https://api.github.com/repos/Septias/testrepo",
    })
    .unwrap();
    assert_eq!(
        db.get_repository(558781383),
        Ok(StoredRepository {
            id: 558781383,
            owner: "Septias".to_string(),
            name: "testrepo".to_string(),
            url: "https://api.github.com/repos/Septias/testrepo".to_string(),
            hook_id: 77,
        })
    );
}

#[test]
fn removing_a_repository_drops_its_subscriptions() {
    let mut db = DB::new();
    db.add_repository(Repository {
        id: 1,
        ..Default::default()
    })
    .unwrap();
    db.add_subscriber(key(1), 5);
    db.add_subscriber(key(2), 6);
    db.remove_repository(1).unwrap();
    assert_eq!(db.get_subscribers(1, key(1).family), Vec::<u32>::new());
    assert_eq!(db.get_subscribers(2, key(1).family), vec![6]);
}

#[test]
fn stored_list_names() {
    let closed = Family::Pr {
        pr_action: PRAction::Closed,
    };
    assert_eq!(get_list_prefix(key(1).family), "issue_opened");
    assert_eq!(get_list_prefix(closed), "pr_closed");
    let removed = Family::Pr {
        pr_action: PRAction::ReviewRequestRemoved,
    };
    assert_eq!(get_list_prefix(removed), "pr_review_request_removed");
    assert_eq!(family_of_list("pr_review_request_removed"), Some(removed));
    assert_eq!(family_of_list("issue_opened"), Some(key(1).family));
    assert_eq!(family_of_list("issue_synchronized"), None);
    assert_eq!(family_of_list("owner"), None);
    assert_eq!(family_of_list("pr_"), None);
}

#[test]
fn snapshots_list_everything_once() {
    let mut db = DB::new();
    db.add_repository(Repository {
        id: 3,
        owner: "o",
        name: "n",
        url: "u",
        hook_id: 4,
    })
    .unwrap();
    db.add_subscriber(key(3), 1);
    db.add_subscriber(key(3), 1);
    db.add_subscriber(key(5), 2);
    let repos = db.repositories();
    assert_eq!(repos.len(), 1);
    assert_eq!(repos[0].owner, "o");
    assert_eq!(repos[0].hook_id, 4);
    let mut subs = db.subscriptions();
    subs.sort_by_key(|s| s.1);
    assert_eq!(subs, vec![(key(3), 1), (key(5), 2)]);
}
