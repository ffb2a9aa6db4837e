use github_bot::bot::{error_reply, execute, finish_add, finish_remove, handle_message, CreatedHook, Reaction};
use github_bot::db::{Repository, SubscriptionKey, DB};
use github_bot::parser::{Commands, Family, RepoSubcommands};
use github_bot::shared::IssueAction;

fn reply(text: &str) -> Reaction {
    Reaction::Reply(text.to_string())
}

fn db_with(ids: &[usize]) -> DB {
    let mut db = DB::new();
    for &id in ids {
        db.add_repository(Repository {
            id,
            owner: "Septias",
            name: "testrepo",
            hook_id: id + 1000,
            ..Default::default()
        })
        .unwrap();
    }
    db
}

#[test]
fn subscribe_through_a_chat_message() {
    let mut db = db_with(&[42]);
    assert_eq!(
        handle_message(&mut db, 7, "gh subscribe 42 issue opened", "gh", true),
        reply("Subscribed")
    );
    let family = Family::Issue {
        issue_action: IssueAction::Opened,
    };
    assert_eq!(db.get_subscribers(42, family), vec![7]);
    assert_eq!(
        handle_message(&mut db, 7, "gh unsubscribe 42 issue opened", "gh", false),
        reply("Unsubscribed")
    );
    assert_eq!(db.get_subscribers(42, family), Vec::<u32>::new());
}

#[test]
fn subscribing_to_an_unknown_repository_is_refused() {
    let mut db = db_with(&[]);
    assert_eq!(
        handle_message(&mut db, 7, "gh subscribe 42 issue opened", "gh", true),
        reply("Unknown repository 42")
    );
    let family = Family::Issue {
        issue_action: IssueAction::Opened,
    };
    assert_eq!(db.get_subscribers(42, family), Vec::<u32>::new());
}

#[test]
fn messages_without_the_trigger() {
    let mut db = db_with(&[]);
    assert_eq!(
        handle_message(&mut db, 1, "hello there", "gh", true),
        reply("Commands must start with gh")
    );
    assert_eq!(handle_message(&mut db, 1, "hello there", "gh", false), Reaction::Ignore);
    assert_eq!(handle_message(&mut db, 1, "   ", "gh", false), Reaction::Ignore);
}

#[test]
fn parse_errors_are_answered() {
    let mut db = db_with(&[]);
    assert_eq!(
        handle_message(&mut db, 1, "gh subscribe 1 issue bogus", "gh", false),
        reply("invalid argument: bogus")
    );
    assert_eq!(
        handle_message(&mut db, 1, "gh", "gh", false),
        reply("missing argument")
    );
}

#[test]
fn listing_repositories() {
    let mut db = db_with(&[]);
    assert_eq!(
        handle_message(&mut db, 1, "gh repositories list", "gh", true),
        reply("No repositories")
    );
    let mut db = db_with(&[5]);
    assert_eq!(
        handle_message(&mut db, 1, "gh repositories list", "gh", true),
        reply("5\n")
    );
}

#[test]
fn adding_a_repository_goes_through_the_hook() {
    let mut db = db_with(&[]);
    let r = handle_message(&mut db, 1, "gh repositories add Septias testrepo key", "gh", true);
    assert_eq!(
        r,
        Reaction::CreateHook {
            owner: "Septias".to_string(),
            repository: "testrepo".to_string(),
            api_key: "key".to_string(),
        }
    );
    assert!(db.get_repository_ids().is_empty());
    let hook = CreatedHook {
        id: 558781383,
        url: "https://api.github.com/repos/Septias/testrepo".to_string(),
        hook_id: 9,
    };
    assert_eq!(
        finish_add(&mut db, "Septias", "testrepo", Ok(hook.clone())),
        "Added repository 558781383"
    );
    assert_eq!(db.get_hook_id(558781383), Ok(9));
    assert_eq!(db.get_owner(558781383).unwrap(), "Septias");
    assert_eq!(
        finish_add(&mut db, "Septias", "testrepo", Ok(hook)),
        "Repository 558781383 is already registered"
    );
    assert_eq!(
        finish_add(&mut db, "a", "b", Err("Server error: 404".to_string())),
        "Server error: 404"
    );
    assert_eq!(db.get_repository_ids(), vec![558781383]);
}

#[test]
fn removing_a_repository_goes_through_the_hook() {
    let mut db = db_with(&[5]);
    let family = Family::Issue {
        issue_action: IssueAction::Opened,
    };
    db.add_subscriber(SubscriptionKey { repo: 5, family }, 1);
    let r = execute(
        &mut db,
        1,
        Commands::Repositories {
            repo_subcommands: RepoSubcommands::Remove {
                repository: 5,
                api_key: "k".to_string(),
            },
        },
    );
    assert_eq!(
        r,
        Reaction::RemoveHook {
            id: 5,
            owner: "Septias".to_string(),
            repository: "testrepo".to_string(),
            hook_id: 1005,
            api_key: "k".to_string(),
        }
    );
    assert_eq!(
        finish_remove(&mut db, 5, Err("Server error: 401".to_string())),
        "Server error: 401"
    );
    assert_eq!(db.get_repository_ids(), vec![5]);
    assert_eq!(finish_remove(&mut db, 5, Ok(())), "Removed repository 5");
    assert!(db.get_repository_ids().is_empty());
    assert_eq!(db.get_subscribers(5, family), Vec::<u32>::new());
    assert_eq!(finish_remove(&mut db, 5, Ok(())), "Unknown repository 5");
    assert_eq!(
        handle_message(&mut db, 1, "gh repositories remove 5 k", "gh", true),
        reply("Unknown repository 5")
    );
}

#[test]
fn undecryptable_messages_get_a_hint() {
    assert_eq!(
        error_reply("Decrypting failed: missing key"),
        Some(
            "Unable to decrypt your message, but this message might have fixed it, so try again."
                .to_string()
        )
    );
    assert_eq!(error_reply("other"), None);
}
