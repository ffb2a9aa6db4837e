use github_bot::parser::{parse, parse_text, Cli, Commands, Family, ParseError, RepoSubcommands};
use github_bot::shared::{IssueAction, PRAction};

fn tokens(line: &str) -> Vec<String> {
    line.split(' ').map(String::from).collect()
}

#[test]
fn test_listen_issue_pull() {
    let cli = Cli::try_parse_from(&tokens("wat subscribe 558781383 issue opened")).unwrap();
    assert_eq!(
        cli.command,
        Commands::Subscribe {
            repo: 558781383,
            family: Family::Issue {
                issue_action: IssueAction::Opened
            }
        }
    )
}

#[test]
fn parses_every_command_form() {
    assert_eq!(
        parse(&tokens("unsubscribe 7 pr review_request_removed")),
        Ok(Commands::Unsubscribe {
            repo: 7,
            family: Family::Pr {
                pr_action: PRAction::ReviewRequestRemoved
            }
        })
    );
    assert_eq!(
        parse(&tokens("repositories list")),
        Ok(Commands::Repositories {
            repo_subcommands: RepoSubcommands::List
        })
    );
    assert_eq!(
        parse(&tokens("repositories add Septias testrepo token123")),
        Ok(Commands::Repositories {
            repo_subcommands: RepoSubcommands::Add {
                owner: "Septias".to_string(),
                repository: "testrepo".to_string(),
                api_key: "token123".to_string(),
            }
        })
    );
    assert_eq!(
        parse(&tokens("repositories remove 558781383 key")),
        Ok(Commands::Repositories {
            repo_subcommands: RepoSubcommands::Remove {
                repository: 558781383,
                api_key: "key".to_string(),
            }
        })
    );
}

#[test]
fn unknown_action_is_invalid_argument() {
    assert_eq!(
        parse(&tokens("subscribe 1 issue bogus")),
        Err(ParseError::InvalidArgument("bogus".to_string()))
    );
    assert_eq!(
        parse(&tokens("unsubscribe 1 pr deleted")),
        Err(ParseError::InvalidArgument("deleted".to_string()))
    );
    // action names are matched case-sensitively
    assert_eq!(
        parse(&tokens("subscribe 1 issue Opened")),
        Err(ParseError::InvalidArgument("Opened".to_string()))
    );
}

#[test]
fn bad_repository_ids_are_invalid_arguments() {
    assert_eq!(
        parse(&tokens("subscribe abc issue opened")),
        Err(ParseError::InvalidArgument("abc".to_string()))
    );
    assert_eq!(
        parse(&tokens("subscribe -1 issue opened")),
        Err(ParseError::InvalidArgument("-1".to_string()))
    );
    assert_eq!(
        parse(&tokens("subscribe 99999999999999999999999 issue opened")),
        Err(ParseError::InvalidArgument(
            "99999999999999999999999".to_string()
        ))
    );
    assert_eq!(
        parse(&tokens("repositories remove x key")),
        Err(ParseError::InvalidArgument("x".to_string()))
    );
    assert_eq!(
        parse(&tokens("subscribe 1 discussion opened")),
        Err(ParseError::InvalidArgument("discussion".to_string()))
    );
}

#[test]
fn largest_repository_id_is_accepted() {
    let line = format!("subscribe {} pr synchronized", usize::MAX);
    assert_eq!(
        parse(&tokens(&line)),
        Ok(Commands::Subscribe {
            repo: usize::MAX,
            family: Family::Pr {
                pr_action: PRAction::Synchronized
            }
        })
    );
}

#[test]
fn unknown_commands_and_arity_errors() {
    assert_eq!(
        parse(&tokens("download x")),
        Err(ParseError::UnknownCommand("download".to_string()))
    );
    assert_eq!(
        parse(&tokens("repositories rename a b")),
        Err(ParseError::UnknownCommand("rename".to_string()))
    );
    assert_eq!(parse(&Vec::new()), Err(ParseError::MissingArgument));
    assert_eq!(
        parse(&tokens("subscribe 1 issue")),
        Err(ParseError::MissingArgument)
    );
    assert_eq!(
        parse(&tokens("repositories add a b")),
        Err(ParseError::MissingArgument)
    );
    assert_eq!(
        parse(&tokens("repositories list all")),
        Err(ParseError::UnexpectedArgument("all".to_string()))
    );
    assert_eq!(
        parse(&tokens("subscribe 1 issue opened now")),
        Err(ParseError::UnexpectedArgument("now".to_string()))
    );
    assert_eq!(Cli::try_parse_from(&Vec::new()), Err(ParseError::MissingArgument));
}

#[test]
fn text_is_split_at_runs_of_whitespace() {
    assert_eq!(
        parse_text("  subscribe\t42   issue  closed \n"),
        Ok(Commands::Subscribe {
            repo: 42,
            family: Family::Issue {
                issue_action: IssueAction::Closed
            }
        })
    );
}

#[test]
fn every_action_name_round_trips() {
    let issue = [
        IssueAction::Opened,
        IssueAction::Edited,
        IssueAction::Deleted,
        IssueAction::Pinned,
        IssueAction::Unpinned,
        IssueAction::Closed,
        IssueAction::Reopened,
        IssueAction::Assigned,
        IssueAction::Unassigned,
        IssueAction::Labeled,
        IssueAction::Unlabeled,
        IssueAction::Locked,
        IssueAction::Unlocked,
        IssueAction::Transferred,
        IssueAction::Milestoned,
        IssueAction::Demilestoned,
    ];
    for a in issue {
        let line = format!("subscribe 3 issue {}", a.name());
        assert_eq!(
            parse_text(&line),
            Ok(Commands::Subscribe {
                repo: 3,
                family: Family::Issue { issue_action: a }
            })
        );
    }
    assert_eq!(PRAction::ReviewRequested.name(), "review_requested");
    assert_eq!(PRAction::from_name("review_requested"), Some(PRAction::ReviewRequested));
    assert_eq!(IssueAction::from_name("demilestoned"), Some(IssueAction::Demilestoned));
    assert_eq!(IssueAction::from_name("synchronized"), None);
}

#[test]
fn parse_error_messages() {
    assert_eq!(
        ParseError::InvalidArgument("bogus".to_string()).message(),
        "invalid argument: bogus"
    );
    assert_eq!(
        ParseError::UnknownCommand("x".to_string()).message(),
        "unknown command: x"
    );
    assert_eq!(ParseError::MissingArgument.message(), "missing argument");
    assert_eq!(
        ParseError::UnexpectedArgument("y".to_string()).message(),
        "unexpected argument: y"
    );
}
