//! The grammar of chat commands.
//!
//! ```text
//! subscribe <repo_id> (issue <issue_action> | pr <pr_action>)
//! unsubscribe <repo_id> (issue <issue_action> | pr <pr_action>)
//! repositories list
//! repositories add <owner> <repo_name> <api_key>
//! repositories remove <repo_id> <api_key>
//! ```
use vstd::prelude::*;
use crate::shared::{IssueAction, PRAction};
use crate::text::{
    decimal, decimal_value, is_decimal, is_space, is_word, join_words, parse_decimal, same_text,
    split_words, token_views, words,
};

verus! {

/// The kind of event that a subscription is about, with its action.
#[derive(Clone, Copy, Debug, PartialEq, Eq, Structural, Hash)]
pub enum Family {
    Pr { pr_action: PRAction },
    Issue { issue_action: IssueAction },
}

/// Repository management commands.
#[derive(Clone, Debug, PartialEq, Eq)]
pub enum RepoSubcommands {
    /// List all available repositories
    List,
    /// Add a webhook for a new repository
    Add { owner: String, repository: String, api_key: String },
    /// Remove a repository's webhook
    Remove { repository: usize, api_key: String },
}

/// A parsed chat command.
#[derive(Clone, Debug, PartialEq, Eq)]
pub enum Commands {
    /// Subscribe to an event
    Subscribe { repo: usize, family: Family },
    /// Unsubscribe from an event
    Unsubscribe { repo: usize, family: Family },
    /// Change supported repositories
    Repositories { repo_subcommands: RepoSubcommands },
}

/// A command line: a leading trigger word followed by a command.
#[derive(Clone, Debug, PartialEq, Eq)]
pub struct Cli {
    pub command: Commands,
}

/// Why a command was not understood.
#[derive(Clone, Debug, PartialEq, Eq)]
pub enum ParseError {
    /// The command word is not one of the grammar's.
    UnknownCommand(String),
    /// A repository id, family or action that cannot be read.
    InvalidArgument(String),
    /// The command stops before the grammar allows.
    MissingArgument,
    /// A token after a complete command.
    UnexpectedArgument(String),
}

impl ParseErrorView {
    /// A one-line description for the person who sent the command.
    pub open spec fn message(self) -> Seq<char> {
        match self {
            ParseErrorView::UnknownCommand(t) => "unknown command: "@ + t,
            ParseErrorView::InvalidArgument(t) => "invalid argument: "@ + t,
            ParseErrorView::MissingArgument => "missing argument"@,
            ParseErrorView::UnexpectedArgument(t) => "unexpected argument: "@ + t,
        }
    }
}

impl ParseError {
    /// A one-line description for the person who sent the command.
    pub fn message(&self) -> (r: String)
        ensures
            r@ == self@.message(),
    {
        match self {
            ParseError::UnknownCommand(t) => {
                let mut m = String::from_str("unknown command: ");
                m.append(t.as_str());
                m
            },
            ParseError::InvalidArgument(t) => {
                let mut m = String::from_str("invalid argument: ");
                m.append(t.as_str());
                m
            },
            ParseError::MissingArgument => String::from_str("missing argument"),
            ParseError::UnexpectedArgument(t) => {
                let mut m = String::from_str("unexpected argument: ");
                m.append(t.as_str());
                m
            },
        }
    }
}

/// [`RepoSubcommands`] with its text as character sequences.
pub enum RepoSubcommandsView {
    List,
    Add { owner: Seq<char>, repository: Seq<char>, api_key: Seq<char> },
    Remove { repository: usize, api_key: Seq<char> },
}

/// [`Commands`] with its text as character sequences.
pub enum CommandsView {
    Subscribe { repo: usize, family: Family },
    Unsubscribe { repo: usize, family: Family },
    Repositories { repo_subcommands: RepoSubcommandsView },
}

/// [`ParseError`] with its text as character sequences.
pub enum ParseErrorView {
    UnknownCommand(Seq<char>),
    InvalidArgument(Seq<char>),
    MissingArgument,
    UnexpectedArgument(Seq<char>),
}

impl View for RepoSubcommands {
    type V = RepoSubcommandsView;

    open spec fn view(&self) -> RepoSubcommandsView {
        match self {
            RepoSubcommands::List => RepoSubcommandsView::List,
            RepoSubcommands::Add { owner, repository, api_key } => RepoSubcommandsView::Add {
                owner: owner@,
                repository: repository@,
                api_key: api_key@,
            },
            RepoSubcommands::Remove { repository, api_key } => RepoSubcommandsView::Remove {
                repository: *repository,
                api_key: api_key@,
            },
        }
    }
}

impl View for Commands {
    type V = CommandsView;

    open spec fn view(&self) -> CommandsView {
        match self {
            Commands::Subscribe { repo, family } => CommandsView::Subscribe {
                repo: *repo,
                family: *family,
            },
            Commands::Unsubscribe { repo, family } => CommandsView::Unsubscribe {
                repo: *repo,
                family: *family,
            },
            Commands::Repositories { repo_subcommands } => CommandsView::Repositories {
                repo_subcommands: repo_subcommands@,
            },
        }
    }
}

impl View for ParseError {
    type V = ParseErrorView;

    open spec fn view(&self) -> ParseErrorView {
        match self {
            ParseError::UnknownCommand(t) => ParseErrorView::UnknownCommand(t@),
            ParseError::InvalidArgument(t) => ParseErrorView::InvalidArgument(t@),
            ParseError::MissingArgument => ParseErrorView::MissingArgument,
            ParseError::UnexpectedArgument(t) => ParseErrorView::UnexpectedArgument(t@),
        }
    }
}

/// A parse result with its text as character sequences.
pub open spec fn result_view<T: View>(r: Result<T, ParseError>) -> Result<T::V, ParseErrorView> {
    match r {
        Ok(c) => Ok(c@),
        Err(e) => Err(e@),
    }
}

/// A parse result whose error is seen as character sequences.
pub open spec fn error_view<T>(r: Result<T, ParseError>) -> Result<T, ParseErrorView> {
    match r {
        Ok(c) => Ok(c),
        Err(e) => Err(e@),
    }
}

/// A repository id: a decimal number that fits in `usize`.
pub open spec fn spec_parse_id(t: Seq<char>) -> Option<usize> {
    if is_decimal(t) && decimal_value(t) <= usize::MAX {
        Some(decimal_value(t) as usize)
    } else {
        None
    }
}

/// `issue <issue_action>` or `pr <pr_action>`, and nothing after it.
pub open spec fn spec_parse_family(t: Seq<Seq<char>>) -> Result<Family, ParseErrorView> {
    if t.len() == 0 {
        Err(ParseErrorView::MissingArgument)
    } else if t[0] == "issue"@ {
        if t.len() < 2 {
            Err(ParseErrorView::MissingArgument)
        } else {
            match IssueAction::spec_from_name(t[1]) {
                None => Err(ParseErrorView::InvalidArgument(t[1])),
                Some(a) => if t.len() > 2 {
                    Err(ParseErrorView::UnexpectedArgument(t[2]))
                } else {
                    Ok(Family::Issue { issue_action: a })
                },
            }
        }
    } else if t[0] == "pr"@ {
        if t.len() < 2 {
            Err(ParseErrorView::MissingArgument)
        } else {
            match PRAction::spec_from_name(t[1]) {
                None => Err(ParseErrorView::InvalidArgument(t[1])),
                Some(a) => if t.len() > 2 {
                    Err(ParseErrorView::UnexpectedArgument(t[2]))
                } else {
                    Ok(Family::Pr { pr_action: a })
                },
            }
        }
    } else {
        Err(ParseErrorView::InvalidArgument(t[0]))
    }
}

/// `<repo_id>` followed by a family: the arguments of (un)subscribe.
pub open spec fn spec_parse_topic(t: Seq<Seq<char>>) -> Result<(usize, Family), ParseErrorView> {
    if t.len() == 0 {
        Err(ParseErrorView::MissingArgument)
    } else {
        match spec_parse_id(t[0]) {
            None => Err(ParseErrorView::InvalidArgument(t[0])),
            Some(repo) => match spec_parse_family(t.drop_first()) {
                Ok(family) => Ok((repo, family)),
                Err(e) => Err(e),
            },
        }
    }
}

/// The arguments of `repositories`.
pub open spec fn spec_parse_repositories(t: Seq<Seq<char>>) -> Result<
    RepoSubcommandsView,
    ParseErrorView,
> {
    if t.len() == 0 {
        Err(ParseErrorView::MissingArgument)
    } else if t[0] == "list"@ {
        if t.len() > 1 {
            Err(ParseErrorView::UnexpectedArgument(t[1]))
        } else {
            Ok(RepoSubcommandsView::List)
        }
    } else if t[0] == "add"@ {
        if t.len() < 4 {
            Err(ParseErrorView::MissingArgument)
        } else if t.len() > 4 {
            Err(ParseErrorView::UnexpectedArgument(t[4]))
        } else {
            Ok(RepoSubcommandsView::Add { owner: t[1], repository: t[2], api_key: t[3] })
        }
    } else if t[0] == "remove"@ {
        if t.len() < 2 {
            Err(ParseErrorView::MissingArgument)
        } else {
            match spec_parse_id(t[1]) {
                None => Err(ParseErrorView::InvalidArgument(t[1])),
                Some(id) => if t.len() < 3 {
                    Err(ParseErrorView::MissingArgument)
                } else if t.len() > 3 {
                    Err(ParseErrorView::UnexpectedArgument(t[3]))
                } else {
                    Ok(RepoSubcommandsView::Remove { repository: id, api_key: t[2] })
                },
            }
        }
    } else {
        Err(ParseErrorView::UnknownCommand(t[0]))
    }
}

/// What a sequence of tokens means as a command.
pub open spec fn spec_parse(t: Seq<Seq<char>>) -> Result<CommandsView, ParseErrorView> {
    if t.len() == 0 {
        Err(ParseErrorView::MissingArgument)
    } else if t[0] == "subscribe"@ {
        match spec_parse_topic(t.drop_first()) {
            Ok((repo, family)) => Ok(CommandsView::Subscribe { repo, family }),
            Err(e) => Err(e),
        }
    } else if t[0] == "unsubscribe"@ {
        match spec_parse_topic(t.drop_first()) {
            Ok((repo, family)) => Ok(CommandsView::Unsubscribe { repo, family }),
            Err(e) => Err(e),
        }
    } else if t[0] == "repositories"@ {
        match spec_parse_repositories(t.drop_first()) {
            Ok(sub) => Ok(CommandsView::Repositories { repo_subcommands: sub }),
            Err(e) => Err(e),
        }
    } else {
        Err(ParseErrorView::UnknownCommand(t[0]))
    }
}

/// The tokens that spell a family.
pub open spec fn family_tokens(f: Family) -> Seq<Seq<char>> {
    match f {
        Family::Issue { issue_action } => seq!["issue"@, issue_action.spec_name()],
        Family::Pr { pr_action } => seq!["pr"@, pr_action.spec_name()],
    }
}

/// The tokens that spell a command.
pub open spec fn command_tokens(c: CommandsView) -> Seq<Seq<char>> {
    match c {
        CommandsView::Subscribe { repo, family } => seq!["subscribe"@, decimal(repo as nat)]
            + family_tokens(family),
        CommandsView::Unsubscribe { repo, family } => seq!["unsubscribe"@, decimal(repo as nat)]
            + family_tokens(family),
        CommandsView::Repositories { repo_subcommands } => match repo_subcommands {
            RepoSubcommandsView::List => seq!["repositories"@, "list"@],
            RepoSubcommandsView::Add { owner, repository, api_key } => seq![
                "repositories"@,
                "add"@,
                owner,
                repository,
                api_key,
            ],
            RepoSubcommandsView::Remove { repository, api_key } => seq![
                "repositories"@,
                "remove"@,
                decimal(repository as nat),
                api_key,
            ],
        },
    }
}

proof fn lemma_keywords_distinct()
    ensures
        "subscribe"@ != "unsubscribe"@,
        "subscribe"@ != "repositories"@,
        "unsubscribe"@ != "repositories"@,
        "issue"@ != "pr"@,
        "list"@ != "add"@,
        "list"@ != "remove"@,
        "add"@ != "remove"@,
{
    reveal_strlit("subscribe");
    reveal_strlit("unsubscribe");
    reveal_strlit("repositories");
    reveal_strlit("issue");
    reveal_strlit("pr");
    reveal_strlit("list");
    reveal_strlit("add");
    reveal_strlit("remove");
    assert("subscribe"@.len() != "unsubscribe"@.len());
    assert("subscribe"@.len() != "repositories"@.len());
    assert("unsubscribe"@.len() != "repositories"@.len());
    assert("issue"@.len() != "pr"@.len());
    assert("list"@.len() != "add"@.len());
    assert("list"@.len() != "remove"@.len());
    assert("add"@.len() != "remove"@.len());
}

proof fn lemma_id_round_trip(id: usize)
    ensures
        spec_parse_id(decimal(id as nat)) == Some(id),
{
    crate::text::lemma_decimal_round_trip(id as nat);
}

proof fn lemma_topic_round_trip(repo: usize, family: Family)
    ensures
        spec_parse_topic(seq![decimal(repo as nat)] + family_tokens(family)) == Ok::<
            (usize, Family),
            ParseErrorView,
        >((repo, family)),
{
    let t = seq![decimal(repo as nat)] + family_tokens(family);
    lemma_id_round_trip(repo);
    lemma_keywords_distinct();
    assert(t.drop_first() =~= family_tokens(family));
    match family {
        Family::Issue { issue_action } => issue_action.lemma_name_round_trip(),
        Family::Pr { pr_action } => pr_action.lemma_name_round_trip(),
    }
}

/// Every command reads back from the tokens that spell it.
pub proof fn lemma_parse_round_trip(c: CommandsView)
    ensures
        spec_parse(command_tokens(c)) == Ok::<CommandsView, ParseErrorView>(c),
{
    lemma_keywords_distinct();
    let t = command_tokens(c);
    match c {
        CommandsView::Subscribe { repo, family } => {
            assert(t.drop_first() =~= seq![decimal(repo as nat)] + family_tokens(family));
            lemma_topic_round_trip(repo, family);
        },
        CommandsView::Unsubscribe { repo, family } => {
            assert(t.drop_first() =~= seq![decimal(repo as nat)] + family_tokens(family));
            lemma_topic_round_trip(repo, family);
        },
        CommandsView::Repositories { repo_subcommands } => {
            match repo_subcommands {
                RepoSubcommandsView::Remove { repository, api_key } => {
                    lemma_id_round_trip(repository);
                },
                _ => {},
            }
            let r = t.drop_first();
            assert(r == t.subrange(1, t.len() as int));
        },
    }
}

proof fn lemma_keywords_are_words()
    ensures
        is_word("subscribe"@),
        is_word("unsubscribe"@),
        is_word("repositories"@),
        is_word("issue"@),
        is_word("pr"@),
        is_word("list"@),
        is_word("add"@),
        is_word("remove"@),
{
    reveal_strlit("subscribe");
    assert forall|i: int| 0 <= i < 9 implies !is_space(#[trigger] "subscribe"@[i]) by {
        assert(i == 0 || i == 1 || i == 2 || i == 3 || i == 4 || i == 5 || i == 6 || i == 7 || i == 8);
    }
    reveal_strlit("unsubscribe");
    assert forall|i: int| 0 <= i < 11 implies !is_space(#[trigger] "unsubscribe"@[i]) by {
        assert(i == 0 || i == 1 || i == 2 || i == 3 || i == 4 || i == 5 || i == 6 || i == 7 || i == 8 || i == 9 || i == 10);
    }
    reveal_strlit("repositories");
    assert forall|i: int| 0 <= i < 12 implies !is_space(#[trigger] "repositories"@[i]) by {
        assert(i == 0 || i == 1 || i == 2 || i == 3 || i == 4 || i == 5 || i == 6 || i == 7 || i == 8 || i == 9 || i == 10 || i == 11);
    }
    reveal_strlit("issue");
    assert forall|i: int| 0 <= i < 5 implies !is_space(#[trigger] "issue"@[i]) by {
        assert(i == 0 || i == 1 || i == 2 || i == 3 || i == 4);
    }
    reveal_strlit("pr");
    assert forall|i: int| 0 <= i < 2 implies !is_space(#[trigger] "pr"@[i]) by {
        assert(i == 0 || i == 1);
    }
    reveal_strlit("list");
    assert forall|i: int| 0 <= i < 4 implies !is_space(#[trigger] "list"@[i]) by {
        assert(i == 0 || i == 1 || i == 2 || i == 3);
    }
    reveal_strlit("add");
    assert forall|i: int| 0 <= i < 3 implies !is_space(#[trigger] "add"@[i]) by {
        assert(i == 0 || i == 1 || i == 2);
    }
    reveal_strlit("remove");
    assert forall|i: int| 0 <= i < 6 implies !is_space(#[trigger] "remove"@[i]) by {
        assert(i == 0 || i == 1 || i == 2 || i == 3 || i == 4 || i == 5);
    }
}

/// Whether the free-text parts of a command are single words, so that the
/// command can be written as one line.
pub open spec fn is_spelled(c: CommandsView) -> bool {
    match c {
        CommandsView::Repositories { repo_subcommands } => match repo_subcommands {
            RepoSubcommandsView::Add { owner, repository, api_key } => is_word(owner) && is_word(
                repository,
            ) && is_word(api_key),
            RepoSubcommandsView::Remove { repository, api_key } => is_word(api_key),
            RepoSubcommandsView::List => true,
        },
        _ => true,
    }
}

proof fn lemma_family_tokens_are_words(f: Family)
    ensures
        forall|i: int| 0 <= i < family_tokens(f).len() ==> is_word(#[trigger] family_tokens(f)[i]),
{
    lemma_keywords_are_words();
    match f {
        Family::Issue { issue_action } => issue_action.lemma_name_is_word(),
        Family::Pr { pr_action } => pr_action.lemma_name_is_word(),
    }
}

/// Every command whose free-text parts are single words reads back from the
/// line that spells it, its tokens joined by single spaces.
pub proof fn lemma_parse_text_round_trip(c: CommandsView)
    requires
        is_spelled(c),
    ensures
        spec_parse(words(join_words(command_tokens(c)))) == Ok::<CommandsView, ParseErrorView>(c),
{
    let t = command_tokens(c);
    lemma_keywords_are_words();
    match c {
        CommandsView::Subscribe { repo, family } => {
            crate::text::lemma_decimal_is_word(repo as nat);
            lemma_family_tokens_are_words(family);
            assert forall|i: int| 0 <= i < t.len() implies is_word(#[trigger] t[i]) by {
                if i >= 2 {
                    assert(t[i] == family_tokens(family)[i - 2]);
                }
            }
        },
        CommandsView::Unsubscribe { repo, family } => {
            crate::text::lemma_decimal_is_word(repo as nat);
            lemma_family_tokens_are_words(family);
            assert forall|i: int| 0 <= i < t.len() implies is_word(#[trigger] t[i]) by {
                if i >= 2 {
                    assert(t[i] == family_tokens(family)[i - 2]);
                }
            }
        },
        CommandsView::Repositories { repo_subcommands } => {
            match repo_subcommands {
                RepoSubcommandsView::Remove { repository, api_key } => {
                    crate::text::lemma_decimal_is_word(repository as nat);
                },
                _ => {},
            }
            assert forall|i: int| 0 <= i < t.len() implies is_word(#[trigger] t[i]) by {}
        },
    }
    crate::text::lemma_words_join(t);
    lemma_parse_round_trip(c);
}

/// An action word that names no action of the chosen family is refused as an
/// invalid argument that names the word.
pub proof fn lemma_unknown_action(subscribe: bool, repo: usize, issue: bool, action: Seq<char>)
    requires
        issue ==> IssueAction::spec_from_name(action) is None,
        !issue ==> PRAction::spec_from_name(action) is None,
    ensures
        spec_parse(
            seq![
                if subscribe {
                    "subscribe"@
                } else {
                    "unsubscribe"@
                },
                decimal(repo as nat),
                if issue {
                    "issue"@
                } else {
                    "pr"@
                },
                action,
            ],
        ) == Err::<CommandsView, ParseErrorView>(ParseErrorView::InvalidArgument(action)),
{
    let kind = if issue {
        "issue"@
    } else {
        "pr"@
    };
    let t = seq![if subscribe { "subscribe"@ } else { "unsubscribe"@ }, decimal(repo as nat), kind, action];
    lemma_keywords_distinct();
    lemma_id_round_trip(repo);
    assert(t.drop_first() =~= seq![decimal(repo as nat), kind, action]);
    assert(t.drop_first().drop_first() =~= seq![kind, action]);
}

/// The tokens from index `k` on.
pub open spec fn rest(t: Seq<String>, k: int) -> Seq<Seq<char>> {
    token_views(t).subrange(k, t.len() as int)
}

proof fn lemma_rest(t: Seq<String>, k: int)
    requires
        0 <= k < t.len(),
    ensures
        rest(t, k).len() == t.len() - k,
        rest(t, k)[0] == t[k]@,
        rest(t, k).drop_first() == rest(t, k + 1),
        forall|i: int| 0 <= i < t.len() - k ==> #[trigger] rest(t, k)[i] == t[k + i]@,
{
    assert(rest(t, k).drop_first() =~= rest(t, k + 1));
}

fn token_is(t: &Vec<String>, i: usize, word: &str) -> (r: bool)
    requires
        i < t.len(),
    ensures
        r == (t@[i as int]@ == word@),
{
    same_text(t[i].as_str(), word)
}

fn parse_id(t: &Vec<String>, i: usize) -> (r: Option<usize>)
    requires
        i < t.len(),
    ensures
        r == spec_parse_id(t@[i as int]@),
{
    parse_decimal(t[i].as_str())
}

fn parse_family(t: &Vec<String>, k: usize) -> (r: Result<Family, ParseError>)
    requires
        k <= t.len(),
    ensures
        error_view(r) == spec_parse_family(rest(t@, k as int)),
{
    let n = t.len();
    proof {
        if k < n {
            lemma_rest(t@, k as int);
        }
    }
    if k >= n {
        return Err(ParseError::MissingArgument);
    }
    if token_is(t, k, "issue") {
        if k + 1 >= n {
            return Err(ParseError::MissingArgument);
        }
        match IssueAction::from_name(t[k + 1].as_str()) {
            None => Err(ParseError::InvalidArgument(t[k + 1].clone())),
            Some(a) => if k + 2 < n {
                Err(ParseError::UnexpectedArgument(t[k + 2].clone()))
            } else {
                Ok(Family::Issue { issue_action: a })
            },
        }
    } else if token_is(t, k, "pr") {
        if k + 1 >= n {
            return Err(ParseError::MissingArgument);
        }
        match PRAction::from_name(t[k + 1].as_str()) {
            None => Err(ParseError::InvalidArgument(t[k + 1].clone())),
            Some(a) => if k + 2 < n {
                Err(ParseError::UnexpectedArgument(t[k + 2].clone()))
            } else {
                Ok(Family::Pr { pr_action: a })
            },
        }
    } else {
        Err(ParseError::InvalidArgument(t[k].clone()))
    }
}

fn parse_topic(t: &Vec<String>, k: usize) -> (r: Result<(usize, Family), ParseError>)
    requires
        k <= t.len(),
    ensures
        error_view(r) == spec_parse_topic(rest(t@, k as int)),
{
    let n = t.len();
    if k >= n {
        return Err(ParseError::MissingArgument);
    }
    proof {
        lemma_rest(t@, k as int);
    }
    match parse_id(t, k) {
        None => Err(ParseError::InvalidArgument(t[k].clone())),
        Some(repo) => match parse_family(t, k + 1) {
            Ok(family) => Ok((repo, family)),
            Err(e) => Err(e),
        },
    }
}

fn parse_repositories(t: &Vec<String>, k: usize) -> (r: Result<RepoSubcommands, ParseError>)
    requires
        k <= t.len(),
    ensures
        result_view(r) == spec_parse_repositories(rest(t@, k as int)),
{
    let n = t.len();
    if k >= n {
        return Err(ParseError::MissingArgument);
    }
    proof {
        lemma_rest(t@, k as int);
    }
    if token_is(t, k, "list") {
        if k + 1 < n {
            Err(ParseError::UnexpectedArgument(t[k + 1].clone()))
        } else {
            Ok(RepoSubcommands::List)
        }
    } else if token_is(t, k, "add") {
        if n - k < 4 {
            Err(ParseError::MissingArgument)
        } else if n - k > 4 {
            Err(ParseError::UnexpectedArgument(t[k + 4].clone()))
        } else {
            Ok(
                RepoSubcommands::Add {
                    owner: t[k + 1].clone(),
                    repository: t[k + 2].clone(),
                    api_key: t[k + 3].clone(),
                },
            )
        }
    } else if token_is(t, k, "remove") {
        if n - k < 2 {
            return Err(ParseError::MissingArgument);
        }
        match parse_id(t, k + 1) {
            None => Err(ParseError::InvalidArgument(t[k + 1].clone())),
            Some(id) => if n - k < 3 {
                Err(ParseError::MissingArgument)
            } else if n - k > 3 {
                Err(ParseError::UnexpectedArgument(t[k + 3].clone()))
            } else {
                Ok(RepoSubcommands::Remove { repository: id, api_key: t[k + 2].clone() })
            },
        }
    } else {
        Err(ParseError::UnknownCommand(t[k].clone()))
    }
}

/// Reads the command that starts at token `k`.
fn parse_at(t: &Vec<String>, k: usize) -> (r: Result<Commands, ParseError>)
    requires
        k <= t.len(),
    ensures
        result_view(r) == spec_parse(rest(t@, k as int)),
{
    let n = t.len();
    if k >= n {
        return Err(ParseError::MissingArgument);
    }
    proof {
        lemma_rest(t@, k as int);
    }
    if token_is(t, k, "subscribe") {
        match parse_topic(t, k + 1) {
            Ok((repo, family)) => Ok(Commands::Subscribe { repo, family }),
            Err(e) => Err(e),
        }
    } else if token_is(t, k, "unsubscribe") {
        match parse_topic(t, k + 1) {
            Ok((repo, family)) => Ok(Commands::Unsubscribe { repo, family }),
            Err(e) => Err(e),
        }
    } else if token_is(t, k, "repositories") {
        match parse_repositories(t, k + 1) {
            Ok(sub) => Ok(Commands::Repositories { repo_subcommands: sub }),
            Err(e) => Err(e),
        }
    } else {
        Err(ParseError::UnknownCommand(t[k].clone()))
    }
}

/// Reads a command from its tokens.
pub fn parse(tokens: &Vec<String>) -> (r: Result<Commands, ParseError>)
    ensures
        result_view(r) == spec_parse(token_views(tokens@)),
{
    assert(rest(tokens@, 0) =~= token_views(tokens@));
    parse_at(tokens, 0)
}

/// Reads a command from a line of text, split into words at spaces.
pub fn parse_text(text: &str) -> (r: Result<Commands, ParseError>)
    ensures
        result_view(r) == spec_parse(words(text@)),
{
    let tokens = split_words(text);
    parse(&tokens)
}

impl Cli {
    /// Reads a command line whose first token is the trigger word, which is skipped.
    pub fn try_parse_from(args: &Vec<String>) -> (r: Result<Cli, ParseError>)
        ensures
            args.len() == 0 ==> r == Err::<Cli, ParseError>(ParseError::MissingArgument),
            args.len() > 0 ==> match r {
                Ok(cli) => spec_parse(token_views(args@).drop_first()) == Ok::<
                    CommandsView,
                    ParseErrorView,
                >(cli.command@),
                Err(e) => spec_parse(token_views(args@).drop_first()) == Err::<
                    CommandsView,
                    ParseErrorView,
                >(e@),
            },
    {
        if args.len() == 0 {
            return Err(ParseError::MissingArgument);
        }
        assert(rest(args@, 1) =~= token_views(args@).drop_first());
        match parse_at(args, 1) {
            Ok(command) => Ok(Cli { command }),
            Err(e) => Err(e),
        }
    }
}

} // verus!
