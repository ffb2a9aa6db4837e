//! The bot's answers to chat messages: commands change the registry, and
//! the webhook work they need is handed back to the caller as a request.
use vstd::prelude::*;
use crate::db::{DB, RegistryView, Repository, RepositoryView, SubscriptionKey};
use crate::parser::{Cli, Commands, CommandsView, RepoSubcommands, RepoSubcommandsView, spec_parse};
use crate::text::{decimal, decimal_string, same_text, split_words, words};

verus! {

/// Internal representation of a git repository that can be subscribed to
#[derive(Debug, Default, Clone, PartialEq, Eq)]
pub struct GitRepository {
    pub name: String,
    pub id: i64,
}

/// Github Bot state
pub struct State {
    pub db: DB,
    pub ip: String,
}

/// What the bot does in answer to a chat message.
#[derive(Debug, Clone, PartialEq, Eq)]
pub enum Reaction {
    /// Send this text back to the conversation.
    Reply(String),
    /// Create a webhook for the repository, then report with [`finish_add`].
    CreateHook { owner: String, repository: String, api_key: String },
    /// Remove the repository's webhook, then report with [`finish_remove`].
    RemoveHook { id: usize, owner: String, repository: String, hook_id: usize, api_key: String },
    /// Say nothing.
    Ignore,
}

/// Whether `r` is a reply with the text `t`.
pub open spec fn replies(r: Reaction, t: Seq<char>) -> bool {
    r matches Reaction::Reply(s) && s@ == t
}

pub open spec fn unknown_repository_text(id: usize) -> Seq<char> {
    "Unknown repository "@ + decimal(id as nat)
}

pub open spec fn subscribed_text() -> Seq<char> {
    "Subscribed"@
}

pub open spec fn unsubscribed_text() -> Seq<char> {
    "Unsubscribed"@
}

pub open spec fn no_repositories_text() -> Seq<char> {
    "No repositories"@
}

/// One line per repository id.
pub open spec fn id_lines(ids: Seq<usize>) -> Seq<char>
    decreases ids.len(),
{
    if ids.len() == 0 {
        seq![]
    } else {
        id_lines(ids.drop_last()) + decimal(ids.last() as nat) + "\n"@
    }
}

/// The answer to `repositories list`.
pub open spec fn list_text(ids: Seq<usize>) -> Seq<char> {
    if ids.len() == 0 {
        no_repositories_text()
    } else {
        id_lines(ids)
    }
}

pub open spec fn must_start_text(trigger: Seq<char>) -> Seq<char> {
    "Commands must start with "@ + trigger
}

/// What carrying out command `c` for conversation `chat` does: the registry
/// goes from `before` to `after`, and `r` is the answer. Subscribing to a
/// repository that is not registered is refused; unsubscribing never is.
pub open spec fn executes(
    before: RegistryView,
    after: RegistryView,
    chat: u32,
    c: CommandsView,
    r: Reaction,
) -> bool {
    match c {
        CommandsView::Subscribe { repo, family } => if before.repositories.contains_key(repo) {
            after == before.with_subscriber(SubscriptionKey { repo, family }, chat) && replies(
                r,
                subscribed_text(),
            )
        } else {
            after == before && replies(r, unknown_repository_text(repo))
        },
        CommandsView::Unsubscribe { repo, family } => after == before.without_subscriber(
            SubscriptionKey { repo, family },
            chat,
        ) && replies(r, unsubscribed_text()),
        CommandsView::Repositories { repo_subcommands } => after == before && match repo_subcommands {
            RepoSubcommandsView::List => exists|ids: Seq<usize>|
                ids.to_set() == before.repository_ids() && ids.no_duplicates() && replies(
                    r,
                    list_text(ids),
                ),
            RepoSubcommandsView::Add { owner, repository, api_key } => r matches Reaction::CreateHook {
                owner: o,
                repository: n,
                api_key: k,
            } && o@ == owner && n@ == repository && k@ == api_key,
            RepoSubcommandsView::Remove { repository, api_key } => if before.repositories.contains_key(
                repository,
            ) {
                r matches Reaction::RemoveHook { id, owner: o, repository: n, hook_id, api_key: k }
                    && id == repository && o@ == before.repositories[repository].owner && n@
                    == before.repositories[repository].name && hook_id
                    == before.repositories[repository].hook_id && k@ == api_key
            } else {
                replies(r, unknown_repository_text(repository))
            },
        },
    }
}

fn unknown_repository(id: usize) -> (r: Reaction)
    ensures
        replies(r, unknown_repository_text(id)),
{
    let mut t = String::from_str("Unknown repository ");
    let d = decimal_string(id);
    t.append(d.as_str());
    Reaction::Reply(t)
}

fn list_repositories(ids: &Vec<usize>) -> (r: String)
    ensures
        r@ == list_text(ids@),
{
    if ids.len() == 0 {
        return String::from_str("No repositories");
    }
    let mut t = String::new();
    let mut i: usize = 0;
    while i < ids.len()
        invariant
            i <= ids@.len(),
            t@ == id_lines(ids@.take(i as int)),
        decreases ids@.len() - i,
    {
        assert(ids@.take(i + 1).drop_last() =~= ids@.take(i as int));
        let d = decimal_string(ids[i]);
        t.append(d.as_str());
        t.append("\n");
        i = i + 1;
    }
    assert(ids@.take(i as int) =~= ids@);
    t
}

/// Carries out a command for conversation `chat`.
pub fn execute(db: &mut DB, chat: u32, command: Commands) -> (r: Reaction)
    requires
        old(db).wf(),
    ensures
        final(db).wf(),
        executes(old(db)@, final(db)@, chat, command@, r),
{
    match command {
        Commands::Subscribe { repo, family } => {
            if db.has_repository(repo) {
                db.add_subscriber(SubscriptionKey { repo, family }, chat);
                Reaction::Reply(String::from_str("Subscribed"))
            } else {
                unknown_repository(repo)
            }
        },
        Commands::Unsubscribe { repo, family } => {
            db.remove_subscriber(SubscriptionKey { repo, family }, chat);
            Reaction::Reply(String::from_str("Unsubscribed"))
        },
        Commands::Repositories { repo_subcommands } => match repo_subcommands {
            RepoSubcommands::List => {
                let ids = db.get_repository_ids();
                let r = Reaction::Reply(list_repositories(&ids));
                assert(replies(r, list_text(ids@)));
                r
            },
            RepoSubcommands::Add { owner, repository, api_key } => Reaction::CreateHook {
                owner,
                repository,
                api_key,
            },
            RepoSubcommands::Remove { repository, api_key } => match db.get_repository(repository) {
                Ok(repo) => Reaction::RemoveHook {
                    id: repository,
                    owner: repo.owner,
                    repository: repo.name,
                    hook_id: repo.hook_id,
                    api_key,
                },
                Err(_) => unknown_repository(repository),
            },
        },
    }
}

/// Answers a chat message. A message whose first word is `trigger` is read as a
/// command line; any other gets a hint in a one-to-one chat and no answer in a
/// group.
pub fn handle_message(
    db: &mut DB,
    chat: u32,
    text: &str,
    trigger: &str,
    single_chat: bool,
) -> (r: Reaction)
    requires
        old(db).wf(),
    ensures
        final(db).wf(),
        ({
            let w = words(text@);
            if w.len() == 0 || w[0] != trigger@ {
                final(db)@ == old(db)@ && if single_chat {
                    replies(r, must_start_text(trigger@))
                } else {
                    r == Reaction::Ignore
                }
            } else {
                match spec_parse(w.drop_first()) {
                    Ok(c) => executes(old(db)@, final(db)@, chat, c, r),
                    Err(e) => final(db)@ == old(db)@ && replies(r, e.message()),
                }
            }
        }),
{
    let tokens = split_words(text);
    proof {
        assert(crate::text::token_views(tokens@) == words(text@));
        if tokens@.len() > 0 {
            assert(words(text@)[0] == tokens@[0]@);
        }
    }
    if tokens.len() == 0 || !same_text(tokens[0].as_str(), trigger) {
        if single_chat {
            let mut t = String::from_str("Commands must start with ");
            t.append(trigger);
            Reaction::Reply(t)
        } else {
            Reaction::Ignore
        }
    } else {
        match Cli::try_parse_from(&tokens) {
            Ok(cli) => execute(db, chat, cli.command),
            Err(e) => Reaction::Reply(e.message()),
        }
    }
}

/// What the host reported on a new webhook: the repository's id and address,
/// and the id of the hook.
#[derive(Clone, Debug, PartialEq, Eq)]
pub struct CreatedHook {
    pub id: usize,
    pub url: String,
    pub hook_id: usize,
}

pub open spec fn added_text(id: usize) -> Seq<char> {
    "Added repository "@ + decimal(id as nat)
}

pub open spec fn already_added_text(id: usize) -> Seq<char> {
    "Repository "@ + decimal(id as nat) + " is already registered"@
}

pub open spec fn removed_text(id: usize) -> Seq<char> {
    "Removed repository "@ + decimal(id as nat)
}

/// Completes `repositories add` once the webhook request has been answered:
/// on success the repository is registered; a failure is passed on as it came.
pub fn finish_add(
    db: &mut DB,
    owner: &str,
    repository: &str,
    created: Result<CreatedHook, String>,
) -> (r: String)
    requires
        old(db).wf(),
    ensures
        final(db).wf(),
        match created {
            Ok(h) => final(db)@ == old(db)@.after_add_repository(
                h.id,
                RepositoryView { owner: owner@, name: repository@, url: h.url@, hook_id: h.hook_id },
            ) && r@ == if old(db)@.repositories.contains_key(h.id) {
                already_added_text(h.id)
            } else {
                added_text(h.id)
            },
            Err(msg) => final(db)@ == old(db)@ && r@ == msg@,
        },
{
    match created {
        Err(msg) => msg,
        Ok(h) => {
            let repo = Repository {
                name: repository,
                owner,
                hook_id: h.hook_id,
                id: h.id,
                url: h.url.as_str(),
            };
            let d = decimal_string(h.id);
            match db.add_repository(repo) {
                Ok(()) => {
                    let mut t = String::from_str("Added repository ");
                    t.append(d.as_str());
                    t
                },
                Err(_) => {
                    let mut t = String::from_str("Repository ");
                    t.append(d.as_str());
                    t.append(" is already registered");
                    t
                },
            }
        },
    }
}

/// Completes `repositories remove` once the webhook removal has been answered:
/// on success the repository and its subscriptions go; a failure is passed on
/// as it came.
pub fn finish_remove(db: &mut DB, id: usize, removed: Result<(), String>) -> (r: String)
    requires
        old(db).wf(),
    ensures
        final(db).wf(),
        match removed {
            Ok(()) => final(db)@ == old(db)@.after_remove_repository(id) && r@ == if old(
                db,
            )@.repositories.contains_key(id) {
                removed_text(id)
            } else {
                unknown_repository_text(id)
            },
            Err(msg) => final(db)@ == old(db)@ && r@ == msg@,
        },
{
    match removed {
        Err(msg) => msg,
        Ok(()) => {
            let d = decimal_string(id);
            match db.remove_repository(id) {
                Ok(()) => {
                    let mut t = String::from_str("Removed repository ");
                    t.append(d.as_str());
                    t
                },
                Err(_) => {
                    let mut t = String::from_str("Unknown repository ");
                    t.append(d.as_str());
                    t
                },
            }
        },
    }
}

/// The answer to a message that arrived with an error: a message that could
/// not be decrypted for want of a key gets a request to try again.
pub fn error_reply(error: &str) -> (r: Option<String>)
    ensures
        error@ == "Decrypting failed: missing key"@ ==> (r matches Some(t) && t@
            == "Unable to decrypt your message, but this message might have fixed it, so try again."@),
        error@ != "Decrypting failed: missing key"@ ==> r is None,
{
    if same_text(error, "Decrypting failed: missing key") {
        Some(
            String::from_str(
                "Unable to decrypt your message, but this message might have fixed it, so try again.",
            ),
        )
    } else {
        None
    }
}

} // verus!
