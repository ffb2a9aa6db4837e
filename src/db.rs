//! The registry of repositories and of the conversations subscribed to their events.
use vstd::prelude::*;
use crate::parser::Family;
use crate::shared::{IssueAction, PRAction};

verus! {

/// A repository as it is handed to the registry.
#[derive(Default, Debug)]
pub struct Repository<'a> {
    pub name: &'a str,
    pub owner: &'a str,
    pub hook_id: usize,
    pub id: usize,
    pub url: &'a str,
}

/// A repository as the registry keeps it.
#[derive(Clone, Debug, PartialEq, Eq)]
pub struct StoredRepository {
    pub id: usize,
    pub owner: String,
    pub name: String,
    pub url: String,
    pub hook_id: usize,
}

/// What the registry holds of a repository besides its id.
pub struct RepositoryView {
    pub owner: Seq<char>,
    pub name: Seq<char>,
    pub url: Seq<char>,
    pub hook_id: usize,
}

impl<'a> View for Repository<'a> {
    type V = RepositoryView;

    open spec fn view(&self) -> RepositoryView {
        RepositoryView { owner: self.owner@, name: self.name@, url: self.url@, hook_id: self.hook_id }
    }
}

impl View for StoredRepository {
    type V = RepositoryView;

    open spec fn view(&self) -> RepositoryView {
        RepositoryView { owner: self.owner@, name: self.name@, url: self.url@, hook_id: self.hook_id }
    }
}

/// One notification topic: a repository and a kind of event in it.
#[derive(Clone, Copy, Debug, PartialEq, Eq, Structural, Hash)]
pub struct SubscriptionKey {
    pub repo: usize,
    pub family: Family,
}

/// The stable name under which the subscribers of a family are stored, such
/// as `issue_opened` or `pr_closed`.
pub open spec fn spec_list_prefix(family: Family) -> Seq<char> {
    match family {
        Family::Pr { pr_action } => "pr_"@ + pr_action.spec_name(),
        Family::Issue { issue_action } => "issue_"@ + issue_action.spec_name(),
    }
}

/// The family whose stored name is `s`, if any.
pub open spec fn spec_family_of_list(s: Seq<char>) -> Option<Family> {
    if s.len() >= 6 && s.subrange(0, 6) == "issue_"@ {
        match IssueAction::spec_from_name(s.subrange(6, s.len() as int)) {
            Some(a) => Some(Family::Issue { issue_action: a }),
            None => None,
        }
    } else if s.len() >= 3 && s.subrange(0, 3) == "pr_"@ {
        match PRAction::spec_from_name(s.subrange(3, s.len() as int)) {
            Some(a) => Some(Family::Pr { pr_action: a }),
            None => None,
        }
    } else {
        None
    }
}

/// Return under which name the subscribers of a family are stored
pub fn get_list_prefix(family: Family) -> (r: String)
    ensures
        r@ == spec_list_prefix(family),
{
    match family {
        Family::Pr { pr_action } => {
            let mut s = String::from_str("pr_");
            s.append(pr_action.name());
            s
        },
        Family::Issue { issue_action } => {
            let mut s = String::from_str("issue_");
            s.append(issue_action.name());
            s
        },
    }
}

/// The family whose subscribers are stored under `name`, if any.
pub fn family_of_list(name: &str) -> (r: Option<Family>)
    ensures
        r == spec_family_of_list(name@),
{
    proof {
        reveal_strlit("issue_");
        reveal_strlit("pr_");
    }
    let n = name.unicode_len();
    if n >= 6 && crate::text::same_text(name.substring_char(0, 6), "issue_") {
        match IssueAction::from_name(name.substring_char(6, n)) {
            Some(a) => Some(Family::Issue { issue_action: a }),
            None => None,
        }
    } else if n >= 3 && crate::text::same_text(name.substring_char(0, 3), "pr_") {
        match PRAction::from_name(name.substring_char(3, n)) {
            Some(a) => Some(Family::Pr { pr_action: a }),
            None => None,
        }
    } else {
        None
    }
}

/// Reading back the stored name of a family gives the family, so that stored
/// subscriptions keep their meaning.
pub proof fn lemma_list_prefix_round_trip(family: Family)
    ensures
        spec_family_of_list(spec_list_prefix(family)) == Some(family),
{
    reveal_strlit("issue_");
    reveal_strlit("pr_");
    let s = spec_list_prefix(family);
    match family {
        Family::Pr { pr_action } => {
            pr_action.lemma_name_round_trip();
            assert(s.subrange(0, 3) =~= "pr_"@);
            assert(s.subrange(3, s.len() as int) =~= pr_action.spec_name());
            assert(s.len() < 6 || s.subrange(0, 6) != "issue_"@) by {
                if s.len() >= 6 {
                    assert(s.subrange(0, 6)[0] != "issue_"@[0]);
                }
            }
        },
        Family::Issue { issue_action } => {
            issue_action.lemma_name_round_trip();
            assert(s.subrange(0, 6) =~= "issue_"@);
            assert(s.subrange(6, s.len() as int) =~= issue_action.spec_name());
        },
    }
}

/// Why a registry operation failed.
#[derive(Clone, Copy, Debug, PartialEq, Eq, Structural)]
pub enum RegistryError {
    /// The repository is already registered.
    Conflict,
    /// The repository is not registered.
    NotFound,
    /// The storage behind the registry failed.
    StorageFailure,
}

/// What the registry holds: repositories by id, and pairs of a topic and a
/// conversation subscribed to it.
pub struct RegistryView {
    pub repositories: Map<usize, RepositoryView>,
    pub subscriptions: Set<(SubscriptionKey, u32)>,
}

impl RegistryView {
    /// The conversations subscribed to `key`.
    pub open spec fn subscribers(self, key: SubscriptionKey) -> Set<u32> {
        Set::new(|c: u32| self.subscriptions.contains((key, c)))
    }

    /// The ids of the registered repositories.
    pub open spec fn repository_ids(self) -> Set<usize> {
        self.repositories.dom()
    }

    /// The registry with `chat` subscribed to `key`.
    pub open spec fn with_subscriber(self, key: SubscriptionKey, chat: u32) -> RegistryView {
        RegistryView { subscriptions: self.subscriptions.insert((key, chat)), ..self }
    }

    /// The registry with `chat` no longer subscribed to `key`.
    pub open spec fn without_subscriber(self, key: SubscriptionKey, chat: u32) -> RegistryView {
        RegistryView { subscriptions: self.subscriptions.remove((key, chat)), ..self }
    }

    /// The registry after an attempt to add a repository: unchanged if the id
    /// is taken.
    pub open spec fn after_add_repository(self, id: usize, repo: RepositoryView) -> RegistryView {
        if self.repositories.contains_key(id) {
            self
        } else {
            RegistryView { repositories: self.repositories.insert(id, repo), ..self }
        }
    }

    /// The registry after an attempt to remove a repository: the repository
    /// goes, and every subscription to its topics with it.
    pub open spec fn after_remove_repository(self, id: usize) -> RegistryView {
        if self.repositories.contains_key(id) {
            RegistryView {
                repositories: self.repositories.remove(id),
                subscriptions: self.subscriptions.filter(|s: (SubscriptionKey, u32)| s.0.repo != id),
            }
        } else {
            self
        }
    }
}

/// Subscribing a conversation twice leaves the same registry as subscribing it once.
pub proof fn lemma_add_subscriber_idempotent(v: RegistryView, key: SubscriptionKey, chat: u32)
    ensures
        v.with_subscriber(key, chat).with_subscriber(key, chat) == v.with_subscriber(key, chat),
{
    assert(v.with_subscriber(key, chat).subscriptions.insert((key, chat)) =~= v.with_subscriber(
        key,
        chat,
    ).subscriptions);
}

/// Unsubscribing a conversation that is not subscribed changes nothing.
pub proof fn lemma_remove_absent_subscriber(v: RegistryView, key: SubscriptionKey, chat: u32)
    requires
        !v.subscribers(key).contains(chat),
    ensures
        v.without_subscriber(key, chat) == v,
{
    assert(v.subscriptions.remove((key, chat)) =~= v.subscriptions);
}

/// After a repository is added its id is listed, and after it is then removed
/// its id is no longer listed.
pub proof fn lemma_add_then_remove_repository(v: RegistryView, id: usize, repo: RepositoryView)
    ensures
        v.after_add_repository(id, repo).repository_ids().contains(id),
        !v.after_add_repository(id, repo).after_remove_repository(id).repository_ids().contains(id),
{
}

/// Repositories and subscriptions, kept in memory.
pub struct DB {
    repositories: Vec<StoredRepository>,
    subscriptions: Vec<(SubscriptionKey, u32)>,
}

/// The position of the repository with `id` in `s`.
spec fn index_of(s: Seq<StoredRepository>, id: usize) -> int {
    choose|i: int| 0 <= i < s.len() && s[i].id == id
}

spec fn holds_id(s: Seq<StoredRepository>, id: usize) -> bool {
    exists|i: int| 0 <= i < s.len() && s[i].id == id
}

spec fn unique_ids(s: Seq<StoredRepository>) -> bool {
    forall|i: int, j: int| 0 <= i < s.len() && 0 <= j < s.len() && s[i].id == s[j].id ==> i == j
}

spec fn repository_map(s: Seq<StoredRepository>) -> Map<usize, RepositoryView> {
    Map::new(|id: usize| holds_id(s, id), |id: usize| s[index_of(s, id)]@)
}

proof fn lemma_index_of(s: Seq<StoredRepository>, i: int)
    requires
        unique_ids(s),
        0 <= i < s.len(),
    ensures
        index_of(s, s[i].id) == i,
        repository_map(s).contains_key(s[i].id),
        repository_map(s)[s[i].id] == s[i]@,
{
    assert(holds_id(s, s[i].id));
}

proof fn lemma_push_repository(s: Seq<StoredRepository>, r: StoredRepository)
    requires
        unique_ids(s),
        !holds_id(s, r.id),
    ensures
        unique_ids(s.push(r)),
        repository_map(s.push(r)) == repository_map(s).insert(r.id, r@),
{
    let t = s.push(r);
    assert forall|i: int, j: int|
        0 <= i < t.len() && 0 <= j < t.len() && t[i].id == t[j].id implies i == j by {
        if i < s.len() && j == s.len() {
            assert(s[i].id == r.id);
        }
        if j < s.len() && i == s.len() {
            assert(s[j].id == r.id);
        }
    }
    assert forall|id: usize| #[trigger]
        repository_map(t).contains_key(id) == repository_map(s).insert(r.id, r@).contains_key(
            id,
        ) by {
        if holds_id(s, id) {
            let i = choose|i: int| 0 <= i < s.len() && s[i].id == id;
            assert(t[i].id == id);
        }
        if id == r.id {
            assert(t[s.len() as int].id == id);
        }
        if holds_id(t, id) {
            let i = choose|i: int| 0 <= i < t.len() && t[i].id == id;
            if i < s.len() {
                assert(s[i].id == id);
            }
        }
    }
    assert forall|id: usize| #[trigger] repository_map(t).contains_key(id) implies repository_map(
        t,
    )[id] == repository_map(s).insert(r.id, r@)[id] by {
        let i = choose|i: int| 0 <= i < t.len() && t[i].id == id;
        lemma_index_of(t, i);
        if i < s.len() {
            assert(s[i] == t[i]);
            lemma_index_of(s, i);
        }
    }
    assert(repository_map(t) =~= repository_map(s).insert(r.id, r@));
}

proof fn lemma_remove_repository(s: Seq<StoredRepository>, k: int)
    requires
        unique_ids(s),
        0 <= k < s.len(),
    ensures
        unique_ids(s.remove(k)),
        repository_map(s.remove(k)) == repository_map(s).remove(s[k].id),
{
    let t = s.remove(k);
    let id0 = s[k].id;
    assert forall|i: int| 0 <= i < t.len() implies #[trigger] t[i] == s[if i < k {
        i
    } else {
        i + 1
    }] by {}
    assert forall|i: int, j: int|
        0 <= i < t.len() && 0 <= j < t.len() && t[i].id == t[j].id implies i == j by {
        let si = if i < k { i } else { i + 1 };
        let sj = if j < k { j } else { j + 1 };
        assert(t[i] == s[si] && t[j] == s[sj]);
    }
    assert forall|id: usize| #[trigger]
        repository_map(t).contains_key(id) == repository_map(s).remove(id0).contains_key(id) by {
        if holds_id(t, id) {
            let i = choose|i: int| 0 <= i < t.len() && t[i].id == id;
            let si = if i < k { i } else { i + 1 };
            assert(s[si].id == id);
            assert(si != k);
        }
        if holds_id(s, id) && id != id0 {
            let i = choose|i: int| 0 <= i < s.len() && s[i].id == id;
            assert(i != k);
            let ti = if i < k { i } else { i - 1 };
            assert(t[ti] == s[i]);
        }
    }
    assert forall|id: usize| #[trigger] repository_map(t).contains_key(id) implies repository_map(
        t,
    )[id] == repository_map(s).remove(id0)[id] by {
        let i = choose|i: int| 0 <= i < t.len() && t[i].id == id;
        let si = if i < k { i } else { i + 1 };
        lemma_index_of(t, i);
        assert(t[i] == s[si]);
        lemma_index_of(s, si);
    }
    assert(repository_map(t) =~= repository_map(s).remove(id0));
}

proof fn lemma_prefix_step<T>(s: Seq<T>, j: int)
    requires
        0 <= j < s.len(),
    ensures
        forall|x: T|
            #[trigger] s.subrange(0, j + 1).contains(x) <==> (s.subrange(0, j).contains(x) || x
                == s[j]),
{
    assert forall|x: T| #[trigger] s.subrange(0, j + 1).contains(x) <==> (s.subrange(
        0,
        j,
    ).contains(x) || x == s[j]) by {
        if s.subrange(0, j + 1).contains(x) {
            let k = choose|k: int| 0 <= k < j + 1 && #[trigger] s.subrange(0, j + 1)[k] == x;
            if k < j {
                assert(s.subrange(0, j)[k] == x);
            }
        }
        if s.subrange(0, j).contains(x) {
            let k = choose|k: int| 0 <= k < j && #[trigger] s.subrange(0, j)[k] == x;
            assert(s.subrange(0, j + 1)[k] == x);
        }
        if x == s[j] {
            assert(s.subrange(0, j + 1)[j] == x);
        }
    }
}

proof fn lemma_push_distinct<T>(s: Seq<T>, x: T)
    requires
        s.no_duplicates(),
        !s.contains(x),
    ensures
        s.push(x).no_duplicates(),
        forall|y: T| #[trigger] s.push(x).contains(y) <==> (s.contains(y) || y == x),
{
    let t = s.push(x);
    assert forall|a: int, b: int| 0 <= a < t.len() && 0 <= b < t.len() && a != b implies t[a]
        != t[b] by {
        if a == s.len() {
            assert(s.contains(t[b]));
        } else if b == s.len() {
            assert(s.contains(t[a]));
        }
    }
    assert forall|y: T| #[trigger] t.contains(y) <==> (s.contains(y) || y == x) by {
        if t.contains(y) {
            let k = choose|k: int| 0 <= k < t.len() && t[k] == y;
            if k < s.len() {
                assert(s[k] == y);
            }
        }
        if s.contains(y) {
            let k = choose|k: int| 0 <= k < s.len() && s[k] == y;
            assert(t[k] == y);
        }
        if y == x {
            assert(t[s.len() as int] == y);
        }
    }
}

proof fn lemma_remove_distinct<T>(s: Seq<T>, i: int)
    requires
        s.no_duplicates(),
        0 <= i < s.len(),
    ensures
        s.remove(i).no_duplicates(),
        forall|y: T| #[trigger] s.remove(i).contains(y) <==> (s.contains(y) && y != s[i]),
{
    let t = s.remove(i);
    assert forall|a: int| 0 <= a < t.len() implies #[trigger] t[a] == s[if a < i {
        a
    } else {
        a + 1
    }] by {}
    assert forall|a: int, b: int| 0 <= a < t.len() && 0 <= b < t.len() && a != b implies t[a]
        != t[b] by {
        let sa = if a < i { a } else { a + 1 };
        let sb = if b < i { b } else { b + 1 };
        assert(t[a] == s[sa] && t[b] == s[sb]);
    }
    assert forall|y: T| #[trigger] t.contains(y) <==> (s.contains(y) && y != s[i]) by {
        if t.contains(y) {
            let k = choose|k: int| 0 <= k < t.len() && t[k] == y;
            let sk = if k < i { k } else { k + 1 };
            assert(s[sk] == y);
        }
        if s.contains(y) && y != s[i] {
            let k = choose|k: int| 0 <= k < s.len() && s[k] == y;
            let tk = if k < i { k } else { k - 1 };
            assert(t[tk] == y);
        }
    }
}

spec fn ids_of(s: Seq<StoredRepository>) -> Seq<usize> {
    s.map_values(|x: StoredRepository| x.id)
}

proof fn lemma_unique_ids_len(s: Seq<StoredRepository>)
    requires
        unique_ids(s),
    ensures
        repository_map(s).len() == s.len(),
{
    let ids = ids_of(s);
    assert(ids.no_duplicates()) by {
        assert forall|a: int, b: int| 0 <= a < ids.len() && 0 <= b < ids.len() && a != b implies ids[a]
            != ids[b] by {
            assert(ids[a] == s[a].id && ids[b] == s[b].id);
        }
    }
    ids.unique_seq_to_set();
    assert forall|id: usize| #[trigger] ids_of(s).to_set().contains(id) == repository_map(
        s,
    ).dom().contains(id) by {
        if holds_id(s, id) {
            let k = choose|k: int| 0 <= k < s.len() && s[k].id == id;
            assert(ids[k] == id);
        }
    }
    assert(ids.to_set() =~= repository_map(s).dom());
}

impl View for DB {
    type V = RegistryView;

    closed spec fn view(&self) -> RegistryView {
        RegistryView {
            repositories: repository_map(self.repositories@),
            subscriptions: self.subscriptions@.to_set(),
        }
    }
}

impl DB {
    /// Repository ids are unique, and no subscription is held twice.
    pub closed spec fn wf(&self) -> bool {
        unique_ids(self.repositories@) && self.subscriptions@.no_duplicates()
    }

    /// An empty registry.
    pub fn new() -> (r: DB)
        ensures
            r.wf(),
            r@.repositories == Map::<usize, RepositoryView>::empty(),
            r@.subscriptions == Set::<(SubscriptionKey, u32)>::empty(),
    {
        let r = DB { repositories: Vec::new(), subscriptions: Vec::new() };
        assert(r@.repositories =~= Map::<usize, RepositoryView>::empty());
        assert(r@.subscriptions =~= Set::<(SubscriptionKey, u32)>::empty());
        r
    }

    fn find_repository(&self, id: usize) -> (r: Option<usize>)
        requires
            self.wf(),
        ensures
            match r {
                Some(i) => i < self.repositories@.len() && self.repositories@[i as int].id == id,
                None => !self@.repositories.contains_key(id),
            },
    {
        let mut i: usize = 0;
        while i < self.repositories.len()
            invariant
                i <= self.repositories@.len(),
                forall|j: int| 0 <= j < i ==> self.repositories@[j].id != id,
            decreases self.repositories@.len() - i,
        {
            if self.repositories[i].id == id {
                return Some(i);
            }
            i = i + 1;
        }
        None
    }

    /// Whether a repository with `id` is registered.
    pub fn has_repository(&self, id: usize) -> (r: bool)
        requires
            self.wf(),
        ensures
            r == self@.repositories.contains_key(id),
    {
        match self.find_repository(id) {
            Some(i) => {
                proof {
                    lemma_index_of(self.repositories@, i as int);
                }
                true
            },
            None => false,
        }
    }

    /// Add a repository to the collection of repositories
    pub fn add_repository<'a>(&mut self, repo: Repository<'a>) -> (r: Result<(), RegistryError>)
        requires
            old(self).wf(),
        ensures
            final(self).wf(),
            final(self)@ == old(self)@.after_add_repository(repo.id, repo@),
            r is Err <==> old(self)@.repositories.contains_key(repo.id),
            r is Err ==> r == Err::<(), RegistryError>(RegistryError::Conflict),
    {
        if self.has_repository(repo.id) {
            return Err(RegistryError::Conflict);
        }
        let stored = StoredRepository {
            id: repo.id,
            owner: String::from_str(repo.owner),
            name: String::from_str(repo.name),
            url: String::from_str(repo.url),
            hook_id: repo.hook_id,
        };
        proof {
            lemma_push_repository(self.repositories@, stored);
        }
        self.repositories.push(stored);
        assert(self@.repositories =~= old(self)@.repositories.insert(repo.id, repo@));
        Ok(())
    }

    /// Get the ids of all available repositories
    pub fn get_repository_ids(&self) -> (r: Vec<usize>)
        requires
            self.wf(),
        ensures
            r@.to_set() == self@.repository_ids(),
            r@.no_duplicates(),
    {
        let mut ids: Vec<usize> = Vec::new();
        let mut i: usize = 0;
        while i < self.repositories.len()
            invariant
                i <= self.repositories@.len(),
                unique_ids(self.repositories@),
                ids@.len() == i,
                forall|k: int| 0 <= k < i ==> #[trigger] ids@[k] == self.repositories@[k].id,
            decreases self.repositories@.len() - i,
        {
            ids.push(self.repositories[i].id);
            i = i + 1;
        }
        proof {
            let s = self.repositories@;
            assert forall|id: usize| #[trigger] ids@.to_set().contains(id) == self@.repository_ids().contains(id) by {
                if ids@.contains(id) {
                    let k = choose|k: int| 0 <= k < ids@.len() && ids@[k] == id;
                    lemma_index_of(s, k);
                }
                if holds_id(s, id) {
                    let k = choose|k: int| 0 <= k < s.len() && s[k].id == id;
                    assert(ids@[k] == id);
                }
            }
            assert(ids@.to_set() =~= self@.repository_ids());
        }
        ids
    }

    /// The repository registered under `id`.
    pub fn get_repository(&self, id: usize) -> (r: Result<StoredRepository, RegistryError>)
        requires
            self.wf(),
        ensures
            r is Ok <==> self@.repositories.contains_key(id),
            match r {
                Ok(repo) => repo.id == id && repo@ == self@.repositories[id],
                Err(e) => e == RegistryError::NotFound,
            },
    {
        match self.find_repository(id) {
            Some(i) => {
                proof {
                    lemma_index_of(self.repositories@, i as int);
                }
                let found = &self.repositories[i];
                Ok(
                    StoredRepository {
                        id: found.id,
                        owner: found.owner.clone(),
                        name: found.name.clone(),
                        url: found.url.clone(),
                        hook_id: found.hook_id,
                    },
                )
            },
            None => Err(RegistryError::NotFound),
        }
    }

    /// Get the hook-id of one repository
    pub fn get_hook_id(&self, id: usize) -> (r: Result<usize, RegistryError>)
        requires
            self.wf(),
        ensures
            r is Ok <==> self@.repositories.contains_key(id),
            match r {
                Ok(h) => h == self@.repositories[id].hook_id,
                Err(e) => e == RegistryError::NotFound,
            },
    {
        match self.get_repository(id) {
            Ok(repo) => Ok(repo.hook_id),
            Err(e) => Err(e),
        }
    }

    /// Get the owner of one repository
    pub fn get_owner(&self, id: usize) -> (r: Result<String, RegistryError>)
        requires
            self.wf(),
        ensures
            r is Ok <==> self@.repositories.contains_key(id),
            match r {
                Ok(o) => o@ == self@.repositories[id].owner,
                Err(e) => e == RegistryError::NotFound,
            },
    {
        match self.get_repository(id) {
            Ok(repo) => Ok(repo.owner),
            Err(e) => Err(e),
        }
    }

    /// Get the name of one repository
    pub fn get_name(&self, id: usize) -> (r: Result<String, RegistryError>)
        requires
            self.wf(),
        ensures
            r is Ok <==> self@.repositories.contains_key(id),
            match r {
                Ok(n) => n@ == self@.repositories[id].name,
                Err(e) => e == RegistryError::NotFound,
            },
    {
        match self.get_repository(id) {
            Ok(repo) => Ok(repo.name),
            Err(e) => Err(e),
        }
    }

    /// Every registered repository, each once.
    pub fn repositories(&self) -> (r: Vec<StoredRepository>)
        requires
            self.wf(),
        ensures
            r@.len() == self@.repositories.len(),
            forall|i: int| 0 <= i < r@.len() ==> self@.repositories.contains_key(#[trigger] r@[i].id)
                && self@.repositories[r@[i].id] == r@[i]@,
            forall|id: usize| #[trigger] self@.repositories.contains_key(id) ==> exists|i: int|
                0 <= i < r@.len() && r@[i].id == id,
    {
        let mut out: Vec<StoredRepository> = Vec::new();
        let mut i: usize = 0;
        while i < self.repositories.len()
            invariant
                i <= self.repositories@.len(),
                unique_ids(self.repositories@),
                out@ == self.repositories@.take(i as int),
            decreases self.repositories@.len() - i,
        {
            let found = &self.repositories[i];
            out.push(
                StoredRepository {
                    id: found.id,
                    owner: found.owner.clone(),
                    name: found.name.clone(),
                    url: found.url.clone(),
                    hook_id: found.hook_id,
                },
            );
            assert(out@ =~= self.repositories@.take(i + 1));
            i = i + 1;
        }
        proof {
            let s = self.repositories@;
            assert(out@ =~= s);
            assert forall|k: int| 0 <= k < out@.len() implies self@.repositories.contains_key(
                #[trigger] out@[k].id,
            ) && self@.repositories[out@[k].id] == out@[k]@ by {
                lemma_index_of(s, k);
            }
            assert forall|id: usize| #[trigger] self@.repositories.contains_key(id) implies exists|
                k: int,
            | 0 <= k < out@.len() && out@[k].id == id by {
                assert(holds_id(s, id));
            }
            lemma_unique_ids_len(s);
        }
        out
    }

    /// Every subscription, each once.
    pub fn subscriptions(&self) -> (r: Vec<(SubscriptionKey, u32)>)
        requires
            self.wf(),
        ensures
            r@.to_set() == self@.subscriptions,
            r@.no_duplicates(),
    {
        let mut out: Vec<(SubscriptionKey, u32)> = Vec::new();
        let mut i: usize = 0;
        while i < self.subscriptions.len()
            invariant
                i <= self.subscriptions@.len(),
                out@ == self.subscriptions@.take(i as int),
            decreases self.subscriptions@.len() - i,
        {
            out.push(self.subscriptions[i]);
            assert(out@ =~= self.subscriptions@.take(i + 1));
            i = i + 1;
        }
        assert(out@ =~= self.subscriptions@);
        out
    }

    fn find_subscription(&self, key: SubscriptionKey, chat: u32) -> (r: Option<usize>)
        ensures
            match r {
                Some(i) => i < self.subscriptions@.len() && self.subscriptions@[i as int] == (
                key,
                chat,
                ),
                None => !self.subscriptions@.contains((key, chat)),
            },
    {
        let mut i: usize = 0;
        while i < self.subscriptions.len()
            invariant
                i <= self.subscriptions@.len(),
                forall|j: int| 0 <= j < i ==> self.subscriptions@[j] != (key, chat),
            decreases self.subscriptions@.len() - i,
        {
            let s = self.subscriptions[i];
            if s.0 == key && s.1 == chat {
                return Some(i);
            }
            i = i + 1;
        }
        None
    }

    /// Add a conversation as subscriber to a topic; subscribing twice is the
    /// same as subscribing once.
    pub fn add_subscriber(&mut self, key: SubscriptionKey, chat: u32)
        requires
            old(self).wf(),
        ensures
            final(self).wf(),
            final(self)@ == old(self)@.with_subscriber(key, chat),
    {
        if self.find_subscription(key, chat).is_none() {
            proof {
                lemma_push_distinct(self.subscriptions@, (key, chat));
            }
            self.subscriptions.push((key, chat));
            assert(self@.subscriptions =~= old(self)@.subscriptions.insert((key, chat)));
        } else {
            assert(self@.subscriptions =~= old(self)@.subscriptions.insert((key, chat)));
        }
        assert(self@.repositories == old(self)@.repositories);
    }

    /// Remove a conversation from the subscribers to a topic; removing one that
    /// is not subscribed changes nothing.
    pub fn remove_subscriber(&mut self, key: SubscriptionKey, chat: u32)
        requires
            old(self).wf(),
        ensures
            final(self).wf(),
            final(self)@ == old(self)@.without_subscriber(key, chat),
    {
        match self.find_subscription(key, chat) {
            Some(i) => {
                proof {
                    lemma_remove_distinct(self.subscriptions@, i as int);
                }
                self.subscriptions.remove(i);
                assert(self@.subscriptions =~= old(self)@.subscriptions.remove((key, chat)));
            },
            None => {
                assert(self@.subscriptions =~= old(self)@.subscriptions.remove((key, chat)));
            },
        }
        assert(self@.repositories == old(self)@.repositories);
    }

    /// Return all conversations which subscribed to an action
    pub fn get_subscribers(&self, repo: usize, family: Family) -> (r: Vec<u32>)
        requires
            self.wf(),
        ensures
            r@.to_set() == self@.subscribers(SubscriptionKey { repo, family }),
            r@.no_duplicates(),
    {
        let key = SubscriptionKey { repo, family };
        let mut out: Vec<u32> = Vec::new();
        let mut i: usize = 0;
        while i < self.subscriptions.len()
            invariant
                i <= self.subscriptions@.len(),
                self.subscriptions@.no_duplicates(),
                out@.no_duplicates(),
                forall|c: u32| #[trigger]
                    out@.contains(c) <==> self.subscriptions@.subrange(0, i as int).contains(
                        (key, c),
                    ),
            decreases self.subscriptions@.len() - i,
        {
            let s = self.subscriptions[i];
            proof {
                lemma_prefix_step(self.subscriptions@, i as int);
            }
            if s.0 == key {
                proof {
                    if out@.contains(s.1) {
                        let k = choose|k: int|
                            0 <= k < i && #[trigger] self.subscriptions@.subrange(0, i as int)[k] == (key, s.1);
                        assert(self.subscriptions@[k] == self.subscriptions@[i as int]);
                    }
                    lemma_push_distinct(out@, s.1);
                }
                out.push(s.1);
            }
            i = i + 1;
        }
        assert(self.subscriptions@.subrange(0, i as int) =~= self.subscriptions@);
        assert(out@.to_set() =~= self@.subscribers(key));
        out
    }

    /// Remove repository from the collection of repositories, together with
    /// every subscription to its events.
    pub fn remove_repository(&mut self, id: usize) -> (r: Result<(), RegistryError>)
        requires
            old(self).wf(),
        ensures
            final(self).wf(),
            final(self)@ == old(self)@.after_remove_repository(id),
            r is Err <==> !old(self)@.repositories.contains_key(id),
            r is Err ==> r == Err::<(), RegistryError>(RegistryError::NotFound),
    {
        let i = match self.find_repository(id) {
            Some(i) => i,
            None => return Err(RegistryError::NotFound),
        };
        proof {
            lemma_index_of(self.repositories@, i as int);
            lemma_remove_repository(self.repositories@, i as int);
        }
        self.repositories.remove(i);
        let mut kept: Vec<(SubscriptionKey, u32)> = Vec::new();
        let mut j: usize = 0;
        while j < self.subscriptions.len()
            invariant
                j <= self.subscriptions@.len(),
                self.subscriptions@ == old(self).subscriptions@,
                self.subscriptions@.no_duplicates(),
                kept@.no_duplicates(),
                forall|x: (SubscriptionKey, u32)| #[trigger]
                    kept@.contains(x) <==> (self.subscriptions@.subrange(0, j as int).contains(x)
                        && x.0.repo != id),
            decreases self.subscriptions@.len() - j,
        {
            let s = self.subscriptions[j];
            proof {
                lemma_prefix_step(self.subscriptions@, j as int);
                if kept@.contains(s) {
                    let k = choose|k: int|
                        0 <= k < j && #[trigger] self.subscriptions@.subrange(0, j as int)[k] == s;
                    assert(self.subscriptions@[k] == self.subscriptions@[j as int]);
                }
            }
            if s.0.repo != id {
                proof {
                    lemma_push_distinct(kept@, s);
                }
                kept.push(s);
            }
            j = j + 1;
        }
        assert(self.subscriptions@.subrange(0, j as int) =~= self.subscriptions@);
        self.subscriptions = kept;
        assert(self@.subscriptions =~= old(self)@.subscriptions.filter(
            |s: (SubscriptionKey, u32)| s.0.repo != id,
        ));
        Ok(())
    }
}

} // verus!
