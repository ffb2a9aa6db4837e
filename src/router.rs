//! Turning events into notifications for the subscribed conversations.
use vstd::prelude::*;
use crate::db::{DB, SubscriptionKey};
use crate::parser::Family;
use crate::shared::WebhookEvent;

verus! {

/// The topic that an event belongs to.
pub open spec fn spec_event_key(event: WebhookEvent) -> SubscriptionKey {
    match event {
        WebhookEvent::Issue(e) => SubscriptionKey {
            repo: e.repository.id,
            family: Family::Issue { issue_action: e.action },
        },
        WebhookEvent::PR(e) => SubscriptionKey {
            repo: e.repository.id,
            family: Family::Pr { pr_action: e.action },
        },
    }
}

/// The notification text for an event.
pub open spec fn spec_render(event: WebhookEvent) -> Seq<char> {
    match event {
        WebhookEvent::Issue(e) => "User "@ + e.sender.login@ + " "@ + e.action.spec_name()
            + " issue "@ + e.issue.title@,
        WebhookEvent::PR(e) => "User "@ + e.sender.login@ + " "@ + e.action.spec_name() + " PR "@
            + e.pull_request.title@,
    }
}

/// The topic that an event belongs to.
pub fn event_key(event: &WebhookEvent) -> (r: SubscriptionKey)
    ensures
        r == spec_event_key(*event),
{
    match event {
        WebhookEvent::Issue(e) => SubscriptionKey {
            repo: e.repository.id,
            family: Family::Issue { issue_action: e.action },
        },
        WebhookEvent::PR(e) => SubscriptionKey {
            repo: e.repository.id,
            family: Family::Pr { pr_action: e.action },
        },
    }
}

/// The notification text for an event.
pub fn render(event: &WebhookEvent) -> (r: String)
    ensures
        r@ == spec_render(*event),
{
    let mut m = String::from_str("User ");
    match event {
        WebhookEvent::Issue(e) => {
            m.append(e.sender.login.as_str());
            m.append(" ");
            m.append(e.action.name());
            m.append(" issue ");
            m.append(e.issue.title.as_str());
        },
        WebhookEvent::PR(e) => {
            m.append(e.sender.login.as_str());
            m.append(" ");
            m.append(e.action.name());
            m.append(" PR ");
            m.append(e.pull_request.title.as_str());
        },
    }
    m
}

/// A notification and the conversations it goes to.
#[derive(Clone, Debug, PartialEq, Eq)]
pub struct Delivery {
    pub recipients: Vec<u32>,
    pub text: String,
}

/// The notification for an event, addressed to every conversation subscribed
/// to its topic, each once.
pub fn route(db: &DB, event: &WebhookEvent) -> (r: Delivery)
    requires
        db.wf(),
    ensures
        r.recipients@.to_set() == db@.subscribers(spec_event_key(*event)),
        r.recipients@.no_duplicates(),
        r.text@ == spec_render(*event),
{
    let key = event_key(event);
    Delivery { recipients: db.get_subscribers(key.repo, key.family), text: render(event) }
}

/// The recipients whose delivery outcome is `want`, in order.
pub open spec fn select(recipients: Seq<u32>, outcomes: Seq<bool>, want: bool) -> Seq<u32>
    decreases outcomes.len(),
{
    if outcomes.len() == 0 {
        seq![]
    } else {
        let before = select(recipients, outcomes.drop_last(), want);
        if outcomes.last() == want {
            before.push(recipients[outcomes.len() - 1])
        } else {
            before
        }
    }
}

/// How a fan-out ended: who got the notification and who did not.
#[derive(Clone, Debug, PartialEq, Eq)]
pub struct RouteReport {
    pub delivered: Vec<u32>,
    pub failed: Vec<u32>,
}

/// Sending one notification to its recipients one after another. Each
/// recipient is tried once, in order, whatever became of the ones before.
pub struct FanOut {
    recipients: Vec<u32>,
    text: String,
    outcomes: Vec<bool>,
}

impl FanOut {
    /// The conversations to notify.
    pub closed spec fn recipients(&self) -> Seq<u32> {
        self.recipients@
    }

    /// The notification text.
    pub closed spec fn spec_text(&self) -> Seq<char> {
        self.text@
    }

    /// Whether each recipient tried so far got the notification.
    pub closed spec fn outcomes(&self) -> Seq<bool> {
        self.outcomes@
    }

    pub closed spec fn wf(&self) -> bool {
        self.outcomes@.len() <= self.recipients@.len()
    }

    /// Starts the fan-out of a delivery.
    pub fn new(delivery: Delivery) -> (r: FanOut)
        ensures
            r.wf(),
            r.recipients() == delivery.recipients@,
            r.spec_text() == delivery.text@,
            r.outcomes() == Seq::<bool>::empty(),
    {
        FanOut { recipients: delivery.recipients, text: delivery.text, outcomes: Vec::new() }
    }

    /// The notification text.
    pub fn text(&self) -> (r: &String)
        ensures
            r@ == self.spec_text(),
    {
        &self.text
    }

    /// The conversation to try next, or `None` once all have been tried.
    pub fn next_recipient(&self) -> (r: Option<u32>)
        requires
            self.wf(),
        ensures
            self.outcomes().len() < self.recipients().len() ==> r == Some(
                self.recipients()[self.outcomes().len() as int],
            ),
            self.outcomes().len() == self.recipients().len() ==> r is None,
    {
        if self.outcomes.len() < self.recipients.len() {
            Some(self.recipients[self.outcomes.len()])
        } else {
            None
        }
    }

    /// Records whether the conversation last offered got the notification.
    pub fn record(&mut self, delivered: bool)
        requires
            old(self).wf(),
            old(self).outcomes().len() < old(self).recipients().len(),
        ensures
            final(self).wf(),
            final(self).recipients() == old(self).recipients(),
            final(self).spec_text() == old(self).spec_text(),
            final(self).outcomes() == old(self).outcomes().push(delivered),
    {
        self.outcomes.push(delivered);
    }

    /// Who got the notification and who did not, among those tried.
    pub fn report(&self) -> (r: RouteReport)
        requires
            self.wf(),
        ensures
            r.delivered@ == select(self.recipients(), self.outcomes(), true),
            r.failed@ == select(self.recipients(), self.outcomes(), false),
    {
        let mut delivered: Vec<u32> = Vec::new();
        let mut failed: Vec<u32> = Vec::new();
        let mut i: usize = 0;
        while i < self.outcomes.len()
            invariant
                self.wf(),
                i <= self.outcomes@.len(),
                delivered@ == select(self.recipients@, self.outcomes@.take(i as int), true),
                failed@ == select(self.recipients@, self.outcomes@.take(i as int), false),
            decreases self.outcomes@.len() - i,
        {
            assert(self.outcomes@.take(i + 1).drop_last() =~= self.outcomes@.take(i as int));
            if self.outcomes[i] {
                delivered.push(self.recipients[i]);
            } else {
                failed.push(self.recipients[i]);
            }
            i = i + 1;
        }
        assert(self.outcomes@.take(i as int) =~= self.outcomes@);
        RouteReport { delivered, failed }
    }
}

/// A failed delivery takes nothing from the others: once every recipient has
/// been tried, each one that got the notification is reported delivered, each
/// one that did not is reported failed, and no recipient is left out.
pub proof fn lemma_partial_failure(recipients: Seq<u32>, outcomes: Seq<bool>)
    requires
        outcomes.len() == recipients.len(),
    ensures
        forall|i: int|
            0 <= i < recipients.len() && #[trigger] outcomes[i] ==> select(
                recipients,
                outcomes,
                true,
            ).contains(recipients[i]),
        forall|i: int|
            0 <= i < recipients.len() && !#[trigger] outcomes[i] ==> select(
                recipients,
                outcomes,
                false,
            ).contains(recipients[i]),
        select(recipients, outcomes, true).len() + select(recipients, outcomes, false).len()
            == recipients.len(),
{
    lemma_select(recipients, outcomes, outcomes.len() as int);
    assert(outcomes.take(outcomes.len() as int) =~= outcomes);
}

proof fn lemma_select(recipients: Seq<u32>, outcomes: Seq<bool>, n: int)
    requires
        0 <= n <= outcomes.len() <= recipients.len(),
    ensures
        forall|i: int|
            0 <= i < n && #[trigger] outcomes[i] ==> select(
                recipients,
                outcomes.take(n),
                true,
            ).contains(recipients[i]),
        forall|i: int|
            0 <= i < n && !#[trigger] outcomes[i] ==> select(
                recipients,
                outcomes.take(n),
                false,
            ).contains(recipients[i]),
        select(recipients, outcomes.take(n), true).len() + select(
            recipients,
            outcomes.take(n),
            false,
        ).len() == n,
    decreases n,
{
    if n > 0 {
        lemma_select(recipients, outcomes, n - 1);
        let t = outcomes.take(n);
        assert(t.drop_last() =~= outcomes.take(n - 1));
        let d0 = select(recipients, outcomes.take(n - 1), true);
        let f0 = select(recipients, outcomes.take(n - 1), false);
        assert forall|i: int| 0 <= i < n && #[trigger] outcomes[i] implies select(
            recipients,
            t,
            true,
        ).contains(recipients[i]) by {
            if i < n - 1 {
                let k = choose|k: int| 0 <= k < d0.len() && d0[k] == recipients[i];
                assert(select(recipients, t, true)[k] == recipients[i]);
            } else {
                let d = select(recipients, t, true);
                assert(d[d.len() - 1] == recipients[i]);
            }
        }
        assert forall|i: int| 0 <= i < n && !#[trigger] outcomes[i] implies select(
            recipients,
            t,
            false,
        ).contains(recipients[i]) by {
            if i < n - 1 {
                let k = choose|k: int| 0 <= k < f0.len() && f0[k] == recipients[i];
                assert(select(recipients, t, false)[k] == recipients[i]);
            } else {
                let f = select(recipients, t, false);
                assert(f[f.len() - 1] == recipients[i]);
            }
        }
    } else {
        assert(outcomes.take(0) =~= Seq::<bool>::empty());
    }
}

} // verus!
