//! The events that repositories report through webhooks.
use vstd::prelude::*;
use crate::text::{is_space, is_word, same_text};

verus! {

/// What happened to an issue.
#[derive(Clone, Copy, Debug, PartialEq, Eq, Structural, Hash)]
pub enum IssueAction {
    Opened,
    Edited,
    Deleted,
    Pinned,
    Unpinned,
    Closed,
    Reopened,
    Assigned,
    Unassigned,
    Labeled,
    Unlabeled,
    Locked,
    Unlocked,
    Transferred,
    Milestoned,
    Demilestoned,
}

impl IssueAction {
    /// The lowercase name of the action, as it stands in commands and payloads.
    pub open spec fn spec_name(self) -> Seq<char> {
        match self {
            IssueAction::Opened => "opened"@,
            IssueAction::Edited => "edited"@,
            IssueAction::Deleted => "deleted"@,
            IssueAction::Pinned => "pinned"@,
            IssueAction::Unpinned => "unpinned"@,
            IssueAction::Closed => "closed"@,
            IssueAction::Reopened => "reopened"@,
            IssueAction::Assigned => "assigned"@,
            IssueAction::Unassigned => "unassigned"@,
            IssueAction::Labeled => "labeled"@,
            IssueAction::Unlabeled => "unlabeled"@,
            IssueAction::Locked => "locked"@,
            IssueAction::Unlocked => "unlocked"@,
            IssueAction::Transferred => "transferred"@,
            IssueAction::Milestoned => "milestoned"@,
            IssueAction::Demilestoned => "demilestoned"@,
        }
    }

    /// The action that a lowercase name stands for, if any.
    pub open spec fn spec_from_name(s: Seq<char>) -> Option<IssueAction> {
        if s == "opened"@ {
            Some(IssueAction::Opened)
        } else if s == "edited"@ {
            Some(IssueAction::Edited)
        } else if s == "deleted"@ {
            Some(IssueAction::Deleted)
        } else if s == "pinned"@ {
            Some(IssueAction::Pinned)
        } else if s == "unpinned"@ {
            Some(IssueAction::Unpinned)
        } else if s == "closed"@ {
            Some(IssueAction::Closed)
        } else if s == "reopened"@ {
            Some(IssueAction::Reopened)
        } else if s == "assigned"@ {
            Some(IssueAction::Assigned)
        } else if s == "unassigned"@ {
            Some(IssueAction::Unassigned)
        } else if s == "labeled"@ {
            Some(IssueAction::Labeled)
        } else if s == "unlabeled"@ {
            Some(IssueAction::Unlabeled)
        } else if s == "locked"@ {
            Some(IssueAction::Locked)
        } else if s == "unlocked"@ {
            Some(IssueAction::Unlocked)
        } else if s == "transferred"@ {
            Some(IssueAction::Transferred)
        } else if s == "milestoned"@ {
            Some(IssueAction::Milestoned)
        } else if s == "demilestoned"@ {
            Some(IssueAction::Demilestoned)
        } else {
            None
        }
    }

    pub fn name(&self) -> (r: &'static str)
        ensures
            r@ == self.spec_name(),
    {
        match self {
            IssueAction::Opened => "opened",
            IssueAction::Edited => "edited",
            IssueAction::Deleted => "deleted",
            IssueAction::Pinned => "pinned",
            IssueAction::Unpinned => "unpinned",
            IssueAction::Closed => "closed",
            IssueAction::Reopened => "reopened",
            IssueAction::Assigned => "assigned",
            IssueAction::Unassigned => "unassigned",
            IssueAction::Labeled => "labeled",
            IssueAction::Unlabeled => "unlabeled",
            IssueAction::Locked => "locked",
            IssueAction::Unlocked => "unlocked",
            IssueAction::Transferred => "transferred",
            IssueAction::Milestoned => "milestoned",
            IssueAction::Demilestoned => "demilestoned",
        }
    }

    pub fn from_name(s: &str) -> (r: Option<IssueAction>)
        ensures
            r == Self::spec_from_name(s@),
    {
        if same_text(s, "opened") {
            Some(IssueAction::Opened)
        } else if same_text(s, "edited") {
            Some(IssueAction::Edited)
        } else if same_text(s, "deleted") {
            Some(IssueAction::Deleted)
        } else if same_text(s, "pinned") {
            Some(IssueAction::Pinned)
        } else if same_text(s, "unpinned") {
            Some(IssueAction::Unpinned)
        } else if same_text(s, "closed") {
            Some(IssueAction::Closed)
        } else if same_text(s, "reopened") {
            Some(IssueAction::Reopened)
        } else if same_text(s, "assigned") {
            Some(IssueAction::Assigned)
        } else if same_text(s, "unassigned") {
            Some(IssueAction::Unassigned)
        } else if same_text(s, "labeled") {
            Some(IssueAction::Labeled)
        } else if same_text(s, "unlabeled") {
            Some(IssueAction::Unlabeled)
        } else if same_text(s, "locked") {
            Some(IssueAction::Locked)
        } else if same_text(s, "unlocked") {
            Some(IssueAction::Unlocked)
        } else if same_text(s, "transferred") {
            Some(IssueAction::Transferred)
        } else if same_text(s, "milestoned") {
            Some(IssueAction::Milestoned)
        } else if same_text(s, "demilestoned") {
            Some(IssueAction::Demilestoned)
        } else {
            None
        }
    }

    /// Reading back the name of an action gives the action.
    pub proof fn lemma_name_round_trip(self)
        ensures
            Self::spec_from_name(self.spec_name()) == Some(self),
    {
        reveal_strlit("opened");
        reveal_strlit("edited");
        reveal_strlit("deleted");
        reveal_strlit("pinned");
        reveal_strlit("unpinned");
        reveal_strlit("closed");
        reveal_strlit("reopened");
        reveal_strlit("assigned");
        reveal_strlit("unassigned");
        reveal_strlit("labeled");
        reveal_strlit("unlabeled");
        reveal_strlit("locked");
        reveal_strlit("unlocked");
        reveal_strlit("transferred");
        reveal_strlit("milestoned");
        reveal_strlit("demilestoned");
        match self {
            IssueAction::Opened => {
            },
            IssueAction::Edited => {
                assert("edited"@[0] != "opened"@[0]);
            },
            IssueAction::Deleted => {
                assert("deleted"@.len() != "opened"@.len());
                assert("deleted"@.len() != "edited"@.len());
            },
            IssueAction::Pinned => {
                assert("pinned"@[0] != "opened"@[0]);
                assert("pinned"@[0] != "edited"@[0]);
                assert("pinned"@.len() != "deleted"@.len());
            },
            IssueAction::Unpinned => {
                assert("unpinned"@.len() != "opened"@.len());
                assert("unpinned"@.len() != "edited"@.len());
                assert("unpinned"@.len() != "deleted"@.len());
                assert("unpinned"@.len() != "pinned"@.len());
            },
            IssueAction::Closed => {
                assert("closed"@[0] != "opened"@[0]);
                assert("closed"@[0] != "edited"@[0]);
                assert("closed"@.len() != "deleted"@.len());
                assert("closed"@[0] != "pinned"@[0]);
                assert("closed"@.len() != "unpinned"@.len());
            },
            IssueAction::Reopened => {
                assert("reopened"@.len() != "opened"@.len());
                assert("reopened"@.len() != "edited"@.len());
                assert("reopened"@.len() != "deleted"@.len());
                assert("reopened"@.len() != "pinned"@.len());
                assert("reopened"@[0] != "unpinned"@[0]);
                assert("reopened"@.len() != "closed"@.len());
            },
            IssueAction::Assigned => {
                assert("assigned"@.len() != "opened"@.len());
                assert("assigned"@.len() != "edited"@.len());
                assert("assigned"@.len() != "deleted"@.len());
                assert("assigned"@.len() != "pinned"@.len());
                assert("assigned"@[0] != "unpinned"@[0]);
                assert("assigned"@.len() != "closed"@.len());
                assert("assigned"@[0] != "reopened"@[0]);
            },
            IssueAction::Unassigned => {
                assert("unassigned"@.len() != "opened"@.len());
                assert("unassigned"@.len() != "edited"@.len());
                assert("unassigned"@.len() != "deleted"@.len());
                assert("unassigned"@.len() != "pinned"@.len());
                assert("unassigned"@.len() != "unpinned"@.len());
                assert("unassigned"@.len() != "closed"@.len());
                assert("unassigned"@.len() != "reopened"@.len());
                assert("unassigned"@.len() != "assigned"@.len());
            },
            IssueAction::Labeled => {
                assert("labeled"@.len() != "opened"@.len());
                assert("labeled"@.len() != "edited"@.len());
                assert("labeled"@[0] != "deleted"@[0]);
                assert("labeled"@.len() != "pinned"@.len());
                assert("labeled"@.len() != "unpinned"@.len());
                assert("labeled"@.len() != "closed"@.len());
                assert("labeled"@.len() != "reopened"@.len());
                assert("labeled"@.len() != "assigned"@.len());
                assert("labeled"@.len() != "unassigned"@.len());
            },
            IssueAction::Unlabeled => {
                assert("unlabeled"@.len() != "opened"@.len());
                assert("unlabeled"@.len() != "edited"@.len());
                assert("unlabeled"@.len() != "deleted"@.len());
                assert("unlabeled"@.len() != "pinned"@.len());
                assert("unlabeled"@.len() != "unpinned"@.len());
                assert("unlabeled"@.len() != "closed"@.len());
                assert("unlabeled"@.len() != "reopened"@.len());
                assert("unlabeled"@.len() != "assigned"@.len());
                assert("unlabeled"@.len() != "unassigned"@.len());
                assert("unlabeled"@.len() != "labeled"@.len());
            },
            IssueAction::Locked => {
                assert("locked"@[0] != "opened"@[0]);
                assert("locked"@[0] != "edited"@[0]);
                assert("locked"@.len() != "deleted"@.len());
                assert("locked"@[0] != "pinned"@[0]);
                assert("locked"@.len() != "unpinned"@.len());
                assert("locked"@[0] != "closed"@[0]);
                assert("locked"@.len() != "reopened"@.len());
                assert("locked"@.len() != "assigned"@.len());
                assert("locked"@.len() != "unassigned"@.len());
                assert("locked"@.len() != "labeled"@.len());
                assert("locked"@.len() != "unlabeled"@.len());
            },
            IssueAction::Unlocked => {
                assert("unlocked"@.len() != "opened"@.len());
                assert("unlocked"@.len() != "edited"@.len());
                assert("unlocked"@.len() != "deleted"@.len());
                assert("unlocked"@.len() != "pinned"@.len());
                assert("unlocked"@[2] != "unpinned"@[2]);
                assert("unlocked"@.len() != "closed"@.len());
                assert("unlocked"@[0] != "reopened"@[0]);
                assert("unlocked"@[0] != "assigned"@[0]);
                assert("unlocked"@.len() != "unassigned"@.len());
                assert("unlocked"@.len() != "labeled"@.len());
                assert("unlocked"@.len() != "unlabeled"@.len());
                assert("unlocked"@.len() != "locked"@.len());
            },
            IssueAction::Transferred => {
                assert("transferred"@.len() != "opened"@.len());
                assert("transferred"@.len() != "edited"@.len());
                assert("transferred"@.len() != "deleted"@.len());
                assert("transferred"@.len() != "pinned"@.len());
                assert("transferred"@.len() != "unpinned"@.len());
                assert("transferred"@.len() != "closed"@.len());
                assert("transferred"@.len() != "reopened"@.len());
                assert("transferred"@.len() != "assigned"@.len());
                assert("transferred"@.len() != "unassigned"@.len());
                assert("transferred"@.len() != "labeled"@.len());
                assert("transferred"@.len() != "unlabeled"@.len());
                assert("transferred"@.len() != "locked"@.len());
                assert("transferred"@.len() != "unlocked"@.len());
            },
            IssueAction::Milestoned => {
                assert("milestoned"@.len() != "opened"@.len());
                assert("milestoned"@.len() != "edited"@.len());
                assert("milestoned"@.len() != "deleted"@.len());
                assert("milestoned"@.len() != "pinned"@.len());
                assert("milestoned"@.len() != "unpinned"@.len());
                assert("milestoned"@.len() != "closed"@.len());
                assert("milestoned"@.len() != "reopened"@.len());
                assert("milestoned"@.len() != "assigned"@.len());
                assert("milestoned"@[0] != "unassigned"@[0]);
                assert("milestoned"@.len() != "labeled"@.len());
                assert("milestoned"@.len() != "unlabeled"@.len());
                assert("milestoned"@.len() != "locked"@.len());
                assert("milestoned"@.len() != "unlocked"@.len());
                assert("milestoned"@.len() != "transferred"@.len());
            },
            IssueAction::Demilestoned => {
                assert("demilestoned"@.len() != "opened"@.len());
                assert("demilestoned"@.len() != "edited"@.len());
                assert("demilestoned"@.len() != "deleted"@.len());
                assert("demilestoned"@.len() != "pinned"@.len());
                assert("demilestoned"@.len() != "unpinned"@.len());
                assert("demilestoned"@.len() != "closed"@.len());
                assert("demilestoned"@.len() != "reopened"@.len());
                assert("demilestoned"@.len() != "assigned"@.len());
                assert("demilestoned"@.len() != "unassigned"@.len());
                assert("demilestoned"@.len() != "labeled"@.len());
                assert("demilestoned"@.len() != "unlabeled"@.len());
                assert("demilestoned"@.len() != "locked"@.len());
                assert("demilestoned"@.len() != "unlocked"@.len());
                assert("demilestoned"@.len() != "transferred"@.len());
                assert("demilestoned"@.len() != "milestoned"@.len());
            },
        }
    }
    /// The name of an action is a single word.
    pub proof fn lemma_name_is_word(self)
        ensures
            is_word(self.spec_name()),
    {
        match self {
            IssueAction::Opened => {
                reveal_strlit("opened");
                assert forall|i: int| 0 <= i < 6 implies !is_space(#[trigger] "opened"@[i]) by {
                    assert(i == 0 || i == 1 || i == 2 || i == 3 || i == 4 || i == 5);
                }
            }
            IssueAction::Edited => {
                reveal_strlit("edited");
                assert forall|i: int| 0 <= i < 6 implies !is_space(#[trigger] "edited"@[i]) by {
                    assert(i == 0 || i == 1 || i == 2 || i == 3 || i == 4 || i == 5);
                }
            }
            IssueAction::Deleted => {
                reveal_strlit("deleted");
                assert forall|i: int| 0 <= i < 7 implies !is_space(#[trigger] "deleted"@[i]) by {
                    assert(i == 0 || i == 1 || i == 2 || i == 3 || i == 4 || i == 5 || i == 6);
                }
            }
            IssueAction::Pinned => {
                reveal_strlit("pinned");
                assert forall|i: int| 0 <= i < 6 implies !is_space(#[trigger] "pinned"@[i]) by {
                    assert(i == 0 || i == 1 || i == 2 || i == 3 || i == 4 || i == 5);
                }
            }
            IssueAction::Unpinned => {
                reveal_strlit("unpinned");
                assert forall|i: int| 0 <= i < 8 implies !is_space(#[trigger] "unpinned"@[i]) by {
                    assert(i == 0 || i == 1 || i == 2 || i == 3 || i == 4 || i == 5 || i == 6 || i == 7);
                }
            }
            IssueAction::Closed => {
                reveal_strlit("closed");
                assert forall|i: int| 0 <= i < 6 implies !is_space(#[trigger] "closed"@[i]) by {
                    assert(i == 0 || i == 1 || i == 2 || i == 3 || i == 4 || i == 5);
                }
            }
            IssueAction::Reopened => {
                reveal_strlit("reopened");
                assert forall|i: int| 0 <= i < 8 implies !is_space(#[trigger] "reopened"@[i]) by {
                    assert(i == 0 || i == 1 || i == 2 || i == 3 || i == 4 || i == 5 || i == 6 || i == 7);
                }
            }
            IssueAction::Assigned => {
                reveal_strlit("assigned");
                assert forall|i: int| 0 <= i < 8 implies !is_space(#[trigger] "assigned"@[i]) by {
                    assert(i == 0 || i == 1 || i == 2 || i == 3 || i == 4 || i == 5 || i == 6 || i == 7);
                }
            }
            IssueAction::Unassigned => {
                reveal_strlit("unassigned");
                assert forall|i: int| 0 <= i < 10 implies !is_space(#[trigger] "unassigned"@[i]) by {
                    assert(i == 0 || i == 1 || i == 2 || i == 3 || i == 4 || i == 5 || i == 6 || i == 7 || i == 8 || i == 9);
                }
            }
            IssueAction::Labeled => {
                reveal_strlit("labeled");
                assert forall|i: int| 0 <= i < 7 implies !is_space(#[trigger] "labeled"@[i]) by {
                    assert(i == 0 || i == 1 || i == 2 || i == 3 || i == 4 || i == 5 || i == 6);
                }
            }
            IssueAction::Unlabeled => {
                reveal_strlit("unlabeled");
                assert forall|i: int| 0 <= i < 9 implies !is_space(#[trigger] "unlabeled"@[i]) by {
                    assert(i == 0 || i == 1 || i == 2 || i == 3 || i == 4 || i == 5 || i == 6 || i == 7 || i == 8);
                }
            }
            IssueAction::Locked => {
                reveal_strlit("locked");
                assert forall|i: int| 0 <= i < 6 implies !is_space(#[trigger] "locked"@[i]) by {
                    assert(i == 0 || i == 1 || i == 2 || i == 3 || i == 4 || i == 5);
                }
            }
            IssueAction::Unlocked => {
                reveal_strlit("unlocked");
                assert forall|i: int| 0 <= i < 8 implies !is_space(#[trigger] "unlocked"@[i]) by {
                    assert(i == 0 || i == 1 || i == 2 || i == 3 || i == 4 || i == 5 || i == 6 || i == 7);
                }
            }
            IssueAction::Transferred => {
                reveal_strlit("transferred");
                assert forall|i: int| 0 <= i < 11 implies !is_space(#[trigger] "transferred"@[i]) by {
                    assert(i == 0 || i == 1 || i == 2 || i == 3 || i == 4 || i == 5 || i == 6 || i == 7 || i == 8 || i == 9 || i == 10);
                }
            }
            IssueAction::Milestoned => {
                reveal_strlit("milestoned");
                assert forall|i: int| 0 <= i < 10 implies !is_space(#[trigger] "milestoned"@[i]) by {
                    assert(i == 0 || i == 1 || i == 2 || i == 3 || i == 4 || i == 5 || i == 6 || i == 7 || i == 8 || i == 9);
                }
            }
            IssueAction::Demilestoned => {
                reveal_strlit("demilestoned");
                assert forall|i: int| 0 <= i < 12 implies !is_space(#[trigger] "demilestoned"@[i]) by {
                    assert(i == 0 || i == 1 || i == 2 || i == 3 || i == 4 || i == 5 || i == 6 || i == 7 || i == 8 || i == 9 || i == 10 || i == 11);
                }
            }
        }
    }
}

/// What happened to a pull request.
#[derive(Clone, Copy, Debug, PartialEq, Eq, Structural, Hash)]
pub enum PRAction {
    Opened,
    Edited,
    Closed,
    Reopened,
    Assigned,
    Unassigned,
    ReviewRequested,
    ReviewRequestRemoved,
    Labeled,
    Unlabeled,
    Synchronized,
}

impl PRAction {
    /// The lowercase name of the action, as it stands in commands and payloads.
    pub open spec fn spec_name(self) -> Seq<char> {
        match self {
            PRAction::Opened => "opened"@,
            PRAction::Edited => "edited"@,
            PRAction::Closed => "closed"@,
            PRAction::Reopened => "reopened"@,
            PRAction::Assigned => "assigned"@,
            PRAction::Unassigned => "unassigned"@,
            PRAction::ReviewRequested => "review_requested"@,
            PRAction::ReviewRequestRemoved => "review_request_removed"@,
            PRAction::Labeled => "labeled"@,
            PRAction::Unlabeled => "unlabeled"@,
            PRAction::Synchronized => "synchronized"@,
        }
    }

    /// The action that a lowercase name stands for, if any.
    pub open spec fn spec_from_name(s: Seq<char>) -> Option<PRAction> {
        if s == "opened"@ {
            Some(PRAction::Opened)
        } else if s == "edited"@ {
            Some(PRAction::Edited)
        } else if s == "closed"@ {
            Some(PRAction::Closed)
        } else if s == "reopened"@ {
            Some(PRAction::Reopened)
        } else if s == "assigned"@ {
            Some(PRAction::Assigned)
        } else if s == "unassigned"@ {
            Some(PRAction::Unassigned)
        } else if s == "review_requested"@ {
            Some(PRAction::ReviewRequested)
        } else if s == "review_request_removed"@ {
            Some(PRAction::ReviewRequestRemoved)
        } else if s == "labeled"@ {
            Some(PRAction::Labeled)
        } else if s == "unlabeled"@ {
            Some(PRAction::Unlabeled)
        } else if s == "synchronized"@ {
            Some(PRAction::Synchronized)
        } else {
            None
        }
    }

    pub fn name(&self) -> (r: &'static str)
        ensures
            r@ == self.spec_name(),
    {
        match self {
            PRAction::Opened => "opened",
            PRAction::Edited => "edited",
            PRAction::Closed => "closed",
            PRAction::Reopened => "reopened",
            PRAction::Assigned => "assigned",
            PRAction::Unassigned => "unassigned",
            PRAction::ReviewRequested => "review_requested",
            PRAction::ReviewRequestRemoved => "review_request_removed",
            PRAction::Labeled => "labeled",
            PRAction::Unlabeled => "unlabeled",
            PRAction::Synchronized => "synchronized",
        }
    }

    pub fn from_name(s: &str) -> (r: Option<PRAction>)
        ensures
            r == Self::spec_from_name(s@),
    {
        if same_text(s, "opened") {
            Some(PRAction::Opened)
        } else if same_text(s, "edited") {
            Some(PRAction::Edited)
        } else if same_text(s, "closed") {
            Some(PRAction::Closed)
        } else if same_text(s, "reopened") {
            Some(PRAction::Reopened)
        } else if same_text(s, "assigned") {
            Some(PRAction::Assigned)
        } else if same_text(s, "unassigned") {
            Some(PRAction::Unassigned)
        } else if same_text(s, "review_requested") {
            Some(PRAction::ReviewRequested)
        } else if same_text(s, "review_request_removed") {
            Some(PRAction::ReviewRequestRemoved)
        } else if same_text(s, "labeled") {
            Some(PRAction::Labeled)
        } else if same_text(s, "unlabeled") {
            Some(PRAction::Unlabeled)
        } else if same_text(s, "synchronized") {
            Some(PRAction::Synchronized)
        } else {
            None
        }
    }

    /// Reading back the name of an action gives the action.
    pub proof fn lemma_name_round_trip(self)
        ensures
            Self::spec_from_name(self.spec_name()) == Some(self),
    {
        reveal_strlit("opened");
        reveal_strlit("edited");
        reveal_strlit("closed");
        reveal_strlit("reopened");
        reveal_strlit("assigned");
        reveal_strlit("unassigned");
        reveal_strlit("review_requested");
        reveal_strlit("review_request_removed");
        reveal_strlit("labeled");
        reveal_strlit("unlabeled");
        reveal_strlit("synchronized");
        match self {
            PRAction::Opened => {
            },
            PRAction::Edited => {
                assert("edited"@[0] != "opened"@[0]);
            },
            PRAction::Closed => {
                assert("closed"@[0] != "opened"@[0]);
                assert("closed"@[0] != "edited"@[0]);
            },
            PRAction::Reopened => {
                assert("reopened"@.len() != "opened"@.len());
                assert("reopened"@.len() != "edited"@.len());
                assert("reopened"@.len() != "closed"@.len());
            },
            PRAction::Assigned => {
                assert("assigned"@.len() != "opened"@.len());
                assert("assigned"@.len() != "edited"@.len());
                assert("assigned"@.len() != "closed"@.len());
                assert("assigned"@[0] != "reopened"@[0]);
            },
            PRAction::Unassigned => {
                assert("unassigned"@.len() != "opened"@.len());
                assert("unassigned"@.len() != "edited"@.len());
                assert("unassigned"@.len() != "closed"@.len());
                assert("unassigned"@.len() != "reopened"@.len());
                assert("unassigned"@.len() != "assigned"@.len());
            },
            PRAction::ReviewRequested => {
                assert("review_requested"@.len() != "opened"@.len());
                assert("review_requested"@.len() != "edited"@.len());
                assert("review_requested"@.len() != "closed"@.len());
                assert("review_requested"@.len() != "reopened"@.len());
                assert("review_requested"@.len() != "assigned"@.len());
                assert("review_requested"@.len() != "unassigned"@.len());
            },
            PRAction::ReviewRequestRemoved => {
                assert("review_request_removed"@.len() != "opened"@.len());
                assert("review_request_removed"@.len() != "edited"@.len());
                assert("review_request_removed"@.len() != "closed"@.len());
                assert("review_request_removed"@.len() != "reopened"@.len());
                assert("review_request_removed"@.len() != "assigned"@.len());
                assert("review_request_removed"@.len() != "unassigned"@.len());
                assert("review_request_removed"@.len() != "review_requested"@.len());
            },
            PRAction::Labeled => {
                assert("labeled"@.len() != "opened"@.len());
                assert("labeled"@.len() != "edited"@.len());
                assert("labeled"@.len() != "closed"@.len());
                assert("labeled"@.len() != "reopened"@.len());
                assert("labeled"@.len() != "assigned"@.len());
                assert("labeled"@.len() != "unassigned"@.len());
                assert("labeled"@.len() != "review_requested"@.len());
                assert("labeled"@.len() != "review_request_removed"@.len());
            },
            PRAction::Unlabeled => {
                assert("unlabeled"@.len() != "opened"@.len());
                assert("unlabeled"@.len() != "edited"@.len());
                assert("unlabeled"@.len() != "closed"@.len());
                assert("unlabeled"@.len() != "reopened"@.len());
                assert("unlabeled"@.len() != "assigned"@.len());
                assert("unlabeled"@.len() != "unassigned"@.len());
                assert("unlabeled"@.len() != "review_requested"@.len());
                assert("unlabeled"@.len() != "review_request_removed"@.len());
                assert("unlabeled"@.len() != "labeled"@.len());
            },
            PRAction::Synchronized => {
                assert("synchronized"@.len() != "opened"@.len());
                assert("synchronized"@.len() != "edited"@.len());
                assert("synchronized"@.len() != "closed"@.len());
                assert("synchronized"@.len() != "reopened"@.len());
                assert("synchronized"@.len() != "assigned"@.len());
                assert("synchronized"@.len() != "unassigned"@.len());
                assert("synchronized"@.len() != "review_requested"@.len());
                assert("synchronized"@.len() != "review_request_removed"@.len());
                assert("synchronized"@.len() != "labeled"@.len());
                assert("synchronized"@.len() != "unlabeled"@.len());
            },
        }
    }
    /// The name of an action is a single word.
    pub proof fn lemma_name_is_word(self)
        ensures
            is_word(self.spec_name()),
    {
        match self {
            PRAction::Opened => {
                reveal_strlit("opened");
                assert forall|i: int| 0 <= i < 6 implies !is_space(#[trigger] "opened"@[i]) by {
                    assert(i == 0 || i == 1 || i == 2 || i == 3 || i == 4 || i == 5);
                }
            }
            PRAction::Edited => {
                reveal_strlit("edited");
                assert forall|i: int| 0 <= i < 6 implies !is_space(#[trigger] "edited"@[i]) by {
                    assert(i == 0 || i == 1 || i == 2 || i == 3 || i == 4 || i == 5);
                }
            }
            PRAction::Closed => {
                reveal_strlit("closed");
                assert forall|i: int| 0 <= i < 6 implies !is_space(#[trigger] "closed"@[i]) by {
                    assert(i == 0 || i == 1 || i == 2 || i == 3 || i == 4 || i == 5);
                }
            }
            PRAction::Reopened => {
                reveal_strlit("reopened");
                assert forall|i: int| 0 <= i < 8 implies !is_space(#[trigger] "reopened"@[i]) by {
                    assert(i == 0 || i == 1 || i == 2 || i == 3 || i == 4 || i == 5 || i == 6 || i == 7);
                }
            }
            PRAction::Assigned => {
                reveal_strlit("assigned");
                assert forall|i: int| 0 <= i < 8 implies !is_space(#[trigger] "assigned"@[i]) by {
                    assert(i == 0 || i == 1 || i == 2 || i == 3 || i == 4 || i == 5 || i == 6 || i == 7);
                }
            }
            PRAction::Unassigned => {
                reveal_strlit("unassigned");
                assert forall|i: int| 0 <= i < 10 implies !is_space(#[trigger] "unassigned"@[i]) by {
                    assert(i == 0 || i == 1 || i == 2 || i == 3 || i == 4 || i == 5 || i == 6 || i == 7 || i == 8 || i == 9);
                }
            }
            PRAction::ReviewRequested => {
                reveal_strlit("review_requested");
                assert forall|i: int| 0 <= i < 16 implies !is_space(#[trigger] "review_requested"@[i]) by {
                    assert(i == 0 || i == 1 || i == 2 || i == 3 || i == 4 || i == 5 || i == 6 || i == 7 || i == 8 || i == 9 || i == 10 || i == 11 || i == 12 || i == 13 || i == 14 || i == 15);
                }
            }
            PRAction::ReviewRequestRemoved => {
                reveal_strlit("review_request_removed");
                assert forall|i: int| 0 <= i < 22 implies !is_space(#[trigger] "review_request_removed"@[i]) by {
                    assert(i == 0 || i == 1 || i == 2 || i == 3 || i == 4 || i == 5 || i == 6 || i == 7 || i == 8 || i == 9 || i == 10 || i == 11 || i == 12 || i == 13 || i == 14 || i == 15 || i == 16 || i == 17 || i == 18 || i == 19 || i == 20 || i == 21);
                }
            }
            PRAction::Labeled => {
                reveal_strlit("labeled");
                assert forall|i: int| 0 <= i < 7 implies !is_space(#[trigger] "labeled"@[i]) by {
                    assert(i == 0 || i == 1 || i == 2 || i == 3 || i == 4 || i == 5 || i == 6);
                }
            }
            PRAction::Unlabeled => {
                reveal_strlit("unlabeled");
                assert forall|i: int| 0 <= i < 9 implies !is_space(#[trigger] "unlabeled"@[i]) by {
                    assert(i == 0 || i == 1 || i == 2 || i == 3 || i == 4 || i == 5 || i == 6 || i == 7 || i == 8);
                }
            }
            PRAction::Synchronized => {
                reveal_strlit("synchronized");
                assert forall|i: int| 0 <= i < 12 implies !is_space(#[trigger] "synchronized"@[i]) by {
                    assert(i == 0 || i == 1 || i == 2 || i == 3 || i == 4 || i == 5 || i == 6 || i == 7 || i == 8 || i == 9 || i == 10 || i == 11);
                }
            }
        }
    }
}

/// The account that caused an event.
#[derive(Clone, Debug, PartialEq, Eq)]
pub struct User {
    pub login: String,
}

/// The repository that an event belongs to.
#[derive(Clone, Debug, PartialEq, Eq)]
pub struct Repository {
    pub id: usize,
    pub name: String,
    pub url: String,
}

/// The issue that an issue event is about.
#[derive(Clone, Debug, PartialEq, Eq)]
pub struct Issue {
    pub id: u64,
    pub title: String,
    pub url: String,
}

/// The pull request that a pull-request event is about.
#[derive(Clone, Debug, PartialEq, Eq)]
pub struct PR {
    pub id: u64,
    pub title: String,
    pub url: String,
}

/// Something that happened to an issue.
#[derive(Clone, Debug, PartialEq, Eq)]
pub struct IssueEvent {
    pub action: IssueAction,
    pub sender: User,
    pub repository: Repository,
    pub issue: Issue,
}

/// Something that happened to a pull request.
#[derive(Clone, Debug, PartialEq, Eq)]
pub struct PREvent {
    pub action: PRAction,
    pub sender: User,
    pub repository: Repository,
    pub pull_request: PR,
}

/// A decoded webhook delivery.
#[derive(Clone, Debug, PartialEq, Eq)]
pub enum WebhookEvent {
    Issue(IssueEvent),
    PR(PREvent),
}

/// Descriptive information about an application.
#[derive(Clone, Debug, PartialEq, Eq)]
pub struct AppInfo {
    pub name: String,
    pub author_name: String,
    pub author_email: String,
    pub source_code_url: String,
    pub description: String,
}

} // verus!
