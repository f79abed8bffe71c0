//! The decisions of the optimistic-concurrency publisher. Each attempt runs
//! the caller's mutation, stages and commits what it wrote on top of `master`,
//! and pushes; a rejected push is undone by resetting `master` to the commit's
//! parent. The repository work itself is done by the caller, which reports
//! each push's fate here and does what the answer says. The reset does not
//! fetch from the remote first.
use crate::errors::JobErr;
use vstd::prelude::*;

verus! {

/// The number of attempts before the publisher gives up.
pub const MAX_PUBLISH_ATTEMPTS: u32 = 10;

/// Where a publishing session stands.
#[derive(Debug, Clone, Copy, PartialEq, Eq, Structural)]
pub enum PublishOutcome {
    /// Still attempting.
    Pending,
    /// A push was accepted.
    Published,
    /// Every attempt was rejected.
    TimedOut,
}

/// What the caller does next.
#[derive(Debug, Clone, Copy, PartialEq, Eq, Structural)]
pub enum PublishAction {
    /// Run the mutation, stage the paths it returns, commit on `master`, push.
    Attempt,
    /// Reset `master` hard to the parent of the commit just made, then attempt
    /// again.
    DiscardAndRetry,
    /// Reset `master` hard to the parent of the commit just made, then stop:
    /// the session has timed out.
    DiscardAndGiveUp,
    /// The push landed: stop.
    Finish,
}

/// One publishing session: the attempts made, the speculative commits
/// discarded, and the outcome.
#[derive(Debug, Clone, Copy, PartialEq, Eq, Structural)]
pub struct PublishSession {
    pub attempts: u32,
    pub discarded: u32,
    pub outcome: PublishOutcome,
}

/// The state after one more attempt whose push was `accepted` or not, and
/// what the caller does then.
pub open spec fn publish_step(s: PublishSession, accepted: bool) -> (PublishSession, PublishAction) {
    if accepted {
        (
            PublishSession { attempts: (s.attempts + 1) as u32, outcome: PublishOutcome::Published, ..s },
            PublishAction::Finish,
        )
    } else if s.attempts + 1 < MAX_PUBLISH_ATTEMPTS {
        (
            PublishSession {
                attempts: (s.attempts + 1) as u32,
                discarded: (s.discarded + 1) as u32,
                outcome: PublishOutcome::Pending,
            },
            PublishAction::DiscardAndRetry,
        )
    } else {
        (
            PublishSession {
                attempts: (s.attempts + 1) as u32,
                discarded: (s.discarded + 1) as u32,
                outcome: PublishOutcome::TimedOut,
            },
            PublishAction::DiscardAndGiveUp,
        )
    }
}

/// The session once the pushes have the fates `pushes`, in order, as far as
/// it goes before it stops.
pub open spec fn publish_replay(s: PublishSession, pushes: Seq<bool>) -> PublishSession
    decreases pushes.len(),
{
    if pushes.len() == 0 || s.outcome != PublishOutcome::Pending || s.attempts
        >= MAX_PUBLISH_ATTEMPTS {
        s
    } else {
        publish_replay(publish_step(s, pushes[0]).0, pushes.drop_first())
    }
}

/// A fresh session.
pub open spec fn fresh_session() -> PublishSession {
    PublishSession { attempts: 0, discarded: 0, outcome: PublishOutcome::Pending }
}

/// A pending session has made fewer attempts than the bound, and discarded
/// the commit of each.
pub open spec fn pending_ok(s: PublishSession) -> bool {
    s.outcome == PublishOutcome::Pending && s.attempts < MAX_PUBLISH_ATTEMPTS && s.discarded
        == s.attempts
}

impl PublishSession {
    /// A session that has made no attempt yet; its first action is
    /// [`PublishAction::Attempt`].
    pub fn new() -> (r: PublishSession)
        ensures
            r == fresh_session(),
    {
        PublishSession { attempts: 0, discarded: 0, outcome: PublishOutcome::Pending }
    }

    /// Records the fate of the push of the current attempt and says what to do.
    pub fn record_push(&mut self, accepted: bool) -> (r: PublishAction)
        requires
            pending_ok(*old(self)),
        ensures
            (*final(self), r) == publish_step(*old(self), accepted),
    {
        self.attempts = self.attempts + 1;
        if accepted {
            self.outcome = PublishOutcome::Published;
            PublishAction::Finish
        } else {
            self.discarded = self.discarded + 1;
            if self.attempts < MAX_PUBLISH_ATTEMPTS {
                PublishAction::DiscardAndRetry
            } else {
                self.outcome = PublishOutcome::TimedOut;
                PublishAction::DiscardAndGiveUp
            }
        }
    }

    /// What the session came to: nothing yet while pending, else success or
    /// [`JobErr::TimedOut`].
    pub fn result(&self) -> (r: Option<Result<(), JobErr>>)
        ensures
            self.outcome == PublishOutcome::Pending ==> r is None,
            self.outcome == PublishOutcome::Published ==> r == Some(Ok::<(), JobErr>(())),
            self.outcome == PublishOutcome::TimedOut ==> r matches Some(Err(JobErr::TimedOut)),
    {
        match self.outcome {
            PublishOutcome::Pending => None,
            PublishOutcome::Published => Some(Ok(())),
            PublishOutcome::TimedOut => Some(Err(JobErr::TimedOut)),
        }
    }
}

/// Pushes rejected `k` times and then accepted, with `k` below the bound:
/// the session publishes on attempt `k + 1`, having discarded the `k`
/// rejected commits, so `master` gains exactly the one commit that landed.
pub proof fn lemma_publish_after_rejections(pushes: Seq<bool>, k: nat)
    requires
        k < MAX_PUBLISH_ATTEMPTS,
        k < pushes.len(),
        forall|i: int| 0 <= i < k ==> !pushes[i],
        pushes[k as int],
    ensures
        publish_replay(fresh_session(), pushes) == (PublishSession {
            attempts: (k + 1) as u32,
            discarded: k as u32,
            outcome: PublishOutcome::Published,
        }),
{
    lemma_replay_from(fresh_session(), pushes, k);
}

proof fn lemma_replay_from(s: PublishSession, pushes: Seq<bool>, k: nat)
    requires
        pending_ok(s),
        s.attempts + k < MAX_PUBLISH_ATTEMPTS,
        k < pushes.len(),
        forall|i: int| 0 <= i < k ==> !pushes[i],
        pushes[k as int],
    ensures
        publish_replay(s, pushes) == (PublishSession {
            attempts: (s.attempts + k + 1) as u32,
            discarded: (s.attempts + k) as u32,
            outcome: PublishOutcome::Published,
        }),
    decreases k,
{
    if k > 0 {
        let next = publish_step(s, pushes[0]).0;
        assert(!pushes[0]);
        assert forall|i: int| 0 <= i < k - 1 implies !pushes.drop_first()[i] by {
            assert(pushes.drop_first()[i] == pushes[i + 1]);
        }
        lemma_replay_from(next, pushes.drop_first(), (k - 1) as nat);
    } else {
        let next = publish_step(s, pushes[0]).0;
        assert(publish_replay(next, pushes.drop_first()) == next);
    }
}

/// Pushes rejected at least as often as the bound allows: the session times
/// out after exactly that many attempts, having discarded every commit it
/// made, so `master` is back where it started.
pub proof fn lemma_publish_times_out(pushes: Seq<bool>)
    requires
        pushes.len() >= MAX_PUBLISH_ATTEMPTS,
        forall|i: int| 0 <= i < MAX_PUBLISH_ATTEMPTS ==> !pushes[i],
    ensures
        publish_replay(fresh_session(), pushes) == (PublishSession {
            attempts: MAX_PUBLISH_ATTEMPTS,
            discarded: MAX_PUBLISH_ATTEMPTS,
            outcome: PublishOutcome::TimedOut,
        }),
{
    lemma_replay_rejected(fresh_session(), pushes);
}

proof fn lemma_replay_rejected(s: PublishSession, pushes: Seq<bool>)
    requires
        pending_ok(s),
        pushes.len() >= MAX_PUBLISH_ATTEMPTS - s.attempts,
        forall|i: int| 0 <= i < MAX_PUBLISH_ATTEMPTS - s.attempts ==> !pushes[i],
    ensures
        publish_replay(s, pushes) == (PublishSession {
            attempts: MAX_PUBLISH_ATTEMPTS,
            discarded: MAX_PUBLISH_ATTEMPTS,
            outcome: PublishOutcome::TimedOut,
        }),
    decreases MAX_PUBLISH_ATTEMPTS - s.attempts,
{
    let next = publish_step(s, pushes[0]).0;
    assert(!pushes[0]);
    if s.attempts + 1 < MAX_PUBLISH_ATTEMPTS {
        assert forall|i: int| 0 <= i < MAX_PUBLISH_ATTEMPTS - next.attempts implies !pushes.drop_first()[i] by {
            assert(pushes.drop_first()[i] == pushes[i + 1]);
        }
        lemma_replay_rejected(next, pushes.drop_first());
    } else {
        assert(publish_replay(next, pushes.drop_first()) == next);
    }
}

} // verus!
