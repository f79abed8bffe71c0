use stockpile::errors::JobErr;
use stockpile::publish::{PublishAction, PublishOutcome, PublishSession, MAX_PUBLISH_ATTEMPTS};

/// Runs a session against a remote whose push fates are `pushes`, counting
/// the commits left on master (one per attempt, less one per discard).
fn simulate(pushes: &[bool]) -> (PublishSession, u32) {
    let mut session = PublishSession::new();
    let mut commits_on_master: u32 = 0;
    let mut i = 0;
    loop {
        commits_on_master += 1;
        let action = session.record_push(pushes[i]);
        i += 1;
        match action {
            PublishAction::Finish => break,
            PublishAction::DiscardAndRetry => commits_on_master -= 1,
            PublishAction::DiscardAndGiveUp => {
                commits_on_master -= 1;
                break;
            }
            PublishAction::Attempt => unreachable!(),
        }
    }
    (session, commits_on_master)
}

#[test]
fn accepted_after_three_rejections() {
    let (session, commits) = simulate(&[false, false, false, true]);
    assert_eq!(session.attempts, 4);
    assert_eq!(session.discarded, 3);
    assert_eq!(session.outcome, PublishOutcome::Published);
    assert_eq!(commits, 1);
    assert_eq!(session.result(), Some(Ok(())));
}

#[test]
fn always_rejected_times_out_after_ten() {
    let (session, commits) = simulate(&[false; 20]);
    assert_eq!(session.attempts, MAX_PUBLISH_ATTEMPTS);
    assert_eq!(session.attempts, 10);
    assert_eq!(session.discarded, 10);
    assert_eq!(session.outcome, PublishOutcome::TimedOut);
    assert_eq!(commits, 0);
    assert_eq!(session.result(), Some(Err(JobErr::TimedOut)));
}

#[test]
fn accepted_at_once() {
    let (session, commits) = simulate(&[true]);
    assert_eq!((session.attempts, session.discarded, commits), (1, 0, 1));
}

#[test]
fn fresh_session_is_pending() {
    assert_eq!(PublishSession::new().result(), None);
}
