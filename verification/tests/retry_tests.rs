use bar_daemon::retry::{RetryNext, RetryOutcome, RetryState};
use bar_daemon::{RETRY_AMOUNT, RETRY_TIMEOUT};

fn drive(outcomes: Vec<Result<u32, &'static str>>) -> (RetryOutcome<u32, &'static str>, u32, u32) {
    let mut state = RetryState::new();
    let mut sleeps = 0;
    for outcome in outcomes {
        match state.record(outcome) {
            RetryNext::Finished(done) => return (done, state.attempts, sleeps),
            RetryNext::SleepThenRetry(ms) => {
                assert_eq!(ms, RETRY_TIMEOUT);
                sleeps += 1;
            }
        }
    }
    panic!("operation history ran out before the machine finished");
}

// Failing k < RETRY_AMOUNT times and then succeeding returns the success,
// after exactly k + 1 attempts with one pause between attempts.
#[test]
fn first_success_wins() {
    for k in 0..RETRY_AMOUNT {
        let mut outcomes: Vec<Result<u32, &'static str>> = Vec::new();
        for _ in 0..k {
            outcomes.push(Err("boom"));
        }
        outcomes.push(Ok(1234));
        let (done, attempts, sleeps) = drive(outcomes);
        assert!(matches!(done, RetryOutcome::Success(1234)));
        assert_eq!(attempts, k + 1);
        assert_eq!(sleeps, k);
    }
}

#[test]
fn immediate_success_needs_one_attempt() {
    let (done, attempts, sleeps) = drive(vec![Ok(7)]);
    assert!(matches!(done, RetryOutcome::Success(7)));
    assert_eq!(attempts, 1);
    assert_eq!(sleeps, 0);
}

// An operation that always fails is exhausted with the last error after
// exactly RETRY_AMOUNT + 1 attempts.
#[test]
fn always_failing_exhausts_with_last_error() {
    let mut outcomes: Vec<Result<u32, &'static str>> = Vec::new();
    for _ in 0..RETRY_AMOUNT {
        outcomes.push(Err("early"));
    }
    outcomes.push(Err("last"));
    let (done, attempts, sleeps) = drive(outcomes);
    match done {
        RetryOutcome::Exhausted(e) => assert_eq!(e, "last"),
        other => panic!("unexpected outcome: {other:?}"),
    }
    assert_eq!(attempts, RETRY_AMOUNT + 1);
    assert_eq!(sleeps, RETRY_AMOUNT);
}
