use podsync::feed::FeedError;
use podsync::fetch::{FetchRetry, FetchStep};

fn attempts_against_failing_transport(max_retries: usize) -> usize {
    let mut retry = FetchRetry::new(max_retries);
    let mut attempts = 0;
    loop {
        attempts += 1;
        match retry.on_failure() {
            FetchStep::Retry => continue,
            FetchStep::Fail(FeedError::NoResponse) => return attempts,
            FetchStep::Fail(FeedError::Malformed) => panic!("wrong error"),
        }
    }
}

#[test]
fn retries_are_exhausted_after_max_attempts() {
    assert_eq!(attempts_against_failing_transport(3), 3);
    assert_eq!(attempts_against_failing_transport(1), 1);
    assert_eq!(attempts_against_failing_transport(0), 1);
}
