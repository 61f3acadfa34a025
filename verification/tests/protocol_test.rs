use boardgamegeek::protocol::{
    classify_get, classify_get_with_202_check, next_step, Attempt, Response, RetryPolicy, Step,
};
use boardgamegeek::Error;
use backoff::backoff::Backoff;
use std::time::Duration;

fn answer(status: u16, body: &str) -> Response {
    Response::Answered { status, body: if status == 200 { Some(body.to_string()) } else { None } }
}

/// Sends a plain request against a script of answers: what `get` does, with
/// every pause allowed. Gives the result and the pauses that were taken.
fn get(script: &mut Vec<Response>, schedule: &mut Vec<Option<u64>>) -> (Result<String, Error>, Vec<u64>) {
    let mut pauses = Vec::new();
    loop {
        let attempt = classify_get(script.remove(0));
        let pause = if attempt.is_transient() { schedule.remove(0) } else { None };
        match next_step(attempt, pause) {
            Step::Return(result) => return (result, pauses),
            Step::RetryAfter(pause) => pauses.push(pause),
        }
    }
}

/// The same for a request that waits for the service: each round is one
/// plain request, which here gets one answer.
fn get_with_202_check(script: &mut Vec<Response>, schedule: &mut Vec<Option<u64>>) -> (Result<String, Error>, usize) {
    let mut rounds = 0;
    loop {
        rounds += 1;
        let (inner, _) = get(script, &mut vec![None]);
        let attempt = classify_get_with_202_check(inner);
        let pause = if attempt.is_transient() { schedule.remove(0) } else { None };
        match next_step(attempt, pause) {
            Step::Return(result) => return (result, rounds),
            Step::RetryAfter(_) => {}
        }
    }
}

#[test]
fn get_outlasts_two_429() {
    let mut script = vec![answer(429, ""), answer(429, ""), answer(200, "<items/>"), answer(200, "late")];
    let mut schedule = vec![Some(500), Some(750), Some(1125)];
    let (result, pauses) = get(&mut script, &mut schedule);
    assert_eq!(result, Ok("<items/>".to_string()));
    assert_eq!(script.len(), 1);
    assert_eq!(pauses, vec![500, 750]);
    assert!(pauses[0] < pauses[1]);
}

#[test]
fn get_with_202_check_outlasts_two_202() {
    let mut script = vec![answer(202, ""), answer(202, ""), answer(200, "<items/>"), answer(200, "late")];
    let mut schedule = vec![Some(500), Some(750), Some(1125)];
    let (result, rounds) = get_with_202_check(&mut script, &mut schedule);
    assert_eq!(result, Ok("<items/>".to_string()));
    assert_eq!(rounds, 3);
    assert_eq!(script.len(), 1);
}

#[test]
fn get_fails_at_once_on_500() {
    let mut script = vec![answer(500, ""), answer(200, "never asked for")];
    let mut schedule = vec![Some(500)];
    let (result, pauses) = get(&mut script, &mut schedule);
    assert_eq!(result, Err(Error::RequestFailed(500)));
    assert_eq!(script.len(), 1);
    assert!(pauses.is_empty());
    assert_eq!(schedule.len(), 1);
}

#[test]
fn get_gives_up_when_the_schedule_is_used_up() {
    let mut script = vec![answer(429, ""), answer(429, ""), answer(200, "too late")];
    let mut schedule = vec![Some(500), None];
    let (result, pauses) = get(&mut script, &mut schedule);
    assert_eq!(result, Err(Error::TooManyRequests));
    assert_eq!(pauses, vec![500]);
    assert_eq!(script.len(), 1);
}

#[test]
fn get_with_202_check_does_not_retry_429() {
    let mut script = vec![answer(429, ""), answer(200, "never asked for")];
    let mut schedule = vec![Some(500)];
    let (result, rounds) = get_with_202_check(&mut script, &mut schedule);
    assert_eq!(result, Err(Error::TooManyRequests));
    assert_eq!(rounds, 1);
    assert_eq!(schedule.len(), 1);
}

#[test]
fn get_with_202_check_gives_up_with_the_202() {
    let mut script = vec![answer(202, ""), answer(202, "")];
    let mut schedule = vec![Some(500), None];
    let (result, rounds) = get_with_202_check(&mut script, &mut schedule);
    assert_eq!(result, Err(Error::RequestFailed(202)));
    assert_eq!(rounds, 2);
}

#[test]
fn classify_get_covers_every_kind_of_answer() {
    assert_eq!(classify_get(Response::Unreachable), Attempt::Failed(Error::ConnectionFailed));
    assert_eq!(classify_get(answer(200, "body")), Attempt::Done("body".to_string()));
    assert_eq!(
        classify_get(Response::Answered { status: 200, body: None }),
        Attempt::Failed(Error::BadResponse)
    );
    assert_eq!(classify_get(answer(429, "")), Attempt::Again(Error::TooManyRequests));
    assert_eq!(classify_get(answer(202, "")), Attempt::Failed(Error::RequestFailed(202)));
    assert_eq!(classify_get(answer(302, "")), Attempt::Failed(Error::RequestFailed(302)));
    assert_eq!(classify_get(answer(404, "")), Attempt::Failed(Error::RequestFailed(404)));
    assert_eq!(
        classify_get(Response::Answered { status: 429, body: Some("slow down".to_string()) }),
        Attempt::Again(Error::TooManyRequests)
    );
}

#[test]
fn classify_get_with_202_check_covers_every_result() {
    assert_eq!(classify_get_with_202_check(Ok("body".to_string())), Attempt::Done("body".to_string()));
    assert_eq!(
        classify_get_with_202_check(Err(Error::RequestFailed(202))),
        Attempt::Again(Error::RequestFailed(202))
    );
    assert_eq!(
        classify_get_with_202_check(Err(Error::RequestFailed(500))),
        Attempt::Failed(Error::RequestFailed(500))
    );
    assert_eq!(classify_get_with_202_check(Err(Error::BadResponse)), Attempt::Failed(Error::BadResponse));
    assert_eq!(
        classify_get_with_202_check(Err(Error::ConnectionFailed)),
        Attempt::Failed(Error::ConnectionFailed)
    );
    assert_eq!(
        classify_get_with_202_check(Err(Error::TooManyRequests)),
        Attempt::Failed(Error::TooManyRequests)
    );
}

#[test]
fn next_step_waits_only_for_what_may_pass() {
    assert_eq!(next_step(Attempt::Done("x".to_string()), Some(1)), Step::Return(Ok("x".to_string())));
    assert_eq!(next_step(Attempt::Failed(Error::BadResponse), Some(1)), Step::Return(Err(Error::BadResponse)));
    assert_eq!(next_step(Attempt::Again(Error::TooManyRequests), Some(1)), Step::RetryAfter(1));
    assert_eq!(
        next_step(Attempt::Again(Error::TooManyRequests), None),
        Step::Return(Err(Error::TooManyRequests))
    );
}

#[test]
fn the_standard_policy_is_valid() {
    let policy = RetryPolicy::default();
    assert!(policy.is_valid());
    assert_eq!(policy.initial_interval, 500);
    assert_eq!(policy.multiplier, 150);
    assert_eq!(policy.randomization, 50);
    assert_eq!(policy.max_interval, 60_000);
    assert_eq!(policy.max_elapsed, Some(60_000));
    assert!(!RetryPolicy { initial_interval: 0, ..policy }.is_valid());
    assert!(!RetryPolicy { multiplier: 99, ..policy }.is_valid());
    assert!(!RetryPolicy { randomization: 101, ..policy }.is_valid());
    assert!(!RetryPolicy { max_interval: 499, ..policy }.is_valid());
}

#[test]
fn error_messages() {
    assert_eq!(Error::RequestFailed(500).message(), "received bad status code from BGG");
    assert_eq!(Error::BadResponse.message(), "received bad response from BGG");
    assert_eq!(Error::InvalidXML.message(), "received invalid XML from BGG");
    assert_eq!(Error::ConnectionFailed.message(), "could not connect to BGG");
    assert_eq!(Error::TooManyRequests.message(), "too many requests");
}

#[test]
fn pauses_grow_from_one_attempt_to_the_next() {
    let policy = RetryPolicy::default();
    let mut schedule = backoff::ExponentialBackoffBuilder::new()
        .with_initial_interval(Duration::from_millis(policy.initial_interval))
        .with_multiplier(policy.multiplier as f64 / 100.0)
        .with_randomization_factor(0.0)
        .with_max_interval(Duration::from_millis(policy.max_interval))
        .with_max_elapsed_time(policy.max_elapsed.map(Duration::from_millis))
        .build();
    let first = schedule.next_backoff().unwrap();
    let second = schedule.next_backoff().unwrap();
    let third = schedule.next_backoff().unwrap();
    assert_eq!(first, Duration::from_millis(500));
    assert_eq!(second, Duration::from_millis(750));
    assert_eq!(third, Duration::from_millis(1125));

    let mut script = vec![answer(429, ""), answer(429, ""), answer(200, "<items/>")];
    let mut pauses = vec![
        Some(first.as_millis() as u64),
        Some(second.as_millis() as u64),
        Some(third.as_millis() as u64),
    ];
    let (result, taken) = get(&mut script, &mut pauses);
    assert_eq!(result, Ok("<items/>".to_string()));
    assert!(script.is_empty());
    assert_eq!(taken, vec![500, 750]);
}
