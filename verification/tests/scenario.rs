use bytes::Bytes;
use http_body_util::Full;
use http_cmp::scenario::{
    FullRun, RunAction, RunError, RunEvent, RunPhase, RunSeries, SeriesStep,
};
use http_cmp::statistics::{Duration, SingleRunStatistics};
use hyper::Request;

const BASE: &str = "http://127.0.0.1:8080";
const INDEX: &[u8] = b"<html></html>";

fn millis(millis: u32) -> Duration {
    Duration::new(0, millis * 1_000_000)
}

fn sent(action: RunAction) -> Request<Full<Bytes>> {
    match action {
        RunAction::Send(request) => request,
        _ => panic!("a request is sent"),
    }
}

fn error(action: RunAction) -> RunError {
    match action {
        RunAction::Fail(error) => error,
        _ => panic!("the run comes to nothing"),
    }
}

fn content(body: Full<Bytes>) -> Vec<u8> {
    match body.into_inner() {
        Some(bytes) => bytes.to_vec(),
        None => Vec::new(),
    }
}

fn replied() -> RunEvent {
    RunEvent::Replied(millis(1), b"{}".to_vec())
}

/// A run that has taken the first of the events of a smooth run.
fn run_after(events: usize) -> FullRun {
    let mut run = FullRun::new(BASE, INDEX);
    let all = vec![
        RunEvent::Begin,
        RunEvent::Replied(millis(1), INDEX.to_vec()),
        replied(),
        RunEvent::Decoded,
        RunEvent::Encoded(b"put".to_vec()),
        replied(),
        RunEvent::Decoded,
        RunEvent::Encoded(b"post".to_vec()),
        replied(),
        RunEvent::Decoded,
    ];
    for event in all.into_iter().take(events) {
        run.advance(event);
    }
    run
}

#[test]
fn smooth_run() {
    let mut run = FullRun::new(BASE, INDEX);
    assert!(matches!(run.phase(), RunPhase::Start));
    let request = sent(run.advance(RunEvent::Begin));
    assert_eq!(request.method().as_str(), "GET");
    assert_eq!(request.uri().to_string(), "http://127.0.0.1:8080/");
    assert!(request.headers().is_empty());
    assert_eq!(content(request.into_body()), b"");

    let request = sent(run.advance(RunEvent::Replied(millis(1), INDEX.to_vec())));
    assert_eq!(request.method().as_str(), "GET");
    assert_eq!(request.uri().to_string(), "http://127.0.0.1:8080/count");
    assert!(request.headers().is_empty());

    match run.advance(RunEvent::Replied(millis(2), b"{\"cur\":0}".to_vec())) {
        RunAction::DecodeGet(body) => assert_eq!(body, b"{\"cur\":0}"),
        _ => panic!("the count is read"),
    }
    match run.advance(RunEvent::Decoded) {
        RunAction::EncodeIncrement(request) => assert_eq!(request.new, 15),
        _ => panic!("the addition is written down"),
    }
    let request = sent(run.advance(RunEvent::Encoded(b"{\"new\":15}".to_vec())));
    assert_eq!(request.method().as_str(), "PUT");
    assert_eq!(request.uri().path(), "/count");
    assert_eq!(request.headers().len(), 1);
    assert_eq!(
        request.headers().get("content-type").unwrap().as_bytes(),
        b"application/json"
    );
    assert_eq!(content(request.into_body()), b"{\"new\":15}");

    match run.advance(RunEvent::Replied(millis(3), b"{\"prev\":0}".to_vec())) {
        RunAction::DecodeIncrement(body) => assert_eq!(body, b"{\"prev\":0}"),
        _ => panic!("the answer is read"),
    }
    match run.advance(RunEvent::Decoded) {
        RunAction::EncodeSwap(request) => assert_eq!(request.new, 155),
        _ => panic!("the swap is written down"),
    }
    let request = sent(run.advance(RunEvent::Encoded(b"{\"new\":155}".to_vec())));
    assert_eq!(request.method().as_str(), "POST");
    assert_eq!(request.uri().path(), "/count");
    assert_eq!(
        request.headers().get("content-type").unwrap().as_bytes(),
        b"application/json"
    );
    assert_eq!(content(request.into_body()), b"{\"new\":155}");

    match run.advance(RunEvent::Replied(millis(4), b"answer".to_vec())) {
        RunAction::DecodeSwap(body) => assert_eq!(body, b"answer"),
        _ => panic!("the answer is read"),
    }
    match run.advance(RunEvent::Decoded) {
        RunAction::Finish(statistics) => {
            assert_eq!(statistics.get_index_rtt.as_micros(), 1_000);
            assert_eq!(statistics.get_count_rtt.as_micros(), 2_000);
            assert_eq!(statistics.put_count_rtt.as_micros(), 3_000);
            assert_eq!(statistics.post_count_rtt.as_micros(), 4_000);
            assert_eq!(statistics.total().as_micros(), 10_000);
        }
        _ => panic!("the run is over"),
    }
    assert!(matches!(run.phase(), RunPhase::Over));
}

#[test]
fn other_index_ends_the_run() {
    let mut run = run_after(1);
    let event = RunEvent::Replied(millis(1), b"<html>".to_vec());
    assert_eq!(error(run.advance(event)), RunError::UnexpectedIndex);
    assert!(matches!(run.phase(), RunPhase::Over));
}

#[test]
fn every_failure_is_told() {
    for (events, expected, message) in [
        (1, RunError::GetIndex, "Get index failed"),
        (2, RunError::GetCount, "Failed to get count"),
        (3, RunError::DecodeCount, "Failed to serialize get count"),
        (4, RunError::CreatePut, "Failed to create put request"),
        (5, RunError::PutCount, "Failed to put count"),
        (7, RunError::CreatePost, "Failed to create post request"),
        (8, RunError::PostCount, "Failed to post count"),
    ] {
        let mut run = run_after(events);
        let told = error(run.advance(RunEvent::Failed));
        assert_eq!(told, expected);
        assert_eq!(told.message(), message);
        assert!(matches!(run.phase(), RunPhase::Over));
    }
    assert_eq!(
        RunError::UnexpectedIndex.message(),
        "Got unexpected index html response"
    );
    assert_eq!(
        RunError::BuildGetCount.message(),
        "Failed to build get count"
    );
    assert_eq!(RunError::BuildPut.message(), "Failed to build put request");
    assert_eq!(RunError::BuildPost.message(), "Failed to build put request");
}

#[test]
fn target_that_is_none_ends_the_run() {
    let mut run = FullRun::new("not a target", INDEX);
    let told = error(run.advance(RunEvent::Begin));
    assert_eq!(told, RunError::BuildGet);
    assert_eq!(told.message(), "Failed to build get");
    assert!(matches!(run.phase(), RunPhase::Over));
}

#[test]
fn count_target_that_is_none_ends_the_run() {
    let mut run = FullRun::new("localhost:80", INDEX);
    assert_eq!(
        sent(run.advance(RunEvent::Begin)).uri().to_string(),
        "localhost:80"
    );
    let event = RunEvent::Replied(millis(1), INDEX.to_vec());
    assert_eq!(error(run.advance(event)), RunError::BuildGetCount);
}

fn times(of_index: u32) -> SingleRunStatistics {
    SingleRunStatistics {
        get_index_rtt: millis(of_index),
        get_count_rtt: millis(1),
        put_count_rtt: millis(1),
        post_count_rtt: millis(1),
    }
}

#[test]
fn series_tells_its_runs_in_order() {
    let (mut series, step) = RunSeries::run_sequential(3);
    assert!(matches!(step, SeriesStep::RunNext));
    assert!(matches!(
        series.advance(Some(times(5))),
        SeriesStep::RunNext
    ));
    assert!(matches!(
        series.advance(Some(times(3))),
        SeriesStep::RunNext
    ));
    match series.advance(Some(times(4))) {
        SeriesStep::Finish(results) => {
            let micros: Vec<u128> = results
                .iter()
                .map(|run| run.get_index_rtt.as_micros())
                .collect();
            assert_eq!(micros, [5_000, 3_000, 4_000]);
        }
        _ => panic!("the series is over"),
    }
}

#[test]
fn failed_run_ends_the_series() {
    let (mut series, _) = RunSeries::run_sequential(3);
    assert!(matches!(
        series.advance(Some(times(5))),
        SeriesStep::RunNext
    ));
    assert!(matches!(series.advance(None), SeriesStep::Fail));
}

#[test]
fn series_of_no_runs_is_over_at_once() {
    let (_, step) = RunSeries::run_sequential(0);
    match step {
        SeriesStep::Finish(results) => assert!(results.is_empty()),
        _ => panic!("the series is over"),
    }
}
