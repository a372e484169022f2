use bytes::Bytes;
use http_body_util::Full;
use http_cmp::counter::{IncrementCounterRequest, SharedCounter, SwapCounterRequest};
use http_cmp::scenario::{FullRun, RunAction, RunEvent};
use http_cmp::service::{my_service, ServiceAction, ServiceEvent};
use http_cmp::statistics::Duration;
use hyper::Request;

const INDEX: &[u8] = b"<html></html>";

fn content(body: Full<Bytes>) -> Vec<u8> {
    match body.into_inner() {
        Some(bytes) => bytes.to_vec(),
        None => Vec::new(),
    }
}

fn number(bytes: &[u8]) -> usize {
    std::str::from_utf8(bytes).unwrap().parse().unwrap()
}

/// Serves a request; a body is one number, and an answer is its numbers with spaces between.
fn serve(counter: &SharedCounter, request: Request<Full<Bytes>>) -> Vec<u8> {
    let path = request.uri().path().to_owned();
    let method = request.method().clone();
    let body = content(request.into_body());
    let (mut call, mut action) = my_service(counter, &path, method.as_str(), INDEX);
    loop {
        let event = match action {
            ServiceAction::Respond(response) => return content(response.into_body()),
            ServiceAction::DrainBody(_) => ServiceEvent::Drained(body.clone()),
            ServiceAction::DecodeIncrement(bytes) => {
                ServiceEvent::IncrementDecoded(IncrementCounterRequest::new(number(&bytes)))
            }
            ServiceAction::DecodeSwap(bytes) => {
                ServiceEvent::SwapDecoded(SwapCounterRequest::new(number(&bytes)))
            }
            ServiceAction::EncodeGet(told) => {
                ServiceEvent::Encoded(format!("{}", told.cur()).into_bytes())
            }
            ServiceAction::EncodeIncrement(told) => {
                ServiceEvent::Encoded(format!("{}", told.prev()).into_bytes())
            }
            ServiceAction::EncodeSwap(told) => {
                ServiceEvent::Encoded(format!("{} {}", told.prev(), told.cur()).into_bytes())
            }
            _ => unreachable!(),
        };
        action = call.advance(counter, event);
    }
}

/// Runs against the service and tells the answers about the count.
fn run_full(counter: &SharedCounter) -> Vec<String> {
    let mut run = FullRun::new("http://127.0.0.1:8080", INDEX);
    let mut event = RunEvent::Begin;
    let mut answers = Vec::new();
    loop {
        event = match run.advance(event) {
            RunAction::Send(request) => {
                RunEvent::Replied(Duration::new(0, 1), serve(counter, request))
            }
            RunAction::EncodeIncrement(request) => {
                RunEvent::Encoded(format!("{}", request.new).into_bytes())
            }
            RunAction::EncodeSwap(request) => {
                RunEvent::Encoded(format!("{}", request.new).into_bytes())
            }
            RunAction::DecodeGet(body)
            | RunAction::DecodeIncrement(body)
            | RunAction::DecodeSwap(body) => {
                answers.push(String::from_utf8(body).unwrap());
                RunEvent::Decoded
            }
            RunAction::Finish(_) => return answers,
            RunAction::Fail(error) => panic!("{}", error.message()),
        };
    }
}

#[test]
fn run_leaves_the_swapped_count() {
    let counter = SharedCounter::new();
    let _ = counter.swap(40);
    assert_eq!(run_full(&counter), ["40", "40", "55 155"]);
    assert_eq!(counter.get().cur(), 155);
    assert_eq!(run_full(&counter), ["155", "155", "170 155"]);
    assert_eq!(counter.get().cur(), 155);
}

#[test]
fn run_starts_over_behind_the_largest_count() {
    let counter = SharedCounter::new();
    let _ = counter.swap(usize::MAX);
    let found = format!("{}", usize::MAX);
    assert_eq!(
        run_full(&counter),
        [found.as_str(), found.as_str(), "14 155"]
    );
}
