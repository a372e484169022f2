use bytes::Bytes;
use http_body_util::Full;
use http_cmp::body::{byte_body, empty_body};
use http_cmp::counter::{
    GetCounterResponse, IncrementCounterRequest, IncrementCounterResponse, SharedCounter,
    SwapCounterRequest, SwapCounterResponse,
};
use http_cmp::service::{
    my_service, route, Route, ServiceAction, ServiceCall, ServiceEvent, ServicePhase,
};
use hyper::Response;

const INDEX: &[u8] = b"<html></html>";

fn content(body: Full<Bytes>) -> Vec<u8> {
    match body.into_inner() {
        Some(bytes) => bytes.to_vec(),
        None => Vec::new(),
    }
}

fn response(action: ServiceAction) -> Response<Full<Bytes>> {
    match action {
        ServiceAction::Respond(response) => response,
        _ => panic!("the request is dealt with"),
    }
}

fn answer(path: &str, method: &str) -> (u16, Vec<u8>) {
    let (call, action) = my_service(&SharedCounter::new(), path, method, INDEX);
    assert_eq!(call.phase(), ServicePhase::Over);
    let response = response(action);
    assert!(response.headers().is_empty());
    (response.status().as_u16(), content(response.into_body()))
}

#[test]
fn bodies_hold_their_bytes() {
    assert_eq!(content(empty_body()), b"");
    assert_eq!(content(byte_body(b"abc".to_vec())), b"abc");
    assert_eq!(content(byte_body(&b"static"[..])), b"static");
    assert_eq!(content(byte_body("text")), b"text");
}

#[test]
fn routes() {
    assert_eq!(route("", "GET"), Route::Index);
    assert_eq!(route("/", "GET"), Route::Index);
    assert_eq!(route("/", "PUT"), Route::MethodNotAllowed);
    assert_eq!(route("/count", "GET"), Route::ReadCount);
    assert_eq!(route("/count", "PUT"), Route::IncrementCount);
    assert_eq!(route("/count", "POST"), Route::SwapCount);
    assert_eq!(route("/count", "DELETE"), Route::MethodNotAllowed);
    assert_eq!(route("/count", "get"), Route::MethodNotAllowed);
    assert_eq!(route("/count/", "GET"), Route::NotFound);
    assert_eq!(route("/other", "DELETE"), Route::NotFound);
}

#[test]
fn index_is_served() {
    assert_eq!(answer("/", "GET"), (200, INDEX.to_vec()));
    assert_eq!(answer("", "GET"), (200, INDEX.to_vec()));
}

#[test]
fn refusals_have_no_body() {
    assert_eq!(answer("/", "POST"), (405, Vec::new()));
    assert_eq!(answer("/count", "PATCH"), (405, Vec::new()));
    assert_eq!(answer("/nowhere", "GET"), (404, Vec::new()));
    assert_eq!(answer("/nowhere", "POST"), (404, Vec::new()));
}

#[test]
fn count_is_read() {
    let counter = SharedCounter::new();
    let _ = counter.swap(7);
    let (mut call, action) = my_service(&counter, "/count", "GET", INDEX);
    match action {
        ServiceAction::EncodeGet(response) => assert_eq!(response.cur(), 7),
        _ => panic!("the count is written down"),
    }
    let action = call.advance(&counter, ServiceEvent::Encoded(b"{\"cur\":7}".to_vec()));
    assert_eq!(call.phase(), ServicePhase::Over);
    let response = response(action);
    assert_eq!(response.status().as_u16(), 200);
    assert_eq!(content(response.into_body()), b"{\"cur\":7}");
}

#[test]
fn count_is_incremented() {
    let counter = SharedCounter::new();
    let _ = counter.swap(7);
    let (mut call, action) = my_service(&counter, "/count", "PUT", INDEX);
    assert!(matches!(action, ServiceAction::DrainBody(512)));
    match call.advance(&counter, ServiceEvent::Drained(b"{\"new\":15}".to_vec())) {
        ServiceAction::DecodeIncrement(body) => assert_eq!(body, b"{\"new\":15}"),
        _ => panic!("the body is read"),
    }
    let event = ServiceEvent::IncrementDecoded(IncrementCounterRequest::new(15));
    match call.advance(&counter, event) {
        ServiceAction::EncodeIncrement(response) => assert_eq!(response.prev(), 7),
        _ => panic!("the answer is written down"),
    }
    assert_eq!(counter.get().cur(), 22);
    let action = call.advance(&counter, ServiceEvent::Encoded(b"{\"prev\":7}".to_vec()));
    assert_eq!(content(response(action).into_body()), b"{\"prev\":7}");
}

#[test]
fn count_is_swapped() {
    let counter = SharedCounter::new();
    let _ = counter.swap(7);
    let (mut call, action) = my_service(&counter, "/count", "POST", INDEX);
    assert!(matches!(action, ServiceAction::DrainBody(512)));
    match call.advance(&counter, ServiceEvent::Drained(b"{}".to_vec())) {
        ServiceAction::DecodeSwap(body) => assert_eq!(body, b"{}"),
        _ => panic!("the body is read"),
    }
    let event = ServiceEvent::SwapDecoded(SwapCounterRequest::new(155));
    match call.advance(&counter, event) {
        ServiceAction::EncodeSwap(response) => {
            assert_eq!((response.prev(), response.cur()), (7, 155));
        }
        _ => panic!("the answer is written down"),
    }
    assert_eq!(counter.get().cur(), 155);
    let action = call.advance(&counter, ServiceEvent::Encoded(b"{}".to_vec()));
    assert_eq!(response(action).status().as_u16(), 200);
}

#[test]
fn decisions_name_what_is_done_to_the_counter() {
    let (mut call, action) = ServiceCall::begin("/count", "PUT", INDEX);
    assert!(matches!(action, ServiceAction::DrainBody(512)));
    call.decide(ServiceEvent::Drained(Vec::new()));
    let event = ServiceEvent::IncrementDecoded(IncrementCounterRequest::new(3));
    assert!(matches!(
        call.decide(event),
        ServiceAction::IncrementCounter(3)
    ));
    match call.decide(ServiceEvent::Incremented(IncrementCounterResponse::of(9))) {
        ServiceAction::EncodeIncrement(response) => assert_eq!(response.prev(), 9),
        _ => panic!("the answer is written down"),
    }
    let (mut call, _) = ServiceCall::begin("/count", "POST", INDEX);
    call.decide(ServiceEvent::Drained(Vec::new()));
    let event = ServiceEvent::SwapDecoded(SwapCounterRequest::new(4));
    assert!(matches!(call.decide(event), ServiceAction::SwapCounter(4)));
    match call.decide(ServiceEvent::Swapped(SwapCounterResponse::of(9, 4))) {
        ServiceAction::EncodeSwap(response) => {
            assert_eq!((response.prev(), response.cur()), (9, 4));
        }
        _ => panic!("the answer is written down"),
    }
    let (mut call, action) = ServiceCall::begin("/count", "GET", INDEX);
    assert!(matches!(action, ServiceAction::ReadCounter));
    match call.decide(ServiceEvent::CounterRead(GetCounterResponse::of(8))) {
        ServiceAction::EncodeGet(response) => assert_eq!(response.cur(), 8),
        _ => panic!("the count is written down"),
    }
}
