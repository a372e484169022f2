//! The HTTP service around the counter. What is decided between collecting a body and
//! turning values into JSON and back is decided here; the server does those and hands
//! their outcome in.

use crate::body::{byte_body, empty_body};
use crate::counter::{
    added_since_swap, after_all, last_swapped, law_count_after_changes, CounterOp,
    GetCounterResponse, IncrementCounterRequest, IncrementCounterResponse, SharedCounter,
    SwapCounterRequest, SwapCounterResponse,
};
use crate::message::{
    build_response, no_fields, response_content, response_fields, response_status,
};
use crate::text::str_eq;
use bytes::Bytes;
use http_body_util::Full;
use hyper::Response;
use vstd::prelude::*;
use vstd::slice::slice_to_vec;

verus! {

/// The status code of an answer as asked for.
pub const OK: u16 = 200;

/// The status code where nothing is to be found at a path.
pub const NOT_FOUND: u16 = 404;

/// The status code where a path does not know a method.
pub const METHOD_NOT_ALLOWED: u16 = 405;

/// How much room the collection of a request's body begins with.
pub const BODY_ROOM: usize = 512;

/// What a request asks for.
#[derive(Copy, Clone, Debug, PartialEq, Eq, Structural)]
pub enum Route {
    /// The index.
    Index,
    /// The count.
    ReadCount,
    /// An addition to the count.
    IncrementCount,
    /// Another count.
    SwapCount,
    /// Something that is there, but by a method that it does not know.
    MethodNotAllowed,
    /// Something that is not there.
    NotFound,
}

/// What a request for a path by a method asks for.
pub open spec fn route_of(path: Seq<char>, method: Seq<char>) -> Route {
    if path == ""@ || path == "/"@ {
        if method == "GET"@ {
            Route::Index
        } else {
            Route::MethodNotAllowed
        }
    } else if path == "/count"@ {
        if method == "GET"@ {
            Route::ReadCount
        } else if method == "PUT"@ {
            Route::IncrementCount
        } else if method == "POST"@ {
            Route::SwapCount
        } else {
            Route::MethodNotAllowed
        }
    } else {
        Route::NotFound
    }
}

/// Finds out what a request for a path by a method asks for.
pub fn route(path: &str, method: &str) -> (route: Route)
    ensures
        route == route_of(path@, method@),
{
    if str_eq(path, "") || str_eq(path, "/") {
        if str_eq(method, "GET") {
            Route::Index
        } else {
            Route::MethodNotAllowed
        }
    } else if str_eq(path, "/count") {
        if str_eq(method, "GET") {
            Route::ReadCount
        } else if str_eq(method, "PUT") {
            Route::IncrementCount
        } else if str_eq(method, "POST") {
            Route::SwapCount
        } else {
            Route::MethodNotAllowed
        }
    } else {
        Route::NotFound
    }
}

/// What is to be done next for a request.
pub enum ServiceAction {
    /// Send this response; the request is dealt with.
    Respond(Response<Full<Bytes>>),
    /// Collect the body of the request, with that much room from the start.
    DrainBody(usize),
    /// Read the collected body as a request for an addition.
    DecodeIncrement(Vec<u8>),
    /// Read the collected body as a request for another count.
    DecodeSwap(Vec<u8>),
    /// Read the counter.
    ReadCounter,
    /// Add that much to the counter.
    IncrementCounter(usize),
    /// Put that value into the counter.
    SwapCounter(usize),
    /// Write the count down.
    EncodeGet(GetCounterResponse),
    /// Write down what an addition did.
    EncodeIncrement(IncrementCounterResponse),
    /// Write down what a swap did.
    EncodeSwap(SwapCounterResponse),
}

impl ServiceAction {
    /// Whether it is to send a response with that status code and body, and with no header
    /// field.
    pub open spec fn responds(self, status: u16, content: Seq<u8>) -> bool {
        self matches ServiceAction::Respond(response) && response_status(response) == status
            && response_fields(response) == no_fields()
            && response_content(response) == content
    }
}

/// What has been done for a request.
pub enum ServiceEvent {
    /// The body is collected.
    Drained(Vec<u8>),
    /// It asked for an addition.
    IncrementDecoded(IncrementCounterRequest),
    /// It asked for another count.
    SwapDecoded(SwapCounterRequest),
    /// The counter is read.
    CounterRead(GetCounterResponse),
    /// The counter is added to.
    Incremented(IncrementCounterResponse),
    /// The counter has another value.
    Swapped(SwapCounterResponse),
    /// The answer is written down.
    Encoded(Vec<u8>),
}

/// What a request waits for.
#[derive(Copy, Clone, Debug, PartialEq, Eq, Structural)]
pub enum ServicePhase {
    /// The count.
    Read,
    /// The body of a request for an addition.
    DrainIncrement,
    /// The body of a request for another count.
    DrainSwap,
    /// The reading of a body for an addition.
    DecodeIncrement,
    /// The reading of a body for another count.
    DecodeSwap,
    /// The addition.
    Increment,
    /// The swap.
    Swap,
    /// The writing down of the answer.
    Encode,
    /// Nothing: the response is on its way.
    Over,
}

impl ServicePhase {
    /// Whether the event is one that is waited for.
    pub open spec fn awaits(self, event: ServiceEvent) -> bool {
        match self {
            ServicePhase::Read => event is CounterRead,
            ServicePhase::DrainIncrement => event is Drained,
            ServicePhase::DrainSwap => event is Drained,
            ServicePhase::DecodeIncrement => event is IncrementDecoded,
            ServicePhase::DecodeSwap => event is SwapDecoded,
            ServicePhase::Increment => event is Incremented,
            ServicePhase::Swap => event is Swapped,
            ServicePhase::Encode => event is Encoded,
            ServicePhase::Over => false,
        }
    }

    /// What is waited for after that event.
    pub open spec fn next(self) -> ServicePhase {
        match self {
            ServicePhase::Read => ServicePhase::Encode,
            ServicePhase::DrainIncrement => ServicePhase::DecodeIncrement,
            ServicePhase::DrainSwap => ServicePhase::DecodeSwap,
            ServicePhase::DecodeIncrement => ServicePhase::Increment,
            ServicePhase::DecodeSwap => ServicePhase::Swap,
            ServicePhase::Increment => ServicePhase::Encode,
            ServicePhase::Swap => ServicePhase::Encode,
            ServicePhase::Encode => ServicePhase::Over,
            ServicePhase::Over => ServicePhase::Over,
        }
    }

    /// What is to be done after that event.
    pub open spec fn leads_to(self, event: ServiceEvent, action: ServiceAction) -> bool {
        match event {
            ServiceEvent::Drained(body) => action == if self == ServicePhase::DrainIncrement {
                ServiceAction::DecodeIncrement(body)
            } else {
                ServiceAction::DecodeSwap(body)
            },
            ServiceEvent::IncrementDecoded(request) => action == ServiceAction::IncrementCounter(
                request.new,
            ),
            ServiceEvent::SwapDecoded(request) => action == ServiceAction::SwapCounter(request.new),
            ServiceEvent::CounterRead(response) => action == ServiceAction::EncodeGet(response),
            ServiceEvent::Incremented(response) => action == ServiceAction::EncodeIncrement(
                response,
            ),
            ServiceEvent::Swapped(response) => action == ServiceAction::EncodeSwap(response),
            ServiceEvent::Encoded(payload) => action.responds(OK, payload@),
        }
    }
}

/// A request that is being dealt with.
pub struct ServiceCall {
    phase: ServicePhase,
}

impl ServiceCall {
    /// What is waited for.
    pub closed spec fn phase_spec(&self) -> ServicePhase {
        self.phase
    }

    /// What is waited for.
    pub fn phase(&self) -> (phase: ServicePhase)
        ensures
            phase == self.phase_spec(),
    {
        self.phase
    }

    /// Begins to deal with a request for `path` by `method`; `index` is the page that is
    /// served as the index.
    pub fn begin(path: &str, method: &str, index: &[u8]) -> (begun: (ServiceCall, ServiceAction))
        ensures
            match route_of(path@, method@) {
                Route::Index => begun.0.phase_spec() == ServicePhase::Over && begun.1.responds(
                    OK,
                    index@,
                ),
                Route::ReadCount => begun.0.phase_spec() == ServicePhase::Read && begun.1
                    == ServiceAction::ReadCounter,
                Route::IncrementCount => begun.0.phase_spec() == ServicePhase::DrainIncrement
                    && begun.1 == ServiceAction::DrainBody(BODY_ROOM),
                Route::SwapCount => begun.0.phase_spec() == ServicePhase::DrainSwap && begun.1
                    == ServiceAction::DrainBody(BODY_ROOM),
                Route::MethodNotAllowed => begun.0.phase_spec() == ServicePhase::Over
                    && begun.1.responds(METHOD_NOT_ALLOWED, Seq::empty()),
                Route::NotFound => begun.0.phase_spec() == ServicePhase::Over && begun.1.responds(
                    NOT_FOUND,
                    Seq::empty(),
                ),
            },
    {
        let (phase, action) = match route(path, method) {
            Route::Index => (
                ServicePhase::Over,
                ServiceAction::Respond(build_response(OK, byte_body(slice_to_vec(index)))),
            ),
            Route::ReadCount => (ServicePhase::Read, ServiceAction::ReadCounter),
            Route::IncrementCount => (
                ServicePhase::DrainIncrement,
                ServiceAction::DrainBody(BODY_ROOM),
            ),
            Route::SwapCount => (ServicePhase::DrainSwap, ServiceAction::DrainBody(BODY_ROOM)),
            Route::MethodNotAllowed => (
                ServicePhase::Over,
                ServiceAction::Respond(build_response(METHOD_NOT_ALLOWED, empty_body())),
            ),
            Route::NotFound => (
                ServicePhase::Over,
                ServiceAction::Respond(build_response(NOT_FOUND, empty_body())),
            ),
        };
        (ServiceCall { phase }, action)
    }

    /// Decides what follows what was waited for.
    pub fn decide(&mut self, event: ServiceEvent) -> (action: ServiceAction)
        requires
            old(self).phase_spec().awaits(event),
        ensures
            final(self).phase_spec() == old(self).phase_spec().next(),
            old(self).phase_spec().leads_to(event, action),
            match event {
                ServiceEvent::Drained(body) => if old(self).phase_spec()
                    == ServicePhase::DrainIncrement {
                    action matches ServiceAction::DecodeIncrement(read) && read@ == body@
                } else {
                    action matches ServiceAction::DecodeSwap(read) && read@ == body@
                },
                ServiceEvent::IncrementDecoded(request) => action
                    matches ServiceAction::IncrementCounter(num) && num == request.new,
                ServiceEvent::SwapDecoded(request) => action matches ServiceAction::SwapCounter(cur)
                    && cur == request.new,
                ServiceEvent::CounterRead(found) => action matches ServiceAction::EncodeGet(told)
                    && told.cur_spec() == found.cur_spec(),
                ServiceEvent::Incremented(found) => action
                    matches ServiceAction::EncodeIncrement(told) && told.prev_spec()
                    == found.prev_spec(),
                ServiceEvent::Swapped(found) => action matches ServiceAction::EncodeSwap(told)
                    && told.prev_spec() == found.prev_spec() && told.cur_spec()
                    == found.cur_spec(),
                ServiceEvent::Encoded(payload) => action matches ServiceAction::Respond(response)
                    && response_status(response) == 200 && response_content(response) == payload@,
            },
    {
        match event {
            ServiceEvent::Drained(body) => match self.phase {
                ServicePhase::DrainIncrement => {
                    self.phase = ServicePhase::DecodeIncrement;
                    ServiceAction::DecodeIncrement(body)
                },
                _ => {
                    self.phase = ServicePhase::DecodeSwap;
                    ServiceAction::DecodeSwap(body)
                },
            },
            ServiceEvent::IncrementDecoded(request) => {
                self.phase = ServicePhase::Increment;
                ServiceAction::IncrementCounter(request.new)
            },
            ServiceEvent::SwapDecoded(request) => {
                self.phase = ServicePhase::Swap;
                ServiceAction::SwapCounter(request.new)
            },
            ServiceEvent::CounterRead(response) => {
                self.phase = ServicePhase::Encode;
                ServiceAction::EncodeGet(response)
            },
            ServiceEvent::Incremented(response) => {
                self.phase = ServicePhase::Encode;
                ServiceAction::EncodeIncrement(response)
            },
            ServiceEvent::Swapped(response) => {
                self.phase = ServicePhase::Encode;
                ServiceAction::EncodeSwap(response)
            },
            ServiceEvent::Encoded(payload) => {
                self.phase = ServicePhase::Over;
                ServiceAction::Respond(build_response(OK, byte_body(payload)))
            },
        }
    }

    /// Decides what follows what was waited for, and does to the counter what is to be
    /// done to it. What the counter held is up to whoever shares it.
    pub fn advance(&mut self, shared_counter: &SharedCounter, event: ServiceEvent) -> (action:
        ServiceAction)
        requires
            old(self).phase_spec().awaits(event),
        ensures
            match event {
                ServiceEvent::IncrementDecoded(request) => {
                    &&& final(self).phase_spec() == ServicePhase::Encode
                    &&& action matches ServiceAction::EncodeIncrement(response)
                        && shared_counter.changed(
                        CounterOp::Increment(request.new),
                        response.prev_spec(),
                    ) && shared_counter.held(response.prev_spec())
                },
                ServiceEvent::SwapDecoded(request) => {
                    &&& final(self).phase_spec() == ServicePhase::Encode
                    &&& action matches ServiceAction::EncodeSwap(response)
                        && shared_counter.changed(
                        CounterOp::Swap(request.new),
                        response.prev_spec(),
                    ) && shared_counter.held(response.prev_spec()) && response.cur_spec()
                        == request.new
                },
                _ => {
                    &&& final(self).phase_spec() == old(self).phase_spec().next()
                    &&& old(self).phase_spec().leads_to(event, action)
                },
            },
    {
        match self.decide(event) {
            ServiceAction::IncrementCounter(num) => {
                let response = shared_counter.increment(num);
                self.decide(ServiceEvent::Incremented(response))
            },
            ServiceAction::SwapCounter(cur) => {
                let response = shared_counter.swap(cur);
                self.decide(ServiceEvent::Swapped(response))
            },
            action => action,
        }
    }
}

/// Begins to deal with a request for `path` by `method`, and reads the counter where the
/// count is asked for; `index` is the page that is served as the index.
pub fn my_service(
    shared_counter: &SharedCounter,
    path: &str,
    method: &str,
    index: &[u8],
) -> (begun: (ServiceCall, ServiceAction))
    ensures
        match route_of(path@, method@) {
            Route::Index => begun.0.phase_spec() == ServicePhase::Over && begun.1.responds(
                OK,
                index@,
            ),
            Route::ReadCount => begun.0.phase_spec() == ServicePhase::Encode
                && (begun.1 matches ServiceAction::EncodeGet(response) && shared_counter.held(
                response.cur_spec(),
            )),
            Route::IncrementCount => begun.0.phase_spec() == ServicePhase::DrainIncrement
                && begun.1 == ServiceAction::DrainBody(BODY_ROOM),
            Route::SwapCount => begun.0.phase_spec() == ServicePhase::DrainSwap && begun.1
                == ServiceAction::DrainBody(BODY_ROOM),
            Route::MethodNotAllowed => begun.0.phase_spec() == ServicePhase::Over
                && begun.1.responds(METHOD_NOT_ALLOWED, Seq::empty()),
            Route::NotFound => begun.0.phase_spec() == ServicePhase::Over && begun.1.responds(
                NOT_FOUND,
                Seq::empty(),
            ),
        },
{
    let (mut call, action) = ServiceCall::begin(path, method, index);
    match action {
        ServiceAction::ReadCounter => {
            let response = shared_counter.get();
            let action = call.decide(ServiceEvent::CounterRead(response));
            (call, action)
        },
        action => (call, action),
    }
}

/// Law: every request is answered: what is not there is not found whatever the method,
/// what is there is refused by any method that it does not know, and only the count is
/// changed, by the two methods for that.
pub proof fn law_what_is_refused(path: Seq<char>, method: Seq<char>)
    ensures
        route_of(path, method) == Route::NotFound <==> path != ""@ && path != "/"@ && path
            != "/count"@,
        (path == ""@ || path == "/"@) && method != "GET"@ ==> route_of(path, method)
            == Route::MethodNotAllowed,
        path == "/count"@ && method != "GET"@ && method != "PUT"@ && method != "POST"@ ==> route_of(
            path,
            method,
        ) == Route::MethodNotAllowed,
        route_of(path, method) == Route::IncrementCount <==> path == "/count"@ && method == "PUT"@,
        route_of(path, method) == Route::SwapCount <==> path == "/count"@ && method == "POST"@,
        route_of(path, method) == Route::ReadCount <==> path == "/count"@ && method == "GET"@,
        route_of(path, method) == Route::Index <==> (path == ""@ || path == "/"@) && method
            == "GET"@,
{
    lemma_paths_and_methods_differ();
}

/// No two of the paths that are known are the same, and no two of the methods.
proof fn lemma_paths_and_methods_differ()
    ensures
        ""@ != "/"@,
        ""@ != "/count"@,
        "/"@ != "/count"@,
        "GET"@ != "PUT"@,
        "GET"@ != "POST"@,
        "PUT"@ != "POST"@,
{
    reveal_strlit("");
    reveal_strlit("/");
    reveal_strlit("/count");
    reveal_strlit("GET");
    reveal_strlit("PUT");
    reveal_strlit("POST");
    assert(""@.len() == 0 && "/"@.len() == 1 && "/count"@.len() == 6);
    assert("GET"@[0] == 'G' && "PUT"@[0] == 'P' && "POST"@[0] == 'P');
    assert("PUT"@[1] == 'U' && "POST"@[1] == 'O');
}

/// Law: the counter is changed only where the body that was read asked for it, and by
/// what it asked for; a request for the count or for a change of it is answered only with
/// what was written down.
pub proof fn law_counter_changes_as_asked(
    phase: ServicePhase,
    event: ServiceEvent,
    action: ServiceAction,
)
    requires
        phase.awaits(event),
        phase.leads_to(event, action),
    ensures
        action matches ServiceAction::IncrementCounter(num) ==> phase
            == ServicePhase::DecodeIncrement && event == ServiceEvent::IncrementDecoded(
            IncrementCounterRequest { new: num },
        ),
        action matches ServiceAction::SwapCounter(cur) ==> phase == ServicePhase::DecodeSwap
            && event == ServiceEvent::SwapDecoded(SwapCounterRequest { new: cur }),
        action is Respond ==> (event matches ServiceEvent::Encoded(payload) && action.responds(
            OK,
            payload@,
        )),
{
}

/// Law: a request is over after at most four events, and until then there always is one
/// that is waited for.
pub proof fn law_every_request_ends(phase: ServicePhase)
    ensures
        phase.next().next().next().next() == ServicePhase::Over,
        phase != ServicePhase::Over ==> exists|event: ServiceEvent| phase.awaits(event),
{
    assert(ServicePhase::Read.awaits(ServiceEvent::CounterRead(arbitrary())));
    assert(ServicePhase::DrainIncrement.awaits(ServiceEvent::Drained(arbitrary())));
    assert(ServicePhase::DrainSwap.awaits(ServiceEvent::Drained(arbitrary())));
    assert(ServicePhase::DecodeIncrement.awaits(ServiceEvent::IncrementDecoded(arbitrary())));
    assert(ServicePhase::DecodeSwap.awaits(ServiceEvent::SwapDecoded(arbitrary())));
    assert(ServicePhase::Increment.awaits(ServiceEvent::Incremented(arbitrary())));
    assert(ServicePhase::Swap.awaits(ServiceEvent::Swapped(arbitrary())));
    assert(ServicePhase::Encode.awaits(ServiceEvent::Encoded(arbitrary())));
}

/// What a request for the count asks for.
pub enum CountRequest {
    /// To read the count.
    Get,
    /// To add that much to it.
    Put(usize),
    /// To put that value in its place.
    Post(usize),
}

impl CountRequest {
    /// The method of the request.
    pub open spec fn method(self) -> Seq<char> {
        match self {
            CountRequest::Get => "GET"@,
            CountRequest::Put(_) => "PUT"@,
            CountRequest::Post(_) => "POST"@,
        }
    }

    /// What the request is found to ask for.
    pub open spec fn route(self) -> Route {
        match self {
            CountRequest::Get => Route::ReadCount,
            CountRequest::Put(_) => Route::IncrementCount,
            CountRequest::Post(_) => Route::SwapCount,
        }
    }

    /// What the request waits for first.
    pub open spec fn first_phase(self) -> ServicePhase {
        match self {
            CountRequest::Get => ServicePhase::Read,
            CountRequest::Put(_) => ServicePhase::DrainIncrement,
            CountRequest::Post(_) => ServicePhase::DrainSwap,
        }
    }

    /// What is to be done first for the request.
    pub open spec fn first_action(self) -> ServiceAction {
        match self {
            CountRequest::Get => ServiceAction::ReadCounter,
            _ => ServiceAction::DrainBody(BODY_ROOM),
        }
    }

    /// The count that the request leaves behind, given the count that it finds.
    pub open spec fn after(self, count: usize) -> usize {
        match self {
            CountRequest::Get => count,
            CountRequest::Put(num) => CounterOp::Increment(num).after(count),
            CountRequest::Post(cur) => CounterOp::Swap(cur).after(count),
        }
    }
}

/// A request for the count that was served: what it asked for, what was to be done for it,
/// beginning with the first, and what came of each.
pub struct Exchange {
    pub asked: CountRequest,
    pub actions: Seq<ServiceAction>,
    pub events: Seq<ServiceEvent>,
}

impl Exchange {
    /// What is waited for after that many events.
    pub open spec fn phase(self, n: nat) -> ServicePhase
        decreases n,
    {
        if n == 0 {
            self.asked.first_phase()
        } else {
            self.phase((n - 1) as nat).next()
        }
    }

    /// Whether the event is what comes of the action while the counter holds `count` and
    /// nobody else changes it: the body is read as what was asked for, and the counter
    /// tells what it holds.
    pub open spec fn comes_of(self, action: ServiceAction, count: usize, event: ServiceEvent) -> bool {
        match (action, event) {
            (ServiceAction::DecodeIncrement(_), ServiceEvent::IncrementDecoded(request)) =>
                self.asked == CountRequest::Put(request.new),
            (ServiceAction::DecodeSwap(_), ServiceEvent::SwapDecoded(request)) => self.asked
                == CountRequest::Post(request.new),
            (ServiceAction::ReadCounter, ServiceEvent::CounterRead(response)) =>
                response.cur_spec() == count,
            (ServiceAction::IncrementCounter(_), ServiceEvent::Incremented(response)) =>
                response.prev_spec() == count,
            (ServiceAction::SwapCounter(cur), ServiceEvent::Swapped(response)) =>
                response.prev_spec() == count && response.cur_spec() == cur,
            _ => true,
        }
    }

    /// Whether this is how the request is served from beginning to end while the counter
    /// holds `count`.
    pub open spec fn happens(self, count: usize) -> bool {
        &&& self.actions.len() == self.events.len() + 1
        &&& self.actions[0] == self.asked.first_action()
        &&& self.phase(self.events.len()) == ServicePhase::Over
        &&& forall|i: int|
            0 <= i < self.events.len() ==> {
                &&& self.phase(i as nat).awaits(#[trigger] self.events[i])
                &&& self.phase(i as nat).leads_to(self.events[i], self.actions[i + 1])
                &&& self.comes_of(self.actions[i], count, self.events[i])
            }
    }

    /// Whether the request is answered by what is written down of `count`: as the count
    /// where it asked for that, and as the count before where it asked for a change, which
    /// is then made once and as asked for. The answer has the status code of success.
    pub open spec fn tells(self, count: usize) -> bool {
        match self.asked {
            CountRequest::Get => {
                &&& self.actions.len() == 3
                &&& self.actions[1] matches ServiceAction::EncodeGet(response)
                    && response.cur_spec() == count
                &&& self.events[1] matches ServiceEvent::Encoded(payload)
                    && self.actions[2].responds(OK, payload@)
            },
            CountRequest::Put(num) => {
                &&& self.actions.len() == 5
                &&& self.events[0] matches ServiceEvent::Drained(body) && (self.actions[1]
                    matches ServiceAction::DecodeIncrement(read) && read@ == body@)
                &&& self.actions[2] == ServiceAction::IncrementCounter(num)
                &&& self.actions[3] matches ServiceAction::EncodeIncrement(response)
                    && response.prev_spec() == count
                &&& self.events[3] matches ServiceEvent::Encoded(payload)
                    && self.actions[4].responds(OK, payload@)
            },
            CountRequest::Post(cur) => {
                &&& self.actions.len() == 5
                &&& self.events[0] matches ServiceEvent::Drained(body) && (self.actions[1]
                    matches ServiceAction::DecodeSwap(read) && read@ == body@)
                &&& self.actions[2] == ServiceAction::SwapCounter(cur)
                &&& self.actions[3] matches ServiceAction::EncodeSwap(response)
                    && response.prev_spec() == count && response.cur_spec() == cur
                &&& self.events[3] matches ServiceEvent::Encoded(payload)
                    && self.actions[4].responds(OK, payload@)
            },
        }
    }
}

/// What requests for the count asked for, where they asked for changes.
pub open spec fn changes_asked(history: Seq<Exchange>) -> Seq<CounterOp>
    decreases history.len(),
{
    if history.len() == 0 {
        Seq::empty()
    } else {
        let before = changes_asked(history.drop_last());
        match history.last().asked {
            CountRequest::Get => before,
            CountRequest::Put(num) => before.push(CounterOp::Increment(num)),
            CountRequest::Post(cur) => before.push(CounterOp::Swap(cur)),
        }
    }
}

/// Whether the requests were served one after the other, from the count `start` on, by a
/// counter that nobody else changes.
pub open spec fn served(history: Seq<Exchange>, start: usize) -> bool
    decreases history.len(),
{
    history.len() > 0 ==> {
        &&& served(history.drop_last(), start)
        &&& history.last().happens(after_all(changes_asked(history.drop_last()), start))
    }
}

/// Law: a request for the count that is served tells the count found, makes the change that
/// it asked for and no other, and is answered with success.
pub proof fn law_request_is_served(exchange: Exchange, count: usize)
    requires
        exchange.happens(count),
    ensures
        exchange.tells(count),
        route_of("/count"@, exchange.asked.method()) == exchange.asked.route(),
{
    lemma_paths_and_methods_differ();
    reveal_with_fuel(Exchange::phase, 6);
    lemma_over_stays_over(exchange, exchange.events.len());
    if exchange.events.len() > 0 {
        assert(exchange.phase(0).awaits(exchange.events[0]));
    }
    if exchange.events.len() > 1 {
        assert(exchange.phase(1).awaits(exchange.events[1]));
    }
    if exchange.events.len() > 2 {
        assert(exchange.phase(2).awaits(exchange.events[2]));
    }
    if exchange.events.len() > 3 {
        assert(exchange.phase(3).awaits(exchange.events[3]));
    }
    if exchange.events.len() > 4 {
        assert(exchange.phase(4).awaits(exchange.events[4]));
    }
}

/// Law: of requests that are served one after the other, each tells the count that those
/// before it left behind. That is the value of the last swap, or the one begun with, and
/// all additions after it together; it starts over at zero behind the largest one.
pub proof fn law_history_of_requests(history: Seq<Exchange>, start: usize)
    requires
        served(history, start),
    ensures
        forall|i: int|
            0 <= i < history.len() ==> (#[trigger] history[i]).tells(
                after_all(changes_asked(history.take(i)), start),
            ),
        ({
            let ops = changes_asked(history);
            after_all(ops, start) == (last_swapped(ops, start) + added_since_swap(ops)) % (
            usize::MAX + 1)
        }),
    decreases history.len(),
{
    law_count_after_changes(changes_asked(history), start);
    if history.len() > 0 {
        let earlier = history.drop_last();
        law_history_of_requests(earlier, start);
        law_request_is_served(history.last(), after_all(changes_asked(earlier), start));
        assert forall|i: int| 0 <= i < history.len() implies (#[trigger] history[i]).tells(
            after_all(changes_asked(history.take(i)), start),
        ) by {
            if i < earlier.len() {
                assert(earlier[i] == history[i]);
                assert(earlier.take(i) =~= history.take(i));
            } else {
                assert(history.take(i) =~= earlier);
            }
        }
    }
}

/// Law: a request for the count leaves behind what it asked for, and one that only reads
/// leaves the count as it is.
pub proof fn law_request_leaves_count(history: Seq<Exchange>, exchange: Exchange, start: usize)
    ensures
        after_all(changes_asked(history.push(exchange)), start) == exchange.asked.after(
            after_all(changes_asked(history), start),
        ),
{
    let before = changes_asked(history);
    assert(history.push(exchange).drop_last() =~= history);
    match exchange.asked {
        CountRequest::Get => {},
        CountRequest::Put(num) => {
            assert(before.push(CounterOp::Increment(num)).drop_last() =~= before);
        },
        CountRequest::Post(cur) => {
            assert(before.push(CounterOp::Swap(cur)).drop_last() =~= before);
        },
    }
}

proof fn lemma_over_stays_over(exchange: Exchange, n: nat)
    ensures
        n >= 4 ==> exchange.phase(n) == ServicePhase::Over,
    decreases n,
{
    reveal_with_fuel(Exchange::phase, 6);
    if n > 4 {
        lemma_over_stays_over(exchange, (n - 1) as nat);
    }
}

/// Law: nothing is lost or changed on the way through the service: every byte of the body
/// that was collected is read, and as what the method says; the amount or the value read is
/// what the counter is changed by; what the counter tells is written down; and every byte
/// written down is the answer, with the status code of success and no header field.
pub proof fn law_nothing_is_lost_on_the_way(
    phase: ServicePhase,
    event: ServiceEvent,
    action: ServiceAction,
)
    requires
        phase.awaits(event),
        phase.leads_to(event, action),
    ensures
        match event {
            ServiceEvent::Drained(body) => {
                &&& phase == ServicePhase::DrainIncrement || phase == ServicePhase::DrainSwap
                &&& phase == ServicePhase::DrainIncrement ==> (action
                    matches ServiceAction::DecodeIncrement(read) && read@ == body@)
                &&& phase == ServicePhase::DrainSwap ==> (action
                    matches ServiceAction::DecodeSwap(read) && read@ == body@)
            },
            ServiceEvent::IncrementDecoded(request) => action
                matches ServiceAction::IncrementCounter(num) && num == request.new,
            ServiceEvent::SwapDecoded(request) => action matches ServiceAction::SwapCounter(cur)
                && cur == request.new,
            ServiceEvent::CounterRead(found) => action matches ServiceAction::EncodeGet(told)
                && told.cur_spec() == found.cur_spec(),
            ServiceEvent::Incremented(found) => action
                matches ServiceAction::EncodeIncrement(told) && told.prev_spec()
                == found.prev_spec(),
            ServiceEvent::Swapped(found) => action matches ServiceAction::EncodeSwap(told)
                && told.prev_spec() == found.prev_spec() && told.cur_spec() == found.cur_spec(),
            ServiceEvent::Encoded(payload) => action matches ServiceAction::Respond(response)
                && response_status(response) == 200 && response_content(response) == payload@
                && response_fields(response).dom() =~= Set::empty(),
        },
{
}

/// Law: along a request that is served, the bytes that are read are those of the collected
/// body, all of them and as they came, and the answer is what was written down.
pub proof fn law_body_is_read_whole(exchange: Exchange, count: usize)
    requires
        exchange.happens(count),
        !(exchange.asked is Get),
    ensures
        exchange.events[0] is Drained,
        exchange.asked is Put ==> (exchange.actions[1] matches ServiceAction::DecodeIncrement(read)
            && read@ == exchange.events[0]->Drained_0@),
        exchange.asked is Post ==> (exchange.actions[1] matches ServiceAction::DecodeSwap(read)
            && read@ == exchange.events[0]->Drained_0@),
        exchange.events.last() is Encoded,
        exchange.actions.last() matches ServiceAction::Respond(response) && response_content(
            response,
        ) == exchange.events.last()->Encoded_0@,
{
    law_request_is_served(exchange, count);
}

/// Law: to respond with a status code and a body is to send a response that has that status
/// code, every byte of that body, no other byte and no header field.
pub proof fn law_what_is_responded(action: ServiceAction, status: u16, content: Seq<u8>)
    ensures
        action.responds(status, content) <==> (action matches ServiceAction::Respond(response)
            && response_status(response) == status && response_content(response) == content
            && response_fields(response) == Map::<Seq<char>, Seq<u8>>::empty()),
{
}

/// Law: whatever the body is, whatever was read out of it, whatever the counter told and
/// whatever was written down, it is waited for exactly when its turn comes: the body, its
/// reading and the change in this order where a change is asked for, the count where that
/// is, and then the writing down.
pub proof fn law_what_a_request_waits_for(phase: ServicePhase, event: ServiceEvent)
    ensures
        phase.awaits(event) <==> match event {
            ServiceEvent::Drained(_) => phase is DrainIncrement || phase is DrainSwap,
            ServiceEvent::IncrementDecoded(_) => phase is DecodeIncrement,
            ServiceEvent::SwapDecoded(_) => phase is DecodeSwap,
            ServiceEvent::CounterRead(_) => phase is Read,
            ServiceEvent::Incremented(_) => phase is Increment,
            ServiceEvent::Swapped(_) => phase is Swap,
            ServiceEvent::Encoded(_) => phase is Encode,
        },
        phase.awaits(event) ==> match event {
            ServiceEvent::Drained(_) => phase is DrainIncrement && phase.next() is DecodeIncrement
                || phase is DrainSwap && phase.next() is DecodeSwap,
            ServiceEvent::IncrementDecoded(_) => phase.next() is Increment,
            ServiceEvent::SwapDecoded(_) => phase.next() is Swap,
            ServiceEvent::CounterRead(_) => phase.next() is Encode,
            ServiceEvent::Incremented(_) => phase.next() is Encode,
            ServiceEvent::Swapped(_) => phase.next() is Encode,
            ServiceEvent::Encoded(_) => phase.next() is Over,
        },
{
}

} // verus!
