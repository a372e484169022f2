//! A full run against a server: the index is fetched, the count read, incremented and
//! swapped, and each exchange timed. What is asked and what is made of the answers is
//! decided here; whoever drives the run sends the requests, turns values into JSON and
//! back, and hands the outcome in. A series is so many runs one after the other.

use crate::body::{byte_body, empty_body};
use crate::counter::{after_all, CounterOp, IncrementCounterRequest, SwapCounterRequest};
use crate::message::{
    ascii_bytes, build_request, build_request_with_field, is_field_name, is_method, no_fields,
    parsed_uri, request_content, request_fields, request_method, request_uri,
};
use crate::service::{
    changes_asked, law_history_of_requests, law_request_leaves_count, served, CountRequest,
    Exchange,
};
use crate::statistics::{Duration, SingleRunStatistics};
use crate::text::bytes_eq;
use bytes::Bytes;
use http_body_util::Full;
use hyper::Request;
use vstd::prelude::*;
use vstd::slice::slice_to_vec;

verus! {

/// How much a run adds to the count.
pub const INCREMENT: usize = 15;

/// The count that a run leaves behind.
pub const SWAPPED: usize = 155;

/// Why a run came to nothing.
#[derive(Copy, Clone, Debug, PartialEq, Eq, Structural)]
pub enum RunError {
    BuildGet,
    GetIndex,
    UnexpectedIndex,
    BuildGetCount,
    GetCount,
    DecodeCount,
    CreatePut,
    BuildPut,
    PutCount,
    CreatePost,
    BuildPost,
    PostCount,
}

impl RunError {
    /// What is told of the error.
    pub open spec fn text(self) -> Seq<char> {
        match self {
            RunError::BuildGet => "Failed to build get"@,
            RunError::GetIndex => "Get index failed"@,
            RunError::UnexpectedIndex => "Got unexpected index html response"@,
            RunError::BuildGetCount => "Failed to build get count"@,
            RunError::GetCount => "Failed to get count"@,
            RunError::DecodeCount => "Failed to serialize get count"@,
            RunError::CreatePut => "Failed to create put request"@,
            RunError::BuildPut => "Failed to build put request"@,
            RunError::PutCount => "Failed to put count"@,
            RunError::CreatePost => "Failed to create post request"@,
            RunError::BuildPost => "Failed to build put request"@,
            RunError::PostCount => "Failed to post count"@,
        }
    }

    /// What is told of the error.
    pub fn message(self) -> (message: &'static str)
        ensures
            message@ == self.text(),
    {
        match self {
            RunError::BuildGet => "Failed to build get",
            RunError::GetIndex => "Get index failed",
            RunError::UnexpectedIndex => "Got unexpected index html response",
            RunError::BuildGetCount => "Failed to build get count",
            RunError::GetCount => "Failed to get count",
            RunError::DecodeCount => "Failed to serialize get count",
            RunError::CreatePut => "Failed to create put request",
            RunError::BuildPut => "Failed to build put request",
            RunError::PutCount => "Failed to put count",
            RunError::CreatePost => "Failed to create post request",
            RunError::BuildPost => "Failed to build put request",
            RunError::PostCount => "Failed to post count",
        }
    }
}

/// What is to be done next for a run.
pub enum RunAction {
    /// Send this request, and time the answer.
    Send(Request<Full<Bytes>>),
    /// Read these bytes as the count.
    DecodeGet(Vec<u8>),
    /// Write this request down.
    EncodeIncrement(IncrementCounterRequest),
    /// Read these bytes as the answer to an addition.
    DecodeIncrement(Vec<u8>),
    /// Write this request down.
    EncodeSwap(SwapCounterRequest),
    /// Read these bytes as the answer to a swap.
    DecodeSwap(Vec<u8>),
    /// The run is over, with these times.
    Finish(SingleRunStatistics),
    /// The run has come to nothing.
    Fail(RunError),
}

/// What a [`RunAction`] amounts to.
#[verifier::ext_equal]
pub enum ActionModel {
    Send {
        method: Seq<char>,
        uri: Seq<char>,
        fields: Map<Seq<char>, Seq<u8>>,
        content: Seq<u8>,
    },
    DecodeGet(Seq<u8>),
    EncodeIncrement(usize),
    DecodeIncrement(Seq<u8>),
    EncodeSwap(usize),
    DecodeSwap(Seq<u8>),
    Finish(SingleRunStatistics),
    Fail(RunError),
}

impl View for RunAction {
    type V = ActionModel;

    open spec fn view(&self) -> ActionModel {
        match self {
            RunAction::Send(request) => ActionModel::Send {
                method: request_method(*request),
                uri: request_uri(*request),
                fields: request_fields(*request),
                content: request_content(*request),
            },
            RunAction::DecodeGet(body) => ActionModel::DecodeGet(body@),
            RunAction::EncodeIncrement(request) => ActionModel::EncodeIncrement(request.new),
            RunAction::DecodeIncrement(body) => ActionModel::DecodeIncrement(body@),
            RunAction::EncodeSwap(request) => ActionModel::EncodeSwap(request.new),
            RunAction::DecodeSwap(body) => ActionModel::DecodeSwap(body@),
            RunAction::Finish(statistics) => ActionModel::Finish(*statistics),
            RunAction::Fail(error) => ActionModel::Fail(*error),
        }
    }
}

/// What has been done for a run.
pub enum RunEvent {
    /// The run begins.
    Begin,
    /// The answer came after that time, with this body.
    Replied(Duration, Vec<u8>),
    /// The request is written down.
    Encoded(Vec<u8>),
    /// The answer could be read.
    Decoded,
    /// What was to be done failed.
    Failed,
}

/// What a run waits for, with the times that were measured so far.
#[derive(Copy, Clone, Debug)]
pub enum RunPhase {
    /// To begin.
    Start,
    /// The index.
    Index,
    /// The count.
    Count { get_index_rtt: Duration },
    /// The reading of the count.
    CountDecode { get_index_rtt: Duration, get_count_rtt: Duration },
    /// The writing down of the addition.
    PutEncode { get_index_rtt: Duration, get_count_rtt: Duration },
    /// The answer to the addition.
    Put { get_index_rtt: Duration, get_count_rtt: Duration },
    /// The reading of that answer.
    PutDecode { get_index_rtt: Duration, get_count_rtt: Duration, put_count_rtt: Duration },
    /// The writing down of the swap.
    PostEncode { get_index_rtt: Duration, get_count_rtt: Duration, put_count_rtt: Duration },
    /// The answer to the swap.
    Post { get_index_rtt: Duration, get_count_rtt: Duration, put_count_rtt: Duration },
    /// The reading of that answer.
    PostDecode { statistics: SingleRunStatistics },
    /// Nothing: the run is over.
    Over,
}

/// What a run amounts to.
#[verifier::ext_equal]
pub struct RunModel {
    pub base_uri: Seq<char>,
    pub index: Seq<u8>,
    pub phase: RunPhase,
}

/// The action that sends a request, or fails where the target is none.
pub open spec fn sends(
    method: Seq<char>,
    uri: Seq<char>,
    fields: Map<Seq<char>, Seq<u8>>,
    content: Seq<u8>,
    error: RunError,
) -> ActionModel {
    match parsed_uri(uri) {
        Some(uri) => ActionModel::Send { method, uri, fields, content },
        None => ActionModel::Fail(error),
    }
}

/// The header field of a body in JSON.
pub open spec fn json_fields() -> Map<Seq<char>, Seq<u8>> {
    no_fields().insert("content-type"@, ascii_bytes("application/json"@))
}

impl RunModel {
    /// Where the count is.
    pub open spec fn count_uri(self) -> Seq<char> {
        self.base_uri + "/count"@
    }

    /// Whether the event is one that is waited for. The answers to the addition and to the
    /// swap are relied on to be readable.
    pub open spec fn awaits(self, event: RunEvent) -> bool {
        match self.phase {
            RunPhase::Start => event is Begin,
            RunPhase::Index => event is Replied || event is Failed,
            RunPhase::Count { .. } => event is Replied || event is Failed,
            RunPhase::CountDecode { .. } => event is Decoded || event is Failed,
            RunPhase::PutEncode { .. } => event is Encoded || event is Failed,
            RunPhase::Put { .. } => event is Replied || event is Failed,
            RunPhase::PutDecode { .. } => event is Decoded,
            RunPhase::PostEncode { .. } => event is Encoded || event is Failed,
            RunPhase::Post { .. } => event is Replied || event is Failed,
            RunPhase::PostDecode { .. } => event is Decoded,
            RunPhase::Over => false,
        }
    }

    /// What is to be done after that event.
    pub open spec fn action(self, event: RunEvent) -> ActionModel {
        match (self.phase, event) {
            (RunPhase::Start, _) => sends(
                "GET"@,
                self.base_uri,
                no_fields(),
                Seq::empty(),
                RunError::BuildGet,
            ),
            (RunPhase::Index, RunEvent::Replied(_, body)) => if body@ == self.index {
                sends(
                    "GET"@,
                    self.count_uri(),
                    no_fields(),
                    Seq::empty(),
                    RunError::BuildGetCount,
                )
            } else {
                ActionModel::Fail(RunError::UnexpectedIndex)
            },
            (RunPhase::Index, _) => ActionModel::Fail(RunError::GetIndex),
            (RunPhase::Count { .. }, RunEvent::Replied(_, body)) => ActionModel::DecodeGet(body@),
            (RunPhase::Count { .. }, _) => ActionModel::Fail(RunError::GetCount),
            (RunPhase::CountDecode { .. }, RunEvent::Decoded) => ActionModel::EncodeIncrement(
                INCREMENT,
            ),
            (RunPhase::CountDecode { .. }, _) => ActionModel::Fail(RunError::DecodeCount),
            (RunPhase::PutEncode { .. }, RunEvent::Encoded(body)) => sends(
                "PUT"@,
                self.count_uri(),
                json_fields(),
                body@,
                RunError::BuildPut,
            ),
            (RunPhase::PutEncode { .. }, _) => ActionModel::Fail(RunError::CreatePut),
            (RunPhase::Put { .. }, RunEvent::Replied(_, body)) => ActionModel::DecodeIncrement(
                body@,
            ),
            (RunPhase::Put { .. }, _) => ActionModel::Fail(RunError::PutCount),
            (RunPhase::PutDecode { .. }, _) => ActionModel::EncodeSwap(SWAPPED),
            (RunPhase::PostEncode { .. }, RunEvent::Encoded(body)) => sends(
                "POST"@,
                self.count_uri(),
                json_fields(),
                body@,
                RunError::BuildPost,
            ),
            (RunPhase::PostEncode { .. }, _) => ActionModel::Fail(RunError::CreatePost),
            (RunPhase::Post { .. }, RunEvent::Replied(_, body)) => ActionModel::DecodeSwap(body@),
            (RunPhase::Post { .. }, _) => ActionModel::Fail(RunError::PostCount),
            (RunPhase::PostDecode { statistics }, _) => ActionModel::Finish(statistics),
            (RunPhase::Over, _) => arbitrary(),
        }
    }

    /// The run after that event: over where it finished or failed, and else one phase on.
    pub open spec fn next(self, event: RunEvent) -> RunModel {
        let phase = match (self.phase, event) {
            (RunPhase::Start, _) => RunPhase::Index,
            (RunPhase::Index, RunEvent::Replied(get_index_rtt, _)) => RunPhase::Count {
                get_index_rtt,
            },
            (RunPhase::Count { get_index_rtt }, RunEvent::Replied(get_count_rtt, _)) =>
                RunPhase::CountDecode { get_index_rtt, get_count_rtt },
            (RunPhase::CountDecode { get_index_rtt, get_count_rtt }, RunEvent::Decoded) =>
                RunPhase::PutEncode { get_index_rtt, get_count_rtt },
            (RunPhase::PutEncode { get_index_rtt, get_count_rtt }, RunEvent::Encoded(_)) =>
                RunPhase::Put { get_index_rtt, get_count_rtt },
            (
                RunPhase::Put { get_index_rtt, get_count_rtt },
                RunEvent::Replied(put_count_rtt, _),
            ) => RunPhase::PutDecode { get_index_rtt, get_count_rtt, put_count_rtt },
            (
                RunPhase::PutDecode { get_index_rtt, get_count_rtt, put_count_rtt },
                RunEvent::Decoded,
            ) => RunPhase::PostEncode { get_index_rtt, get_count_rtt, put_count_rtt },
            (
                RunPhase::PostEncode { get_index_rtt, get_count_rtt, put_count_rtt },
                RunEvent::Encoded(_),
            ) => RunPhase::Post { get_index_rtt, get_count_rtt, put_count_rtt },
            (
                RunPhase::Post { get_index_rtt, get_count_rtt, put_count_rtt },
                RunEvent::Replied(post_count_rtt, _),
            ) => RunPhase::PostDecode {
                statistics: SingleRunStatistics {
                    get_index_rtt,
                    get_count_rtt,
                    put_count_rtt,
                    post_count_rtt,
                },
            },
            _ => RunPhase::Over,
        };
        RunModel {
            phase: if self.action(event) is Fail {
                RunPhase::Over
            } else {
                phase
            },
            ..self
        }
    }
}

/// A full run that is under way.
pub struct FullRun {
    base_uri: String,
    index: Vec<u8>,
    phase: RunPhase,
}

impl View for FullRun {
    type V = RunModel;

    closed spec fn view(&self) -> RunModel {
        RunModel { base_uri: self.base_uri@, index: self.index@, phase: self.phase }
    }
}

impl FullRun {
    /// A run against the server at `base_uri`, which is to serve `index` as its index.
    pub fn new(base_uri: &str, index: &[u8]) -> (run: FullRun)
        ensures
            run@ == (RunModel { base_uri: base_uri@, index: index@, phase: RunPhase::Start }),
    {
        FullRun {
            base_uri: base_uri.to_owned(),
            index: slice_to_vec(index),
            phase: RunPhase::Start,
        }
    }

    /// What the run waits for.
    pub fn phase(&self) -> (phase: RunPhase)
        ensures
            phase == self@.phase,
    {
        self.phase
    }

    /// Where the count is.
    fn count_uri(&self) -> (uri: String)
        ensures
            uri@ == self@.count_uri(),
    {
        let mut uri = self.base_uri.clone();
        uri.append("/count");
        uri
    }

    /// The action that asks for a target.
    fn get(uri: &str, error: RunError) -> (action: RunAction)
        ensures
            action@ == sends("GET"@, uri@, no_fields(), Seq::empty(), error),
    {
        match build_request("GET", uri, empty_body()) {
            Ok(request) => RunAction::Send(request),
            Err(_) => RunAction::Fail(error),
        }
    }

    /// The action that sends a body in JSON to a target.
    fn send_json(method: &str, uri: &str, body: Vec<u8>, error: RunError) -> (action: RunAction)
        requires
            is_method(method@),
        ensures
            action@ == sends(method@, uri@, json_fields(), body@, error),
    {
        let name: &str = "content-type";
        let value: &str = "application/json";
        proof {
            reveal_strlit("content-type");
            reveal_strlit("application/json");
            assert(is_field_name(name@));
        }
        match build_request_with_field(method, uri, name, value, byte_body(body)) {
            Ok(request) => RunAction::Send(request),
            Err(_) => RunAction::Fail(error),
        }
    }

    /// Goes on with what was waited for.
    pub fn advance(&mut self, event: RunEvent) -> (action: RunAction)
        requires
            old(self)@.awaits(event),
        ensures
            action@ == old(self)@.action(event),
            final(self)@ == old(self)@.next(event),
            match (old(self)@.phase, event) {
                (RunPhase::Index, RunEvent::Replied(_, body)) => body@ == old(self)@.index <==> !(
                action matches RunAction::Fail(error) && error == RunError::UnexpectedIndex),
                (RunPhase::Count { .. }, RunEvent::Replied(_, body)) => action
                    matches RunAction::DecodeGet(read) && read@ == body@,
                (RunPhase::Put { .. }, RunEvent::Replied(_, body)) => action
                    matches RunAction::DecodeIncrement(read) && read@ == body@,
                (RunPhase::Post { .. }, RunEvent::Replied(_, body)) => action
                    matches RunAction::DecodeSwap(read) && read@ == body@,
                (RunPhase::PutEncode { .. }, RunEvent::Encoded(body)) => action
                    matches RunAction::Send(request) ==> request_content(request) == body@,
                (RunPhase::PostEncode { .. }, RunEvent::Encoded(body)) => action
                    matches RunAction::Send(request) ==> request_content(request) == body@,
                _ => true,
            },
    {
        let (phase, action) = match (self.phase, event) {
            (RunPhase::Start, _) => (
                RunPhase::Index,
                Self::get(self.base_uri.as_str(), RunError::BuildGet),
            ),
            (RunPhase::Index, RunEvent::Replied(get_index_rtt, body)) => if bytes_eq(
                body.as_slice(),
                self.index.as_slice(),
            ) {
                (
                    RunPhase::Count { get_index_rtt },
                    Self::get(self.count_uri().as_str(), RunError::BuildGetCount),
                )
            } else {
                (RunPhase::Over, RunAction::Fail(RunError::UnexpectedIndex))
            },
            (RunPhase::Index, _) => (RunPhase::Over, RunAction::Fail(RunError::GetIndex)),
            (RunPhase::Count { get_index_rtt }, RunEvent::Replied(get_count_rtt, body)) => (
                RunPhase::CountDecode { get_index_rtt, get_count_rtt },
                RunAction::DecodeGet(body),
            ),
            (RunPhase::Count { .. }, _) => (RunPhase::Over, RunAction::Fail(RunError::GetCount)),
            (RunPhase::CountDecode { get_index_rtt, get_count_rtt }, RunEvent::Decoded) => (
                RunPhase::PutEncode { get_index_rtt, get_count_rtt },
                RunAction::EncodeIncrement(IncrementCounterRequest::new(INCREMENT)),
            ),
            (RunPhase::CountDecode { .. }, _) => (
                RunPhase::Over,
                RunAction::Fail(RunError::DecodeCount),
            ),
            (RunPhase::PutEncode { get_index_rtt, get_count_rtt }, RunEvent::Encoded(body)) => (
                RunPhase::Put { get_index_rtt, get_count_rtt },
                Self::send_json("PUT", self.count_uri().as_str(), body, RunError::BuildPut),
            ),
            (RunPhase::PutEncode { .. }, _) => (
                RunPhase::Over,
                RunAction::Fail(RunError::CreatePut),
            ),
            (
                RunPhase::Put { get_index_rtt, get_count_rtt },
                RunEvent::Replied(put_count_rtt, body),
            ) => (
                RunPhase::PutDecode { get_index_rtt, get_count_rtt, put_count_rtt },
                RunAction::DecodeIncrement(body),
            ),
            (RunPhase::Put { .. }, _) => (RunPhase::Over, RunAction::Fail(RunError::PutCount)),
            (RunPhase::PutDecode { get_index_rtt, get_count_rtt, put_count_rtt }, _) => (
                RunPhase::PostEncode { get_index_rtt, get_count_rtt, put_count_rtt },
                RunAction::EncodeSwap(SwapCounterRequest::new(SWAPPED)),
            ),
            (
                RunPhase::PostEncode { get_index_rtt, get_count_rtt, put_count_rtt },
                RunEvent::Encoded(body),
            ) => (
                RunPhase::Post { get_index_rtt, get_count_rtt, put_count_rtt },
                Self::send_json("POST", self.count_uri().as_str(), body, RunError::BuildPost),
            ),
            (RunPhase::PostEncode { .. }, _) => (
                RunPhase::Over,
                RunAction::Fail(RunError::CreatePost),
            ),
            (
                RunPhase::Post { get_index_rtt, get_count_rtt, put_count_rtt },
                RunEvent::Replied(post_count_rtt, body),
            ) => (
                RunPhase::PostDecode {
                    statistics: SingleRunStatistics {
                        get_index_rtt,
                        get_count_rtt,
                        put_count_rtt,
                        post_count_rtt,
                    },
                },
                RunAction::DecodeSwap(body),
            ),
            (RunPhase::Post { .. }, _) => (RunPhase::Over, RunAction::Fail(RunError::PostCount)),
            (RunPhase::PostDecode { statistics }, _) => (
                RunPhase::Over,
                RunAction::Finish(statistics),
            ),
            (RunPhase::Over, _) => vstd::pervasive::unreached(),
        };
        self.phase = match &action {
            RunAction::Fail(_) => RunPhase::Over,
            _ => phase,
        };
        action
    }
}

/// What is to be done next for a series of runs.
pub enum SeriesStep {
    /// Make another run.
    RunNext,
    /// The series is over, with the times of its runs in order.
    Finish(Vec<SingleRunStatistics>),
    /// A run came to nothing, and so does the series.
    Fail,
}

/// A series of runs, one after the other.
pub struct RunSeries {
    left: usize,
    results: Vec<SingleRunStatistics>,
}

impl RunSeries {
    /// How many runs are still to be made.
    pub closed spec fn left_spec(&self) -> nat {
        self.left as nat
    }

    /// The times of the runs made so far, in order.
    pub closed spec fn results_spec(&self) -> Seq<SingleRunStatistics> {
        self.results@
    }

    /// A series of `num_tests` runs, and what is to be done first.
    pub fn run_sequential(num_tests: usize) -> (begun: (RunSeries, SeriesStep))
        ensures
            begun.0.left_spec() == num_tests,
            begun.0.results_spec() == Seq::<SingleRunStatistics>::empty(),
            if num_tests > 0 {
                begun.1 is RunNext
            } else {
                begun.1 matches SeriesStep::Finish(results) && results@.len() == 0
            },
    {
        let step = if num_tests > 0 {
            SeriesStep::RunNext
        } else {
            SeriesStep::Finish(Vec::new())
        };
        (RunSeries { left: num_tests, results: Vec::new() }, step)
    }

    /// Goes on after a run: with its times, or with none where it came to nothing. The
    /// first run that comes to nothing ends the series.
    pub fn advance(&mut self, outcome: Option<SingleRunStatistics>) -> (next: SeriesStep)
        requires
            old(self).left_spec() > 0,
        ensures
            match outcome {
                None => next is Fail && final(self).left_spec() == 0,
                Some(statistics) => {
                    let made = old(self).results_spec().push(statistics);
                    &&& final(self).left_spec() == old(self).left_spec() - 1
                    &&& if old(self).left_spec() > 1 {
                        next is RunNext && final(self).results_spec() == made
                    } else {
                        next matches SeriesStep::Finish(results) && results@ == made
                    }
                },
            },
    {
        match outcome {
            None => {
                self.left = 0;
                SeriesStep::Fail
            },
            Some(statistics) => {
                self.left = self.left - 1;
                self.results.push(statistics);
                if self.left > 0 {
                    SeriesStep::RunNext
                } else {
                    let mut results: Vec<SingleRunStatistics> = Vec::new();
                    std::mem::swap(&mut results, &mut self.results);
                    SeriesStep::Finish(results)
                }
            },
        }
    }
}

impl RunModel {
    /// The run after all events, one after the other.
    pub open spec fn after(self, events: Seq<RunEvent>) -> RunModel
        decreases events.len(),
    {
        if events.len() == 0 {
            self
        } else {
            self.after(events.drop_last()).next(events.last())
        }
    }

    /// Whether each event is waited for when its turn comes.
    pub open spec fn awaits_all(self, events: Seq<RunEvent>) -> bool
        decreases events.len(),
    {
        if events.len() == 0 {
            true
        } else {
            self.awaits_all(events.drop_last()) && self.after(events.drop_last()).awaits(
                events.last(),
            )
        }
    }

    /// What is to be done after each of the events.
    pub open spec fn actions(self, events: Seq<RunEvent>) -> Seq<ActionModel> {
        Seq::new(events.len(), |i: int| self.after(events.take(i)).action(events[i]))
    }

    /// Whether the events are those of a run that ends well.
    pub open spec fn finishes(self, events: Seq<RunEvent>) -> bool {
        &&& events.len() > 0
        &&& self.awaits_all(events)
        &&& self.actions(events).last() is Finish
    }

    /// At most how many events are still to come.
    pub open spec fn events_left(self) -> nat {
        match self.phase {
            RunPhase::Start => 10,
            RunPhase::Index => 9,
            RunPhase::Count { .. } => 8,
            RunPhase::CountDecode { .. } => 7,
            RunPhase::PutEncode { .. } => 6,
            RunPhase::Put { .. } => 5,
            RunPhase::PutDecode { .. } => 4,
            RunPhase::PostEncode { .. } => 3,
            RunPhase::Post { .. } => 2,
            RunPhase::PostDecode { .. } => 1,
            RunPhase::Over => 0,
        }
    }

    /// A run that has not begun.
    pub open spec fn fresh(base_uri: Seq<char>, index: Seq<u8>) -> RunModel {
        RunModel { base_uri, index, phase: RunPhase::Start }
    }
}

/// The events of a run in which nothing fails, with the answers and their times.
pub open spec fn smooth_events(
    statistics: SingleRunStatistics,
    index: Vec<u8>,
    count: Vec<u8>,
    put_body: Vec<u8>,
    put_answer: Vec<u8>,
    post_body: Vec<u8>,
    post_answer: Vec<u8>,
) -> Seq<RunEvent> {
    seq![
        RunEvent::Begin,
        RunEvent::Replied(statistics.get_index_rtt, index),
        RunEvent::Replied(statistics.get_count_rtt, count),
        RunEvent::Decoded,
        RunEvent::Encoded(put_body),
        RunEvent::Replied(statistics.put_count_rtt, put_answer),
        RunEvent::Decoded,
        RunEvent::Encoded(post_body),
        RunEvent::Replied(statistics.post_count_rtt, post_answer),
        RunEvent::Decoded,
    ]
}

/// Law: a run in which nothing fails asks for the index and for the count, sends the
/// addition and the swap, in that order, and tells the time of each of the four exchanges
/// under its name.
pub proof fn law_smooth_run(
    base_uri: Seq<char>,
    statistics: SingleRunStatistics,
    index: Vec<u8>,
    count: Vec<u8>,
    put_body: Vec<u8>,
    put_answer: Vec<u8>,
    post_body: Vec<u8>,
    post_answer: Vec<u8>,
)
    requires
        parsed_uri(base_uri) is Some,
        parsed_uri(base_uri + "/count"@) is Some,
    ensures
        ({
            let run = RunModel::fresh(base_uri, index@);
            let events = smooth_events(
                statistics,
                index,
                count,
                put_body,
                put_answer,
                post_body,
                post_answer,
            );
            let count_uri = parsed_uri(base_uri + "/count"@)->0;
            &&& run.awaits_all(events)
            &&& run.after(events.take(0)).action(events[0]) == ActionModel::Send {
                method: "GET"@,
                uri: parsed_uri(base_uri)->0,
                fields: no_fields(),
                content: Seq::empty(),
            }
            &&& run.after(events.take(1)).action(events[1]) == ActionModel::Send {
                method: "GET"@,
                uri: count_uri,
                fields: no_fields(),
                content: Seq::empty(),
            }
            &&& run.after(events.take(2)).action(events[2]) == ActionModel::DecodeGet(count@)
            &&& run.after(events.take(3)).action(events[3]) == ActionModel::EncodeIncrement(15)
            &&& run.after(events.take(5)).action(events[5]) == ActionModel::DecodeIncrement(
                put_answer@,
            )
            &&& run.after(events.take(6)).action(events[6]) == ActionModel::EncodeSwap(155)
            &&& run.after(events.take(8)).action(events[8]) == ActionModel::DecodeSwap(post_answer@)
            &&& run.after(events.take(4)).action(events[4]) == ActionModel::Send {
                method: "PUT"@,
                uri: count_uri,
                fields: json_fields(),
                content: put_body@,
            }
            &&& run.after(events.take(7)).action(events[7]) == ActionModel::Send {
                method: "POST"@,
                uri: count_uri,
                fields: json_fields(),
                content: post_body@,
            }
            &&& run.after(events.take(9)).action(events[9]) == ActionModel::Finish(statistics)
            &&& run.after(events).phase == RunPhase::Over
        }),
{
    let run = RunModel::fresh(base_uri, index@);
    let events = smooth_events(
        statistics,
        index,
        count,
        put_body,
        put_answer,
        post_body,
        post_answer,
    );
    lemma_unfold_run(run, events, 0);
    lemma_unfold_run(run, events, 1);
    lemma_unfold_run(run, events, 2);
    lemma_unfold_run(run, events, 3);
    lemma_unfold_run(run, events, 4);
    lemma_unfold_run(run, events, 5);
    lemma_unfold_run(run, events, 6);
    lemma_unfold_run(run, events, 7);
    lemma_unfold_run(run, events, 8);
    lemma_unfold_run(run, events, 9);
    assert(events.take(0) =~= Seq::empty());
    assert(events.take(10) =~= events);
}

proof fn lemma_unfold_run(run: RunModel, events: Seq<RunEvent>, n: int)
    requires
        0 <= n < events.len(),
    ensures
        run.after(events.take(n + 1)) == run.after(events.take(n)).next(events[n]),
        run.awaits_all(events.take(n + 1)) == (run.awaits_all(events.take(n)) && run.after(
            events.take(n),
        ).awaits(events[n])),
{
    assert(events.take(n + 1).drop_last() =~= events.take(n));
    assert(events.take(n + 1).last() == events[n]);
}

/// Law: every event that is waited for brings a run nearer to its end, and a run that has
/// failed or finished waits for nothing.
pub proof fn law_every_run_ends(run: RunModel, event: RunEvent)
    requires
        run.awaits(event),
    ensures
        run.next(event).events_left() < run.events_left(),
        run.action(event) is Fail || run.action(event) is Finish ==> run.next(event).phase
            == RunPhase::Over,
        forall|other: RunEvent| run.next(event).phase == RunPhase::Over ==> !run.next(event).awaits(
            other,
        ),
{
}

/// Law: a run that ends well has asked for the index and for the count, and has sent the
/// addition and the swap, in that order; the index was the one expected, and the times are
/// those of the four exchanges.
pub proof fn law_finished_run(base_uri: Seq<char>, index: Seq<u8>, events: Seq<RunEvent>)
    requires
        RunModel::fresh(base_uri, index).finishes(events),
    ensures
        ({
            let actions = RunModel::fresh(base_uri, index).actions(events);
            let count_uri = base_uri + "/count"@;
            &&& events.len() == 10
            &&& parsed_uri(base_uri) is Some
            &&& parsed_uri(count_uri) is Some
            &&& actions[0] == ActionModel::Send {
                method: "GET"@,
                uri: parsed_uri(base_uri)->0,
                fields: no_fields(),
                content: Seq::empty(),
            }
            &&& events[1] matches RunEvent::Replied(get_index_rtt, page)
            &&& page@ == index
            &&& actions[1] == ActionModel::Send {
                method: "GET"@,
                uri: parsed_uri(count_uri)->0,
                fields: no_fields(),
                content: Seq::empty(),
            }
            &&& events[2] matches RunEvent::Replied(get_count_rtt, count)
            &&& actions[2] == ActionModel::DecodeGet(count@)
            &&& actions[3] == ActionModel::EncodeIncrement(INCREMENT)
            &&& events[4] matches RunEvent::Encoded(put_body)
            &&& actions[4] == ActionModel::Send {
                method: "PUT"@,
                uri: parsed_uri(count_uri)->0,
                fields: json_fields(),
                content: put_body@,
            }
            &&& events[5] matches RunEvent::Replied(put_count_rtt, put_answer)
            &&& actions[5] == ActionModel::DecodeIncrement(put_answer@)
            &&& actions[6] == ActionModel::EncodeSwap(SWAPPED)
            &&& events[7] matches RunEvent::Encoded(post_body)
            &&& actions[7] == ActionModel::Send {
                method: "POST"@,
                uri: parsed_uri(count_uri)->0,
                fields: json_fields(),
                content: post_body@,
            }
            &&& events[8] matches RunEvent::Replied(post_count_rtt, post_answer)
            &&& actions[8] == ActionModel::DecodeSwap(post_answer@)
            &&& actions[9] == ActionModel::Finish(
                SingleRunStatistics {
                    get_index_rtt,
                    get_count_rtt,
                    put_count_rtt,
                    post_count_rtt,
                },
            )
        }),
{
    let run = RunModel::fresh(base_uri, index);
    let last = events.len() - 1;
    lemma_events_left(run, events, last);
    assert(events.take(0) =~= Seq::empty());
    assert(events.len() == 10);
    lemma_events_left(run, events, 0);
    lemma_events_left(run, events, 1);
    lemma_events_left(run, events, 2);
    lemma_events_left(run, events, 3);
    lemma_events_left(run, events, 4);
    lemma_events_left(run, events, 5);
    lemma_events_left(run, events, 6);
    lemma_events_left(run, events, 7);
    lemma_events_left(run, events, 8);
    lemma_unfold_run(run, events, 0);
    lemma_unfold_run(run, events, 1);
    lemma_unfold_run(run, events, 2);
    lemma_unfold_run(run, events, 3);
    lemma_unfold_run(run, events, 4);
    lemma_unfold_run(run, events, 5);
    lemma_unfold_run(run, events, 6);
    lemma_unfold_run(run, events, 7);
    lemma_unfold_run(run, events, 8);
}

/// As long as events are waited for, each takes a run one phase on.
proof fn lemma_events_left(run: RunModel, events: Seq<RunEvent>, n: int)
    requires
        run.phase == RunPhase::Start,
        run.awaits_all(events),
        0 <= n < events.len(),
    ensures
        run.awaits_all(events.take(n)),
        run.after(events.take(n)).awaits(events[n]),
        run.after(events.take(n)).events_left() == 10 - n,
        run.after(events.take(n)).base_uri == run.base_uri,
        run.after(events.take(n)).index == run.index,
    decreases events.len() + n,
{
    lemma_prefix_awaited(run, events, n + 1);
    lemma_unfold_run(run, events, n);
    if n > 0 {
        lemma_events_left(run, events, n - 1);
        lemma_unfold_run(run, events, n - 1);
    } else {
        assert(events.take(0) =~= Seq::empty());
    }
}

proof fn lemma_prefix_awaited(run: RunModel, events: Seq<RunEvent>, n: int)
    requires
        run.awaits_all(events),
        0 <= n <= events.len(),
    ensures
        run.awaits_all(events.take(n)),
    decreases events.len() - n,
{
    if n < events.len() {
        lemma_prefix_awaited(run, events, n + 1);
        lemma_unfold_run(run, events, n);
    } else {
        assert(events.take(n) =~= events);
    }
}

/// Law: a run that ends well against the service leaves the count at [`SWAPPED`], whatever
/// it was, where nobody else changes it meanwhile. The count read is the one found, the
/// addition is told the count found, and the swap is told that count and the addition
/// together. The three requests for the count in `history` are those that the run wrote
/// down and sent.
pub proof fn law_run_leaves_swapped(
    base_uri: Seq<char>,
    index: Seq<u8>,
    events: Seq<RunEvent>,
    history: Seq<Exchange>,
    count: usize,
)
    requires
        RunModel::fresh(base_uri, index).finishes(events),
        served(history, count),
        history.len() == 3,
        history[0].asked == CountRequest::Get,
        history[1].asked == CountRequest::Put(
            RunModel::fresh(base_uri, index).actions(events)[3]->EncodeIncrement_0,
        ),
        history[2].asked == CountRequest::Post(
            RunModel::fresh(base_uri, index).actions(events)[6]->EncodeSwap_0,
        ),
    ensures
        after_all(changes_asked(history), count) == SWAPPED,
        history[0].tells(count),
        history[1].tells(count),
        history[2].tells(CounterOp::Increment(INCREMENT).after(count)),
        ({
            let actions = RunModel::fresh(base_uri, index).actions(events);
            &&& actions[1]->method == history[0].asked.method()
            &&& actions[4]->method == history[1].asked.method()
            &&& actions[7]->method == history[2].asked.method()
        }),
{
    law_finished_run(base_uri, index, events);
    law_history_of_requests(history, count);
    law_request_leaves_count(history.take(0), history[0], count);
    law_request_leaves_count(history.take(1), history[1], count);
    law_request_leaves_count(history.take(2), history[2], count);
    assert(history.take(0) =~= Seq::empty());
    assert(history.take(0).push(history[0]) =~= history.take(1));
    assert(history.take(1).push(history[1]) =~= history.take(2));
    assert(history.take(2).push(history[2]) =~= history);
    assert(history[0].tells(after_all(changes_asked(history.take(0)), count)));
    assert(history[1].tells(after_all(changes_asked(history.take(1)), count)));
    assert(history[2].tells(after_all(changes_asked(history.take(2)), count)));
}

/// Law: what an action amounts to says all of it: each byte to be read, each number to be
/// written down, the times told, and of a request the method, the target, the header fields
/// and each byte of the body.
pub proof fn law_what_actions_amount_to(action: RunAction)
    ensures
        match action {
            RunAction::Send(request) => action@ == (ActionModel::Send {
                method: request_method(request),
                uri: request_uri(request),
                fields: request_fields(request),
                content: request_content(request),
            }),
            RunAction::DecodeGet(body) => action@ == ActionModel::DecodeGet(body@),
            RunAction::EncodeIncrement(request) => action@ == ActionModel::EncodeIncrement(
                request.new,
            ),
            RunAction::DecodeIncrement(body) => action@ == ActionModel::DecodeIncrement(body@),
            RunAction::EncodeSwap(request) => action@ == ActionModel::EncodeSwap(request.new),
            RunAction::DecodeSwap(body) => action@ == ActionModel::DecodeSwap(body@),
            RunAction::Finish(statistics) => action@ == ActionModel::Finish(statistics),
            RunAction::Fail(error) => action@ == ActionModel::Fail(error),
        },
{
}

/// Law: every answer about the count is read whole, byte by byte as it came, and the time it
/// took is kept under the name of its exchange; the times kept before stay.
pub proof fn law_answers_are_read_whole(run: RunModel, rtt: Duration, body: Vec<u8>)
    ensures
        ({
            let event = RunEvent::Replied(rtt, body);
            match run.phase {
                RunPhase::Count { get_index_rtt } => {
                    &&& run.action(event) == ActionModel::DecodeGet(body@)
                    &&& run.next(event).phase == RunPhase::CountDecode {
                        get_index_rtt,
                        get_count_rtt: rtt,
                    }
                },
                RunPhase::Put { get_index_rtt, get_count_rtt } => {
                    &&& run.action(event) == ActionModel::DecodeIncrement(body@)
                    &&& run.next(event).phase == RunPhase::PutDecode {
                        get_index_rtt,
                        get_count_rtt,
                        put_count_rtt: rtt,
                    }
                },
                RunPhase::Post { get_index_rtt, get_count_rtt, put_count_rtt } => {
                    &&& run.action(event) == ActionModel::DecodeSwap(body@)
                    &&& run.next(event).phase == RunPhase::PostDecode {
                        statistics: SingleRunStatistics {
                            get_index_rtt,
                            get_count_rtt,
                            put_count_rtt,
                            post_count_rtt: rtt,
                        },
                    }
                },
                _ => true,
            }
        }),
{
}

/// Law: a run fails exactly where an exchange, a reading or a writing down failed, the index
/// was another than expected, or a target is none, and it tells which of them it was.
pub proof fn law_which_failure_is_told(run: RunModel, event: RunEvent)
    requires
        run.awaits(event),
    ensures
        ({
            let count_uri = run.base_uri + "/count"@;
            let error = match (run.phase, event) {
                (RunPhase::Start, _) => if parsed_uri(run.base_uri) is None {
                    Some(RunError::BuildGet)
                } else {
                    None
                },
                (RunPhase::Index, RunEvent::Replied(_, body)) => if body@ != run.index {
                    Some(RunError::UnexpectedIndex)
                } else if parsed_uri(count_uri) is None {
                    Some(RunError::BuildGetCount)
                } else {
                    None
                },
                (RunPhase::PutEncode { .. }, RunEvent::Encoded(_)) => if parsed_uri(
                    count_uri,
                ) is None {
                    Some(RunError::BuildPut)
                } else {
                    None
                },
                (RunPhase::PostEncode { .. }, RunEvent::Encoded(_)) => if parsed_uri(
                    count_uri,
                ) is None {
                    Some(RunError::BuildPost)
                } else {
                    None
                },
                (RunPhase::Index, RunEvent::Failed) => Some(RunError::GetIndex),
                (RunPhase::Count { .. }, RunEvent::Failed) => Some(RunError::GetCount),
                (RunPhase::CountDecode { .. }, RunEvent::Failed) => Some(RunError::DecodeCount),
                (RunPhase::PutEncode { .. }, RunEvent::Failed) => Some(RunError::CreatePut),
                (RunPhase::Put { .. }, RunEvent::Failed) => Some(RunError::PutCount),
                (RunPhase::PostEncode { .. }, RunEvent::Failed) => Some(RunError::CreatePost),
                (RunPhase::Post { .. }, RunEvent::Failed) => Some(RunError::PostCount),
                _ => None,
            };
            match error {
                Some(error) => run.action(event) == ActionModel::Fail(error) && run.next(
                    event,
                ).phase == RunPhase::Over,
                None => !(run.action(event) is Fail),
            }
        }),
{
}

/// Law: a run waits to begin once, and from then on for the answer to each request, the
/// reading of each answer and the writing down of each body. Any of these may fail, but for
/// the reading of the answers to the addition and to the swap. A run that is over waits for
/// nothing.
pub proof fn law_what_a_run_waits_for(run: RunModel, event: RunEvent)
    ensures
        run.awaits(event) <==> match event {
            RunEvent::Begin => run.phase is Start,
            RunEvent::Replied(..) => run.phase is Index || run.phase is Count || run.phase is Put
                || run.phase is Post,
            RunEvent::Encoded(_) => run.phase is PutEncode || run.phase is PostEncode,
            RunEvent::Decoded => run.phase is CountDecode || run.phase is PutDecode
                || run.phase is PostDecode,
            RunEvent::Failed => run.phase is Index || run.phase is Count
                || run.phase is CountDecode || run.phase is PutEncode || run.phase is Put
                || run.phase is PostEncode || run.phase is Post,
        },
{
}

} // verus!
