use vstd::prelude::*;
use crate::path::{components, decoded_request, lookup, refused, Lookup};

verus! {

/// Status of a resolved request, the entry itself or the fallback.
pub const STATUS_OK: u16 = 200;

/// Status of a request whose resolution outlasted the configured timeout.
pub const STATUS_REQUEST_TIMEOUT: u16 = 408;

/// Status of a request whose resolution failed for any other reason.
pub const STATUS_INTERNAL_ERROR: u16 = 500;

/// The body sent with an internal error; it never carries the cause.
pub open spec fn failure_message() -> Seq<u8> {
    seq![
        83u8, 111, 109, 101, 116, 104, 105, 110, 103, 32, 119, 101, 110, 116, 32, 119, 114, 111,
        110, 103, 46, 46, 46,
    ]
}

/// What reading one file gave, as seen by the resolver.
pub enum ReadModel {
    Found(Seq<u8>),
    Missing,
    Failed,
}

/// What happened since the last step, as seen by the resolver.
pub enum EventModel {
    Read(ReadModel),
    Elapsed,
}

/// What the resolver asks for next.
pub enum NextModel {
    ReadEntry(Seq<Seq<u8>>),
    ReadFallback,
    Reply(u16, Seq<u8>),
}

/// How far a request has come.
#[derive(Clone, Copy, Debug, PartialEq, Eq, Structural)]
pub enum Stage {
    /// The entry that the path names is being read.
    Primary,
    /// The fallback resource is being read.
    Fallback,
    /// A response has been produced; nothing more happens.
    Finished,
}

/// The result of reading one file: its bytes, a miss (no such regular file),
/// or any other failure.
pub enum ReadOutcome {
    Found(Vec<u8>),
    Missing,
    Failed,
}

/// An event of one request: a read finished, or the timeout elapsed first.
pub enum Event {
    Read(ReadOutcome),
    Elapsed,
}

/// A response: status and body.
pub struct Response {
    pub status: u16,
    pub body: Vec<u8>,
}

/// What the caller must do next for a request.
pub enum Next {
    /// Read the regular file at these entries joined under the content root.
    ReadEntry(Vec<Vec<u8>>),
    /// Read the fallback resource.
    ReadFallback,
    /// Send this response.
    Reply(Response),
}

impl View for ReadOutcome {
    type V = ReadModel;

    open spec fn view(&self) -> ReadModel {
        match self {
            ReadOutcome::Found(b) => ReadModel::Found(b@),
            ReadOutcome::Missing => ReadModel::Missing,
            ReadOutcome::Failed => ReadModel::Failed,
        }
    }
}

impl View for Event {
    type V = EventModel;

    open spec fn view(&self) -> EventModel {
        match self {
            Event::Read(o) => EventModel::Read(o@),
            Event::Elapsed => EventModel::Elapsed,
        }
    }
}

impl View for Next {
    type V = NextModel;

    open spec fn view(&self) -> NextModel {
        match self {
            Next::ReadEntry(segs) => NextModel::ReadEntry(segs@.map_values(|v: Vec<u8>| v@)),
            Next::ReadFallback => NextModel::ReadFallback,
            Next::Reply(r) => NextModel::Reply(r.status, r.body@),
        }
    }
}

/// The first step of a request: refused paths go straight to the fallback,
/// exactly as a missing entry does; others read the entry they name.
pub open spec fn started(request_path: Seq<u8>) -> (Stage, NextModel) {
    let d = decoded_request(request_path);
    if refused(d) {
        (Stage::Fallback, NextModel::ReadFallback)
    } else {
        (Stage::Primary, NextModel::ReadEntry(components(d)))
    }
}

/// One step of a request that is not finished.
pub open spec fn stepped(stage: Stage, event: EventModel) -> (Stage, NextModel) {
    match event {
        EventModel::Elapsed => (Stage::Finished, NextModel::Reply(408, Seq::empty())),
        EventModel::Read(ReadModel::Found(b)) => (Stage::Finished, NextModel::Reply(200, b)),
        EventModel::Read(ReadModel::Missing) => if stage == Stage::Primary {
            (Stage::Fallback, NextModel::ReadFallback)
        } else {
            (Stage::Finished, NextModel::Reply(500, failure_message()))
        },
        EventModel::Read(ReadModel::Failed) => (
            Stage::Finished,
            NextModel::Reply(500, failure_message()),
        ),
    }
}

/// The body sent with an internal error.
pub fn failure_body() -> (r: Vec<u8>)
    ensures
        r@ == failure_message(),
{
    let r: Vec<u8> = vec![
        83u8, 111, 109, 101, 116, 104, 105, 110, 103, 32, 119, 101, 110, 116, 32, 119, 114, 111,
        110, 103, 46, 46, 46,
    ];
    assert(r@ =~= failure_message());
    r
}

/// The response to a request whose resolution failed other than by a miss.
pub fn internal_error() -> (r: Response)
    ensures
        r.status == STATUS_INTERNAL_ERROR,
        r.body@ == failure_message(),
{
    Response { status: STATUS_INTERNAL_ERROR, body: failure_body() }
}

/// The response to a request that outlasted the timeout: no body.
pub fn request_timeout() -> (r: Response)
    ensures
        r.status == STATUS_REQUEST_TIMEOUT,
        r.body@ == Seq::<u8>::empty(),
{
    Response { status: STATUS_REQUEST_TIMEOUT, body: Vec::new() }
}

/// Begins a request for `request_path`.
pub fn start(request_path: &[u8]) -> (r: (Stage, Next))
    ensures
        (r.0, r.1@) == started(request_path@),
{
    match lookup(request_path) {
        Lookup::Refused => (Stage::Fallback, Next::ReadFallback),
        Lookup::Entry(segs) => (Stage::Primary, Next::ReadEntry(segs)),
    }
}

/// Advances a request that is not finished by one event.
pub fn step(stage: Stage, event: Event) -> (r: (Stage, Next))
    requires
        stage != Stage::Finished,
    ensures
        (r.0, r.1@) == stepped(stage, event@),
{
    match event {
        Event::Elapsed => (Stage::Finished, Next::Reply(request_timeout())),
        Event::Read(ReadOutcome::Found(b)) => (
            Stage::Finished,
            Next::Reply(Response { status: STATUS_OK, body: b }),
        ),
        Event::Read(ReadOutcome::Missing) => {
            if stage == Stage::Primary {
                (Stage::Fallback, Next::ReadFallback)
            } else {
                (Stage::Finished, Next::Reply(internal_error()))
            }
        },
        Event::Read(ReadOutcome::Failed) => (Stage::Finished, Next::Reply(internal_error())),
    }
}

/// A path that names an existing entry is answered with status 200 and the
/// entry's bytes, unchanged.
pub proof fn lemma_existing_entry_served(request_path: Seq<u8>, content: Seq<u8>)
    requires
        !refused(decoded_request(request_path)),
    ensures
        started(request_path) == (
            Stage::Primary,
            NextModel::ReadEntry(components(decoded_request(request_path))),
        ),
        stepped(started(request_path).0, EventModel::Read(ReadModel::Found(content))) == (
            Stage::Finished,
            NextModel::Reply(200, content),
        ),
{
}

/// A path whose entry is missing is answered with status 200 and the bytes
/// of the fallback resource.
pub proof fn lemma_missing_entry_falls_back(request_path: Seq<u8>, fallback: Seq<u8>)
    requires
        !refused(decoded_request(request_path)),
    ensures
        stepped(started(request_path).0, EventModel::Read(ReadModel::Missing)) == (
            Stage::Fallback,
            NextModel::ReadFallback,
        ),
        stepped(Stage::Fallback, EventModel::Read(ReadModel::Found(fallback))) == (
            Stage::Finished,
            NextModel::Reply(200, fallback),
        ),
{
}

/// A refused path is treated exactly as a missing entry: it reaches the
/// same stage with the same request for the fallback, so every later event
/// gives the same response, and no file under it is ever read.
pub proof fn lemma_refusal_looks_like_miss(request_path: Seq<u8>, later: EventModel)
    requires
        refused(decoded_request(request_path)),
    ensures
        started(request_path) == stepped(Stage::Primary, EventModel::Read(ReadModel::Missing)),
        stepped(started(request_path).0, later) == stepped(
            stepped(Stage::Primary, EventModel::Read(ReadModel::Missing)).0,
            later,
        ),
{
}

/// Whenever the timeout elapses before the resolution ends, the response is
/// status 408 with no body, and the request is finished.
pub proof fn lemma_timeout_answers_408(stage: Stage)
    requires
        stage != Stage::Finished,
    ensures
        stepped(stage, EventModel::Elapsed) == (Stage::Finished, NextModel::Reply(
            408,
            Seq::<u8>::empty(),
        )),
{
}

/// The fallback is read at most once per request: whatever reading it gave,
/// the request finishes without asking for it again.
pub proof fn lemma_fallback_at_most_once(event: EventModel)
    ensures
        stepped(Stage::Fallback, event).0 == Stage::Finished,
        !(stepped(Stage::Fallback, event).1 is ReadFallback),
{
}

/// Every request finishes with a response within two reads, whatever the
/// reads give: a miss leads to one more read, anything else to a reply.
pub proof fn lemma_finishes_within_two_reads(request_path: Seq<u8>, first: EventModel, second: EventModel)
    ensures
        ({
            let s1 = stepped(started(request_path).0, first);
            s1.0 == Stage::Finished || stepped(s1.0, second).0 == Stage::Finished
        }),
{
}

/// At most one response per request: the first step never replies, and a
/// step replies exactly when it finishes the request, after which no step is
/// taken.
pub proof fn lemma_reply_only_when_finished(request_path: Seq<u8>, stage: Stage, event: EventModel)
    requires
        stage != Stage::Finished,
    ensures
        started(request_path).0 != Stage::Finished,
        !(started(request_path).1 is Reply),
        (stepped(stage, event).1 is Reply) <==> stepped(stage, event).0 == Stage::Finished,
{
}

} // verus!
