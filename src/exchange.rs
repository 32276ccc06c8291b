//! The decisions of one HTTP exchange, as a state machine. The runner performs
//! each step's outside work (send, read, forward) and feeds the result back.

use vstd::prelude::*;

use crate::foreign::{method_accepted, parse_method};
use crate::message::{RespMsg, Response};

verus! {

/// Where an exchange stands.
pub enum Exchange {
    /// The request is out; its response is awaited.
    Awaiting { buffered: bool },
    /// Buffered: the headers are in; the whole body is being read.
    ReadingBody { head: Response },
    /// Streaming: the headers went out; chunks are being forwarded.
    Streaming,
    /// Nothing more is sent.
    Done,
}

/// The result of the outside work that a step asked for.
pub enum ExchangeEvent {
    Responded(Result<Response, String>),
    BodyRead(Result<Vec<u8>, String>),
    ChunkRead(Result<Option<Vec<u8>>, String>),
}

/// The outside work to do next.
pub enum NextStep {
    ReadBody,
    ReadChunk,
    Stop,
}

/// One transition: the new state, the message to forward first (if any), and
/// the work to do after it.
pub struct Step {
    pub state: Exchange,
    pub emit: Option<RespMsg>,
    pub next: NextStep,
}

/// The transition for `state` and `ev`, message aside: new state, whether a
/// message goes out, and next work. An event the state does not expect ends
/// the exchange silently.
pub open spec fn step_of(state: Exchange, ev: ExchangeEvent) -> (Exchange, NextStep) {
    match (state, ev) {
        (Exchange::Awaiting { buffered }, ExchangeEvent::Responded(Ok(resp))) => if buffered {
            (Exchange::ReadingBody { head: resp }, NextStep::ReadBody)
        } else {
            (Exchange::Streaming, NextStep::ReadChunk)
        },
        (Exchange::Streaming, ExchangeEvent::ChunkRead(Ok(Some(_)))) => (
            Exchange::Streaming,
            NextStep::ReadChunk,
        ),
        _ => (Exchange::Done, NextStep::Stop),
    }
}

/// The message forwarded on the transition for `state` and `ev`.
pub open spec fn emitted(state: Exchange, ev: ExchangeEvent) -> Option<RespMsg> {
    match (state, ev) {
        (Exchange::Awaiting { buffered }, ExchangeEvent::Responded(Ok(resp))) => if buffered {
            None
        } else {
            Some(RespMsg::Headers(resp))
        },
        (Exchange::Awaiting { .. }, ExchangeEvent::Responded(Err(e))) => Some(RespMsg::Failed(e)),
        (Exchange::ReadingBody { head }, ExchangeEvent::BodyRead(Ok(b))) => Some(
            RespMsg::Headers(Response { status: head.status, headers: head.headers, body: Some(b) }),
        ),
        (Exchange::ReadingBody { .. }, ExchangeEvent::BodyRead(Err(e))) => Some(RespMsg::Failed(e)),
        (Exchange::Streaming, ExchangeEvent::ChunkRead(Ok(Some(c)))) => if c@.len() == 0 {
            None
        } else {
            Some(RespMsg::Chunk(c))
        },
        (Exchange::Streaming, ExchangeEvent::ChunkRead(Err(e))) => Some(RespMsg::Failed(e)),
        _ => None,
    }
}

/// Validates the request's method: the exchange starts awaiting the
/// response, or fails at once with a single failure message.
pub fn begin(method: &str, buffered: bool) -> (r: Result<(reqwest::Method, Exchange), RespMsg>)
    ensures
        r is Ok <==> method_accepted(method@),
        r is Ok ==> r->Ok_0.1 == (Exchange::Awaiting { buffered }),
        r is Err ==> r->Err_0 is Failed,
{
    match parse_method(method) {
        Ok(m) => Ok((m, Exchange::Awaiting { buffered })),
        Err(e) => Err(RespMsg::Failed(e)),
    }
}

/// Takes the exchange one step on.
pub fn advance(state: Exchange, ev: ExchangeEvent) -> (r: Step)
    ensures
        (r.state, r.next) == step_of(state, ev),
        r.emit == emitted(state, ev),
{
    match state {
        Exchange::Awaiting { buffered } => match ev {
            ExchangeEvent::Responded(Ok(resp)) => if buffered {
                Step { state: Exchange::ReadingBody { head: resp }, emit: None, next: NextStep::ReadBody }
            } else {
                Step { state: Exchange::Streaming, emit: Some(RespMsg::Headers(resp)), next: NextStep::ReadChunk }
            },
            ExchangeEvent::Responded(Err(e)) => Step {
                state: Exchange::Done,
                emit: Some(RespMsg::Failed(e)),
                next: NextStep::Stop,
            },
            _ => Step { state: Exchange::Done, emit: None, next: NextStep::Stop },
        },
        Exchange::ReadingBody { head } => match ev {
            ExchangeEvent::BodyRead(Ok(b)) => Step {
                state: Exchange::Done,
                emit: Some(
                    RespMsg::Headers(Response { status: head.status, headers: head.headers, body: Some(b) }),
                ),
                next: NextStep::Stop,
            },
            ExchangeEvent::BodyRead(Err(e)) => Step {
                state: Exchange::Done,
                emit: Some(RespMsg::Failed(e)),
                next: NextStep::Stop,
            },
            _ => Step { state: Exchange::Done, emit: None, next: NextStep::Stop },
        },
        Exchange::Streaming => match ev {
            ExchangeEvent::ChunkRead(Ok(Some(c))) => Step {
                state: Exchange::Streaming,
                emit: if c.len() == 0 {
                    None
                } else {
                    Some(RespMsg::Chunk(c))
                },
                next: NextStep::ReadChunk,
            },
            ExchangeEvent::ChunkRead(Err(e)) => Step {
                state: Exchange::Done,
                emit: Some(RespMsg::Failed(e)),
                next: NextStep::Stop,
            },
            _ => Step { state: Exchange::Done, emit: None, next: NextStep::Stop },
        },
        Exchange::Done => Step { state: Exchange::Done, emit: None, next: NextStep::Stop },
    }
}

/// The order a reply channel carries: a headers message first, then only
/// chunks, none of them empty, with at most one failure, and that one last.
/// (A failure may also be the only message.)
pub open spec fn well_ordered(msgs: Seq<RespMsg>) -> bool {
    &&& forall|i: int| 0 <= i < msgs.len() && #[trigger] msgs[i] is Chunk ==> msgs[i]->Chunk_0@.len() > 0
    &&& msgs.len() > 0 ==> !(msgs[0] is Chunk)
    &&& forall|i: int| 0 < i < msgs.len() ==> (#[trigger] msgs[i] is Chunk || (msgs[i] is Failed && i
        == msgs.len() - 1))
    &&& msgs.len() > 0 && msgs[0] is Failed ==> msgs.len() == 1
}

/// What has been forwarded by the time the exchange is in `state`.
pub open spec fn forwarded_so_far(state: Exchange, msgs: Seq<RespMsg>) -> bool {
    match state {
        Exchange::Awaiting { .. } => msgs.len() == 0,
        Exchange::ReadingBody { .. } => msgs.len() == 0,
        Exchange::Streaming => well_ordered(msgs) && msgs.len() > 0 && msgs[0] is Headers
            && !(msgs.last() is Failed),
        Exchange::Done => well_ordered(msgs),
    }
}

pub open spec fn append(msgs: Seq<RespMsg>, m: Option<RespMsg>) -> Seq<RespMsg> {
    match m {
        Some(x) => msgs.push(x),
        None => msgs,
    }
}

/// Every run of an exchange forwards its messages in order: the headers
/// before any chunk, no empty chunk, at most one failure and nothing after
/// it, and nothing at all once the exchange is done.
pub proof fn lemma_messages_in_order(state: Exchange, msgs: Seq<RespMsg>, ev: ExchangeEvent)
    requires
        forwarded_so_far(state, msgs),
    ensures
        forwarded_so_far(step_of(state, ev).0, append(msgs, emitted(state, ev))),
        state is Done ==> emitted(state, ev) is None,
{
    let next = append(msgs, emitted(state, ev));
    if let Some(m) = emitted(state, ev) {
        assert(next.len() == msgs.len() + 1);
        assert forall|i: int| 0 <= i < msgs.len() implies next[i] == msgs[i] by {}
        assert(next.last() == m);
    }
}

} // verus!
