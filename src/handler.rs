//! One connection's request/response cycle, as a step from what arrived to
//! what to send. The caller reads and writes the connection; each step reads
//! or changes the store once.
use vstd::prelude::*;

use crate::frame::{encode_response, frame_of};
use crate::request::{decode_request, Request, RequestView};
use crate::response::{response_text, ResponseType, ResponseView};
use crate::store::{lookup, Store};

verus! {

/// What arrived on a connection.
pub enum Incoming {
    /// The bytes of one frame, without its delimiter.
    Frame(Vec<u8>),
    /// The peer closed the connection before another frame began.
    Eof,
}

/// What to do next on a connection.
pub enum Outgoing {
    /// Send these bytes, then wait for the next frame.
    Reply(Vec<u8>),
    /// Send these bytes if the connection still takes them, then close it.
    ReplyAndClose(Vec<u8>),
    /// Close the connection.
    Close,
}

/// The answer to `req` against the mapping `m`.
pub open spec fn response_to(m: Map<Seq<char>, Seq<char>>, req: RequestView) -> ResponseView {
    match req {
        RequestView::Store { .. } => ResponseView::SuccessStore,
        RequestView::Load { key } => match lookup(m, key) {
            Some(value) => ResponseView::SuccessLoad { key, value },
            None => ResponseView::KeyNotFound,
        },
    }
}

/// The mapping after `req` is served against `m`.
pub open spec fn after_request(m: Map<Seq<char>, Seq<char>>, req: RequestView) -> Map<Seq<char>, Seq<char>> {
    match req {
        RequestView::Store { key, value } => m.insert(key, value),
        RequestView::Load { .. } => m,
    }
}

/// Serves one request against the store.
pub fn dispatch(store: &mut Store, request: Request) -> (r: ResponseType)
    ensures
        final(store)@ == after_request(old(store)@, request@),
        r@ == response_to(old(store)@, request@),
{
    match request {
        Request::Store { key, value } => {
            store.put(key, value);
            ResponseType::SuccessStore
        },
        Request::Load { key } => match store.get(&key) {
            Some(value) => ResponseType::SuccessLoad { key, value },
            None => ResponseType::KeyNotFound,
        },
    }
}

/// What arrives when the peer closes the connection with `pending` bytes
/// unread: nothing at all is the end of the stream, anything else is the last
/// frame.
pub fn at_end_of_stream(pending: Vec<u8>) -> (r: Incoming)
    ensures
        pending@.len() == 0 ==> r is Eof,
        pending@.len() > 0 ==> (r matches Incoming::Frame(f) && f@ == pending@),
{
    if pending.len() == 0 {
        Incoming::Eof
    } else {
        Incoming::Frame(pending)
    }
}

/// One step of a connection: the end of the stream closes it; a frame that
/// holds no request is answered with an error and closes it; a request is
/// served and answered, and the connection waits for the next frame.
pub fn handle(store: &mut Store, input: Incoming) -> (r: Outgoing)
    ensures
        input is Eof ==> r is Close && final(store)@ == old(store)@,
        input matches Incoming::Frame(text) ==> match decode_request(text@) {
            None => {
                &&& r matches Outgoing::ReplyAndClose(out) && out@ == frame_of(response_text(ResponseView::Error))
                &&& final(store)@ == old(store)@
            },
            Some(req) => {
                &&& r matches Outgoing::Reply(out) && out@ == frame_of(response_text(response_to(old(store)@, req)))
                &&& final(store)@ == after_request(old(store)@, req)
            },
        },
{
    match input {
        Incoming::Eof => Outgoing::Close,
        Incoming::Frame(text) => match Request::decode(text.as_slice()) {
            Some(request) => {
                let response = dispatch(store, request);
                Outgoing::Reply(encode_response(&response))
            },
            None => Outgoing::ReplyAndClose(encode_response(&ResponseType::Error)),
        },
    }
}

} // verus!
