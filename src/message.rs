use vstd::prelude::*;

verus! {

/// An invocation of a named function with an opaque byte payload.
pub struct Request {
    pub function: String,
    pub payload: Vec<u8>,
}

/// Where the response to a request goes: an in-process reply channel or a remote
/// connection, each known by the number its owner gave it.
#[derive(Clone, Copy, Debug, PartialEq, Eq, Structural)]
pub enum ReplyDest {
    Channel(u64),
    Remote(u64),
}

/// What travels on the pool's shared queue.
pub enum Message {
    Request(Request, ReplyDest),
    Shutdown,
}

/// Why one request failed; the worker that saw it goes on serving.
#[derive(Clone, Copy, Debug, PartialEq, Eq, Structural)]
pub enum RequestError {
    /// The VM could not be started or restored.
    Launch,
    /// The VM's connection closed before a response came.
    Transport,
}

/// The one response owed to a request, addressed to that request's destination.
pub struct Response {
    pub dest: ReplyDest,
    pub result: Result<Vec<u8>, RequestError>,
}

} // verus!
