use vstd::prelude::*;
use crate::message::{Message, ReplyDest, Request, RequestError, Response};

verus! {

/// A worker waits for messages until it takes a `Shutdown`, after which it is done. While it
/// serves a request it is busy and owes one response, to the destination held here.
#[derive(Clone, Copy, Debug, PartialEq, Eq, Structural)]
pub enum State {
    WaitForReq,
    Busy(ReplyDest),
    Done,
}

/// One execution unit of the pool, addressed by the CID of the VM slot it owns.
#[derive(Clone, Copy, Debug, PartialEq, Eq, Structural)]
pub struct Worker {
    pub cid: u32,
    pub state: State,
}

/// What a worker does with the message it took.
pub enum Step {
    /// Run the request on a VM and reply to its destination.
    Serve(Request, ReplyDest),
    /// Stop: no further message is taken.
    Exit,
}

impl Worker {
    pub fn new(cid: u32) -> (r: Worker)
        ensures
            r.cid == cid,
            r.state == State::WaitForReq,
    {
        Worker { cid: cid, state: State::WaitForReq }
    }

    /// Takes one message: a request makes the worker busy until it responds; `Shutdown`
    /// ends the worker.
    pub fn handle(&mut self, msg: Message) -> (r: Step)
        requires
            old(self).state == State::WaitForReq,
        ensures
            final(self).cid == old(self).cid,
            match msg {
                Message::Request(req, dest) => r == Step::Serve(req, dest) && final(self).state
                    == State::Busy(dest),
                Message::Shutdown => r is Exit && final(self).state == State::Done,
            },
    {
        match msg {
            Message::Request(req, dest) => {
                self.state = State::Busy(dest);
                Step::Serve(req, dest)
            },
            Message::Shutdown => {
                self.state = State::Done;
                Step::Exit
            },
        }
    }

    /// The one response for the request being served, success or failure alike, addressed
    /// to the destination that came with that request; the worker then waits again.
    pub fn respond(&mut self, result: Result<Vec<u8>, RequestError>) -> (r: Response)
        requires
            old(self).state is Busy,
        ensures
            r.dest == old(self).state->Busy_0,
            r.result == result,
            final(self).cid == old(self).cid,
            final(self).state == State::WaitForReq,
    {
        let dest = match self.state {
            State::Busy(d) => d,
            _ => ReplyDest::Channel(0),
        };
        self.state = State::WaitForReq;
        Response { dest: dest, result: result }
    }
}

} // verus!
