//! The decisions of the message stream over a readiness reactor: each poll
//! first asks whether the socket is readable, then turns the read into at
//! most one message.

use vstd::prelude::*;
use crate::codec::BcmMsgHead;
use crate::ops::BcmError;

verus! {

/// What a poll does first.
#[derive(Clone, Copy, Debug, PartialEq, Eq)]
pub enum PollStep {
    /// the stream has ended; nothing is read
    Ended,
    /// the socket is not readable; nothing is read
    NotReady,
    /// the socket is readable; read one message
    Read,
}

/// What a poll yields.
#[derive(Clone, Debug)]
pub enum StreamPoll {
    /// no message now; poll again once the reactor reports readiness
    NotReady,
    /// the next message
    Item(BcmMsgHead),
    /// the stream ends with this error
    Failed(BcmError),
    /// the stream ended earlier
    Ended,
}

/// The stream's state: whether it has ended on an error.
#[derive(Clone, Copy, Debug, PartialEq, Eq)]
pub struct BcmStreamState {
    pub ended: bool,
}

impl BcmStreamState {
    /// A stream that has not ended.
    pub fn new() -> (r: BcmStreamState)
        ensures
            !r.ended,
    {
        BcmStreamState { ended: false }
    }

    /// The first step of a poll, given whether the reactor reports the socket readable.
    pub fn begin_poll(&self, readable: bool) -> (r: PollStep)
        ensures
            r == if self.ended {
                PollStep::Ended
            } else if !readable {
                PollStep::NotReady
            } else {
                PollStep::Read
            },
    {
        if self.ended {
            PollStep::Ended
        } else if !readable {
            PollStep::NotReady
        } else {
            PollStep::Read
        }
    }

    /// The end of a poll whose read gave `read`. A message is the next item.
    /// A read that would block yields no item and asks for readiness interest
    /// to be armed again (the second result). Any other error ends the stream.
    pub fn complete_poll(&mut self, read: Result<BcmMsgHead, BcmError>) -> (r: (StreamPoll, bool))
        requires
            !old(self).ended,
        ensures
            match read {
                Ok(m) => r.0 == StreamPoll::Item(m) && !r.1 && !final(self).ended,
                Err(BcmError::WouldBlock) => r.0 == StreamPoll::NotReady && r.1 && !final(self).ended,
                Err(e) => r.0 == StreamPoll::Failed(e) && !r.1 && final(self).ended,
            },
    {
        match read {
            Ok(m) => (StreamPoll::Item(m), false),
            Err(BcmError::WouldBlock) => (StreamPoll::NotReady, true),
            Err(e) => {
                self.ended = true;
                (StreamPoll::Failed(e), false)
            },
        }
    }
}

} // verus!
