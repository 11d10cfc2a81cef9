//! A transport that accepts every message and keeps what it was given.
//!
//! It sends nothing anywhere. It serves where the messages themselves are of
//! interest, and it shows that the promise of `Transport` can be kept.

use vstd::prelude::*;
use crate::handler::{Attempt, Dispatch, Transport};
use crate::failure::TransportFailure;
use crate::message::WireMessage;

verus! {

/// One message as the transport got it.
#[derive(Clone, Copy, Debug, PartialEq, Eq)]
pub struct Received {
    /// The message.
    pub message: WireMessage,
    /// The descriptor that came with a mapping message; none with a removal.
    pub fd: Option<i32>,
}

/// The accepted attempt that a kept message stands for.
pub open spec fn attempt_of(received: Received) -> Attempt {
    Attempt {
        dispatch: match received.fd {
            Some(fd) => Dispatch::Mapping(received.message@, fd),
            None => Dispatch::Removal(received.message@),
        },
        outcome: Ok(()),
    }
}

/// The transport. What it has kept is all its state.
pub struct RecordingTransport {
    received: Vec<Received>,
}

impl RecordingTransport {
    /// The messages kept so far, oldest first.
    pub closed spec fn kept(&self) -> Seq<Received> {
        self.received@
    }

    /// A transport that has been given nothing yet.
    pub fn new() -> (transport: RecordingTransport)
        ensures
            transport.kept() == Seq::<Received>::empty(),
            transport.sent() == Seq::<Attempt>::empty(),
    {
        let transport = RecordingTransport { received: Vec::new() };
        assert(transport.sent() =~= Seq::<Attempt>::empty());
        transport
    }

    /// The messages kept so far, oldest first.
    pub fn received(&self) -> (received: &Vec<Received>)
        ensures
            received@ == self.kept(),
    {
        &self.received
    }
}

impl Transport for RecordingTransport {
    /// One accepted attempt for each message kept.
    open spec fn sent(&self) -> Seq<Attempt> {
        self.kept().map_values(|received: Received| attempt_of(received))
    }

    fn send_map_message(&mut self, msg: &WireMessage, fd: i32) -> (outcome: Result<
        (),
        TransportFailure,
    >) {
        self.received.push(Received { message: *msg, fd: Some(fd) });
        assert(self.sent() =~= old(self).sent().push(
            Attempt { dispatch: Dispatch::Mapping(msg@, fd), outcome: Ok(()) },
        ));
        Ok(())
    }

    fn send_unmap_message(&mut self, msg: &WireMessage) -> (outcome: Result<(), TransportFailure>) {
        self.received.push(Received { message: *msg, fd: None });
        assert(self.sent() =~= old(self).sent().push(
            Attempt { dispatch: Dispatch::Removal(msg@), outcome: Ok(()) },
        ));
        Ok(())
    }
}

} // verus!
