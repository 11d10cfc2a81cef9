//! The two cache operations, over any transport.
//!
//! A transport supplies the two sends and notes each of them; `map` and
//! `unmap` are built on the sends here, and what they promise is stated
//! over what the transport has noted.

use vstd::prelude::*;
use crate::failure::TransportFailure;
use crate::map::{map_message, map_message_slots};
use crate::message::{Slot, WireMessage, ENTRIES_PER_MESSAGE};
use crate::unmap::{
    batch_len, lemma_message_count_is_least, lemma_order_is_kept, lemma_unused_slots_are_zero,
    request_slot, unmap_message_count, unmap_messages, RemovemappingOne, UnmapAction, UnmapRun,
};

verus! {

/// What was handed to the transport in one send.
pub enum Dispatch {
    /// A mapping message, with the descriptor that went with it.
    Mapping(Seq<Slot>, i32),
    /// A removal message.
    Removal(Seq<Slot>),
}

/// One send and how it went.
pub struct Attempt {
    /// What was sent.
    pub dispatch: Dispatch,
    /// What the transport answered.
    pub outcome: Result<(), TransportFailure>,
}

/// `after` is `before` with one mapping attempt added: the message for the
/// given mapping, the descriptor, and the outcome.
pub open spec fn map_recorded(
    before: Seq<Attempt>,
    after: Seq<Attempt>,
    foffset: u64,
    moffset: u64,
    len: u64,
    flags: u64,
    fd: i32,
    outcome: Result<(), TransportFailure>,
) -> bool {
    after == before.push(
        Attempt {
            dispatch: Dispatch::Mapping(map_message_slots(foffset, moffset, len, flags), fd),
            outcome,
        },
    )
}

/// `after` is `before` with the attempts of one removal call added: the
/// messages of `requests` in order, from the first up to the first that
/// failed, or all of them; `result` is the outcome of the last attempt.
pub open spec fn unmap_recorded(
    before: Seq<Attempt>,
    after: Seq<Attempt>,
    requests: Seq<RemovemappingOne>,
    result: Result<(), TransportFailure>,
) -> bool {
    &&& before.len() < after.len() <= before.len() + unmap_message_count(requests.len())
    &&& after.subrange(0, before.len() as int) == before
    &&& forall|j: int|
        before.len() <= j < after.len() ==> (#[trigger] after[j]).dispatch == Dispatch::Removal(
            unmap_messages(requests)[j - before.len()],
        )
    &&& forall|j: int| before.len() <= j < after.len() - 1 ==> (#[trigger] after[j]).outcome is Ok
    &&& after.last().outcome == result
    &&& result is Ok ==> after.len() == before.len() + unmap_message_count(requests.len())
}

/// A removal call of one request or more that succeeds makes as few sends
/// as can hold the requests: the number of requests over the capacity of a
/// message, rounded up.
pub proof fn lemma_unmap_send_count(
    before: Seq<Attempt>,
    after: Seq<Attempt>,
    requests: Seq<RemovemappingOne>,
    result: Result<(), TransportFailure>,
)
    requires
        requests.len() >= 1,
        unmap_recorded(before, after, requests, result),
        result is Ok,
    ensures
        (after.len() - before.len()) * ENTRIES_PER_MESSAGE >= requests.len(),
        (after.len() - before.len() - 1) * ENTRIES_PER_MESSAGE < requests.len(),
{
    lemma_message_count_is_least(requests);
}

/// In every message that a removal call sends, each slot after the requests
/// that the message carries is zero.
pub proof fn lemma_unmap_sends_no_stale_slot(
    before: Seq<Attempt>,
    after: Seq<Attempt>,
    requests: Seq<RemovemappingOne>,
    result: Result<(), TransportFailure>,
    j: int,
    k: int,
)
    requires
        unmap_recorded(before, after, requests, result),
        before.len() <= j < after.len(),
        batch_len(requests.len(), j - before.len()) <= k < ENTRIES_PER_MESSAGE,
    ensures
        after[j].dispatch matches Dispatch::Removal(slots) && slots[k] == Slot::zero(),
{
    lemma_unused_slots_are_zero(requests, j - before.len(), k);
}

/// A removal call sends the requests in the order in which they came: where
/// the message of a later request was sent, an earlier request went in an
/// earlier send, or in the same send in an earlier slot, and each of the two
/// went with its offset and length as they came.
pub proof fn lemma_unmap_sends_in_order(
    before: Seq<Attempt>,
    after: Seq<Attempt>,
    requests: Seq<RemovemappingOne>,
    result: Result<(), TransportFailure>,
    i: int,
    j: int,
)
    requires
        unmap_recorded(before, after, requests, result),
        0 <= i < j < requests.len(),
        before.len() + j / (ENTRIES_PER_MESSAGE as int) < after.len(),
    ensures
        i / (ENTRIES_PER_MESSAGE as int) <= j / (ENTRIES_PER_MESSAGE as int),
        i / (ENTRIES_PER_MESSAGE as int) == j / (ENTRIES_PER_MESSAGE as int) ==> i % (
        ENTRIES_PER_MESSAGE as int) < j % (ENTRIES_PER_MESSAGE as int),
        after[before.len() + i / (ENTRIES_PER_MESSAGE as int)].dispatch matches Dispatch::Removal(
            slots,
        ) && slots[i % (ENTRIES_PER_MESSAGE as int)] == request_slot(requests[i]),
        after[before.len() + j / (ENTRIES_PER_MESSAGE as int)].dispatch matches Dispatch::Removal(
            slots,
        ) && slots[j % (ENTRIES_PER_MESSAGE as int)] == request_slot(requests[j]),
{
    lemma_order_is_kept(requests, i, j);
}

/// Two mapping calls with the same inputs, both accepted, send the same
/// message with the same descriptor.
pub proof fn lemma_map_twice_same_message(
    first: Seq<Attempt>,
    second: Seq<Attempt>,
    third: Seq<Attempt>,
    foffset: u64,
    moffset: u64,
    len: u64,
    flags: u64,
    fd: i32,
)
    requires
        map_recorded(first, second, foffset, moffset, len, flags, fd, Ok(())),
        map_recorded(second, third, foffset, moffset, len, flags, fd, Ok(())),
    ensures
        third.len() == first.len() + 2,
        third[first.len() as int] == third[first.len() as int + 1],
        third[first.len() as int].dispatch == Dispatch::Mapping(
            map_message_slots(foffset, moffset, len, flags),
            fd,
        ),
{
}

/// What carries a message to the other side. Each call is one exchange; it
/// is made once and its answer is final.
///
/// The contracts of the two sends are what an implementor promises: every
/// call is one attempt, noted with the message as it was handed over and
/// with the answer as it is returned, and nothing else is ever noted. The
/// handler's own contracts rest on that promise.
pub trait Transport: Send + Sync + 'static {
    /// Every send made through this transport so far, oldest first. A
    /// transport written as verified code says here what it keeps; the
    /// empty default only stands in for a transport that is not verified and
    /// so has no ghost state to show.
    open spec fn sent(&self) -> Seq<Attempt> {
        Seq::empty()
    }

    /// Sends one mapping message together with a descriptor.
    fn send_map_message(&mut self, msg: &WireMessage, fd: i32) -> (outcome: Result<
        (),
        TransportFailure,
    >)
        ensures
            final(self).sent() == old(self).sent().push(
                Attempt { dispatch: Dispatch::Mapping(msg@, fd), outcome },
            ),
    ;

    /// Sends one removal message.
    fn send_unmap_message(&mut self, msg: &WireMessage) -> (outcome: Result<(), TransportFailure>)
        ensures
            final(self).sent() == old(self).sent().push(
                Attempt { dispatch: Dispatch::Removal(msg@), outcome },
            ),
    ;
}

/// Cache operations of virtio-fs, as the file-system side sees them.
pub trait FsCacheReqHandler: Send + Sync + 'static {
    /// Every send made through this handler so far, oldest first.
    spec fn history(&self) -> Seq<Attempt>;

    /// Setupmapping operation: sends one message that asks to map `len`
    /// bytes of the file behind `fd`, from `foffset` on, at `moffset` in the
    /// window. The answer of the transport is the result.
    fn map(&mut self, foffset: u64, moffset: u64, len: u64, flags: u64, fd: i32) -> (result: Result<
        (),
        TransportFailure,
    >)
        ensures
            map_recorded(
                old(self).history(),
                final(self).history(),
                foffset,
                moffset,
                len,
                flags,
                fd,
                result,
            ),
    ;

    /// Removemapping operation: sends the requests in order, as many to a
    /// message as it holds, and stops at the first send that fails. With no
    /// request at all it still sends one message, with every slot zero.
    fn unmap(&mut self, requests: Vec<RemovemappingOne>) -> (result: Result<(), TransportFailure>)
        ensures
            unmap_recorded(old(self).history(), final(self).history(), requests@, result),
    ;
}

/// The handler over a transport. It keeps nothing between two calls but the
/// transport itself.
pub struct CacheRequestHandler<T: Transport> {
    transport: T,
}

impl<T: Transport> CacheRequestHandler<T> {
    /// A handler over `transport`. Its history is that of the transport.
    pub fn new(transport: T) -> (handler: Self)
        ensures
            *handler.transport_view() == transport,
            handler.history() == transport.sent(),
    {
        CacheRequestHandler { transport }
    }

    /// The transport of this handler.
    pub closed spec fn transport_view(&self) -> &T {
        &self.transport
    }

    /// The transport, to look at.
    pub fn transport(&self) -> (t: &T)
        ensures
            t == self.transport_view(),
    {
        &self.transport
    }

    /// Gives the transport back.
    pub fn into_transport(self) -> (t: T)
        ensures
            t == *self.transport_view(),
    {
        self.transport
    }
}

impl<T: Transport> FsCacheReqHandler for CacheRequestHandler<T> {
    /// The sends of a handler are those of its transport.
    open spec fn history(&self) -> Seq<Attempt> {
        self.transport_view().sent()
    }

    fn map(&mut self, foffset: u64, moffset: u64, len: u64, flags: u64, fd: i32) -> (result: Result<
        (),
        TransportFailure,
    >) {
        let msg = map_message(foffset, moffset, len, flags);
        self.transport.send_map_message(&msg, fd)
    }

    fn unmap(&mut self, requests: Vec<RemovemappingOne>) -> (result: Result<(), TransportFailure>) {
        let ghost reqs = requests@;
        let ghost before = self.history();
        let ghost count = unmap_message_count(reqs.len());
        let mut run = UnmapRun::new(requests);
        let mut action = run.begin();
        loop
            invariant
                run.wf(),
                run.requests() == reqs,
                reqs == requests@,
                count == unmap_message_count(reqs.len()),
                before == old(self).history(),
                before.len() <= self.history().len() <= before.len() + count,
                self.history().subrange(0, before.len() as int) == before,
                forall|j: int|
                    before.len() <= j < self.history().len() ==> (#[trigger] self.history()[j]).dispatch
                        == Dispatch::Removal(unmap_messages(reqs)[j - before.len()]),
                match action {
                    UnmapAction::Dispatch(m) => {
                        &&& run.dispatched() == self.history().len() - before.len() + 1
                        &&& run.dispatched() <= count
                        &&& m@ == unmap_messages(reqs)[run.dispatched() - 1]
                        &&& forall|j: int|
                            before.len() <= j < self.history().len() ==> (
                            #[trigger] self.history()[j]).outcome is Ok
                    },
                    UnmapAction::Finished(res) => {
                        &&& before.len() < self.history().len()
                        &&& forall|j: int|
                            before.len() <= j < self.history().len() - 1 ==> (
                            #[trigger] self.history()[j]).outcome is Ok
                        &&& self.history().last().outcome == res
                        &&& res is Ok ==> self.history().len() == before.len() + count
                    },
                },
            decreases
                2 * (before.len() + count - self.history().len()) + (if action is Dispatch {
                    1nat
                } else {
                    0nat
                }),
        {
            match action {
                UnmapAction::Dispatch(msg) => {
                    let outcome = self.transport.send_unmap_message(&msg);
                    let ghost answered = outcome;
                    action = run.step(outcome);
                    proof {
                        assert(self.history().subrange(0, before.len() as int) =~= before);
                        if answered is Ok {
                            assert(answered->Ok_0 == ());
                        }
                    }
                },
                UnmapAction::Finished(result) => {
                    return result;
                },
            }
        }
    }
}

} // verus!
