//! Batching of mapping removals into messages.
//!
//! A list of removals of any length becomes an ordered sequence of messages
//! of `ENTRIES_PER_MESSAGE` slots each. The caller sends one message at a
//! time and reports how the send went; `UnmapRun` then says what to do next.

use vstd::prelude::*;
use crate::failure::TransportFailure;
use crate::message::{protocol_entries, zero_message, Slot, WireMessage, ENTRIES_PER_MESSAGE};

verus! {

/// One request to remove a mapping from the DAX window.
#[derive(Clone, Copy, Debug, PartialEq, Eq, Structural)]
pub struct RemovemappingOne {
    /// Offset into the DAX window.
    pub moffset: u64,
    /// Length of the mapping to remove.
    pub len: u64,
}

/// The slot that carries one request.
pub open spec fn request_slot(request: RemovemappingOne) -> Slot {
    Slot { fd_offset: 0, cache_offset: request.moffset, len: request.len, flags: 0 }
}

/// What slot `p` of the endless row of slots holds, when the requests are
/// laid out one per slot from position 0: the request at `p`, or zero past
/// the last request.
pub open spec fn removal_slot(requests: Seq<RemovemappingOne>, p: int) -> Slot {
    if 0 <= p < requests.len() {
        request_slot(requests[p])
    } else {
        Slot::zero()
    }
}

/// Message number `k` of the sequence: slots `k * C` to `k * C + C - 1` of
/// the row, with `C = ENTRIES_PER_MESSAGE`.
pub open spec fn unmap_message(requests: Seq<RemovemappingOne>, k: int) -> Seq<Slot> {
    Seq::new(
        ENTRIES_PER_MESSAGE as nat,
        |j: int| removal_slot(requests, k * (ENTRIES_PER_MESSAGE as int) + j),
    )
}

/// How many messages `n` requests take: `n / C` rounded up, and one empty
/// message for no request at all.
pub open spec fn unmap_message_count(n: nat) -> nat {
    if n == 0 {
        1
    } else {
        ((n + ENTRIES_PER_MESSAGE - 1) / (ENTRIES_PER_MESSAGE as int)) as nat
    }
}

/// The messages that removing `requests` sends, in the order of sending.
pub open spec fn unmap_messages(requests: Seq<RemovemappingOne>) -> Seq<Seq<Slot>> {
    Seq::new(unmap_message_count(requests.len()), |k: int| unmap_message(requests, k))
}

/// How many requests message `k` carries: a full message's worth, what is
/// left of the requests, or none.
pub open spec fn batch_len(n: nat, k: int) -> int {
    let rest = n - k * (ENTRIES_PER_MESSAGE as int);
    if rest <= 0 {
        0
    } else if rest >= ENTRIES_PER_MESSAGE {
        ENTRIES_PER_MESSAGE as int
    } else {
        rest
    }
}

/// One request or more take as few messages as can hold them: the messages
/// together have room for every request, and one message fewer would not.
pub proof fn lemma_message_count_is_least(requests: Seq<RemovemappingOne>)
    requires
        requests.len() >= 1,
    ensures
        unmap_messages(requests).len() >= 1,
        unmap_messages(requests).len() * ENTRIES_PER_MESSAGE >= requests.len(),
        (unmap_messages(requests).len() - 1) * ENTRIES_PER_MESSAGE < requests.len(),
{
}

/// No request at all takes one message, and every slot of it is zero.
pub proof fn lemma_no_request_one_empty_message(requests: Seq<RemovemappingOne>)
    requires
        requests.len() == 0,
    ensures
        unmap_messages(requests).len() == 1,
        unmap_messages(requests)[0] == zero_message(),
{
    assert(unmap_messages(requests)[0] =~= zero_message());
}

/// Every message has `ENTRIES_PER_MESSAGE` slots; the first `batch_len` of
/// them carry requests, and each slot after those is zero. Every message but
/// the last is full, and the last carries a request unless there is none.
pub proof fn lemma_unused_slots_are_zero(requests: Seq<RemovemappingOne>, b: int, k: int)
    requires
        0 <= b < unmap_messages(requests).len(),
        batch_len(requests.len(), b) <= k < ENTRIES_PER_MESSAGE,
    ensures
        unmap_messages(requests)[b].len() == ENTRIES_PER_MESSAGE,
        unmap_messages(requests)[b][k] == Slot::zero(),
        b < unmap_messages(requests).len() - 1 ==> batch_len(requests.len(), b)
            == ENTRIES_PER_MESSAGE,
        requests.len() >= 1 ==> batch_len(requests.len(), b) >= 1,
{
}

/// Request `i` travels in message `i / C`, in slot `i % C`, with its offset
/// and length as they came.
pub proof fn lemma_request_position(requests: Seq<RemovemappingOne>, i: int)
    requires
        0 <= i < requests.len(),
    ensures
        0 <= i / (ENTRIES_PER_MESSAGE as int) < unmap_messages(requests).len(),
        i % (ENTRIES_PER_MESSAGE as int) < batch_len(
            requests.len(),
            i / (ENTRIES_PER_MESSAGE as int),
        ),
        unmap_messages(requests)[i / (ENTRIES_PER_MESSAGE as int)][i % (ENTRIES_PER_MESSAGE as int)]
            == request_slot(requests[i]),
{
}

/// The requests keep their order: an earlier request travels in an earlier
/// message than a later one, or in the same message in an earlier slot.
pub proof fn lemma_order_is_kept(requests: Seq<RemovemappingOne>, i: int, j: int)
    requires
        0 <= i < j < requests.len(),
    ensures
        i / (ENTRIES_PER_MESSAGE as int) <= j / (ENTRIES_PER_MESSAGE as int),
        i / (ENTRIES_PER_MESSAGE as int) == j / (ENTRIES_PER_MESSAGE as int) ==> i % (
        ENTRIES_PER_MESSAGE as int) < j % (ENTRIES_PER_MESSAGE as int),
        unmap_messages(requests)[i / (ENTRIES_PER_MESSAGE as int)][i % (ENTRIES_PER_MESSAGE as int)]
            == request_slot(requests[i]),
        unmap_messages(requests)[j / (ENTRIES_PER_MESSAGE as int)][j % (ENTRIES_PER_MESSAGE as int)]
            == request_slot(requests[j]),
{
    lemma_request_position(requests, i);
    lemma_request_position(requests, j);
}

/// What the caller does next.
pub enum UnmapAction {
    /// Send this message, then report the outcome to `UnmapRun::step`.
    Dispatch(WireMessage),
    /// Stop: this is the result of the whole removal.
    Finished(Result<(), TransportFailure>),
}

/// The progress of one removal call.
pub struct UnmapRun {
    requests: Vec<RemovemappingOne>,
    /// Position of the next request to place.
    next: usize,
    /// The slot written last; 0 before the first request.
    cursor: usize,
    /// Whether the decision after the last request has been taken.
    closed: bool,
}

impl UnmapRun {
    /// The requests of this call.
    pub closed spec fn requests(&self) -> Seq<RemovemappingOne> {
        self.requests@
    }

    /// How many messages have been handed out for sending.
    pub closed spec fn dispatched(&self) -> nat {
        if self.closed {
            unmap_message_count(self.requests@.len())
        } else {
            (self.next as int / ENTRIES_PER_MESSAGE as int) as nat
        }
    }

    /// The invariant of a run between two steps.
    pub closed spec fn wf(&self) -> bool {
        &&& self.next <= self.requests@.len()
        &&& self.cursor == (if self.next == 0 {
            0
        } else {
            (self.next - 1) % (ENTRIES_PER_MESSAGE as int)
        })
        &&& !self.closed ==> self.next as int % (ENTRIES_PER_MESSAGE as int) == 0
        &&& self.closed ==> self.next == self.requests@.len()
    }

    /// A run over `requests` that has handed out nothing yet.
    pub fn new(requests: Vec<RemovemappingOne>) -> (run: UnmapRun)
        ensures
            run.wf(),
            run.requests() == requests@,
            run.dispatched() == 0,
    {
        UnmapRun { requests, next: 0, cursor: 0, closed: false }
    }

    /// The first action of a run, and the action after a send that went
    /// well: the next message if one is left, else the end with success. A
    /// run over no request at all still sends one message, with every slot
    /// zero.
    pub fn begin(&mut self) -> (action: UnmapAction)
        requires
            old(self).wf(),
        ensures
            final(self).wf(),
            final(self).requests() == old(self).requests(),
            old(self).dispatched() <= unmap_message_count(old(self).requests().len()),
            old(self).dispatched() < unmap_message_count(old(self).requests().len()) ==> {
                &&& action matches UnmapAction::Dispatch(m)
                &&& m@ == unmap_messages(old(self).requests())[old(self).dispatched() as int]
                &&& final(self).dispatched() == old(self).dispatched() + 1
            },
            old(self).dispatched() == unmap_message_count(old(self).requests().len()) ==> {
                &&& action == UnmapAction::Finished(Ok(()))
                &&& final(self).dispatched() == old(self).dispatched()
            },
    {
        match self.next_message() {
            Some(msg) => UnmapAction::Dispatch(msg),
            None => UnmapAction::Finished(Ok(())),
        }
    }

    /// The action after a send, given its outcome. A failure ends the run
    /// at once with that failure, and the requests not yet sent stay unsent;
    /// what was sent before is not taken back. After a success the run goes
    /// on as `begin` says.
    pub fn step(&mut self, outcome: Result<(), TransportFailure>) -> (action: UnmapAction)
        requires
            old(self).wf(),
        ensures
            final(self).wf(),
            final(self).requests() == old(self).requests(),
            old(self).dispatched() <= unmap_message_count(old(self).requests().len()),
            outcome is Err ==> {
                &&& action == UnmapAction::Finished(outcome)
                &&& final(self).dispatched() == old(self).dispatched()
            },
            outcome is Ok && old(self).dispatched() < unmap_message_count(
                old(self).requests().len(),
            ) ==> {
                &&& action matches UnmapAction::Dispatch(m)
                &&& m@ == unmap_messages(old(self).requests())[old(self).dispatched() as int]
                &&& final(self).dispatched() == old(self).dispatched() + 1
            },
            outcome is Ok && old(self).dispatched() == unmap_message_count(
                old(self).requests().len(),
            ) ==> {
                &&& action == UnmapAction::Finished(Ok(()))
                &&& final(self).dispatched() == old(self).dispatched()
            },
    {
        match outcome {
            Err(failure) => {
                proof {
                    self.lemma_dispatched_bound();
                }
                UnmapAction::Finished(Err(failure))
            },
            Ok(()) => self.begin(),
        }
    }

    /// A run never hands out more messages than its requests take.
    proof fn lemma_dispatched_bound(&self)
        requires
            self.wf(),
        ensures
            self.dispatched() <= unmap_message_count(self.requests().len()),
    {
    }

    /// Fills a fresh message from the next request on and hands it out when
    /// its last slot is written, or when the requests end before that. After
    /// the last message there is nothing more.
    fn next_message(&mut self) -> (out: Option<WireMessage>)
        requires
            old(self).wf(),
        ensures
            final(self).wf(),
            final(self).requests() == old(self).requests(),
            old(self).dispatched() <= unmap_message_count(old(self).requests().len()),
            old(self).dispatched() < unmap_message_count(old(self).requests().len()) ==> {
                &&& out matches Some(m)
                &&& m@ == unmap_messages(old(self).requests())[old(self).dispatched() as int]
                &&& final(self).dispatched() == old(self).dispatched() + 1
            },
            old(self).dispatched() == unmap_message_count(old(self).requests().len()) ==> {
                &&& out is None
                &&& final(self).dispatched() == old(self).dispatched()
            },
    {
        let c: usize = protocol_entries();
        let n: usize = self.requests.len();
        let ghost reqs = self.requests@;
        let ghost k: int = self.next as int / (ENTRIES_PER_MESSAGE as int);
        let ghost base: int = self.next as int;
        if self.closed {
            return None;
        }
        let mut msg = WireMessage::new();
        while self.next < n
            invariant
                c == ENTRIES_PER_MESSAGE,
                n == reqs.len(),
                self.requests@ == reqs,
                old(self).requests@ == reqs,
                old(self).next == base,
                !old(self).closed,
                !self.closed,
                base == k * (ENTRIES_PER_MESSAGE as int),
                base <= self.next <= n,
                self.next - base < c,
                self.cursor == (if self.next == 0 {
                    0
                } else {
                    (self.next - 1) % (c as int)
                }),
                forall|j: int|
                    0 <= j < c ==> #[trigger] msg@[j] == (if base + j < self.next {
                        removal_slot(reqs, base + j)
                    } else {
                        Slot::zero()
                    }),
            decreases n - self.next,
        {
            let i: usize = self.next % c;
            let req: RemovemappingOne = self.requests[self.next];
            msg.set_removal(i, req.moffset, req.len);
            self.cursor = i;
            self.next = self.next + 1;
            if i == c - 1 {
                proof {
                    assert(msg@ =~= unmap_message(reqs, k));
                }
                return Some(msg);
            }
        }
        self.closed = true;
        if self.cursor < c - 1 {
            proof {
                assert(msg@ =~= unmap_message(reqs, k));
            }
            Some(msg)
        } else {
            None
        }
    }
}

} // verus!
