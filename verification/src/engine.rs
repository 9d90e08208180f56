//! The chunk transfer engine: the decision core of both transfer
//! directions.
//!
//! The engines hold no socket. A driver performs the transmissions
//! and waits, and reports each outcome back as an event; the engines
//! decide what is sent next, when a transfer is complete, and when it
//! aborts. The send path delivers one chunk at a time, each with at
//! most [`CHUNK_RETRY_LIMIT`] attempts; any reply datagram within the
//! timeout counts as the acknowledgement of the chunk in flight,
//! whatever index it carries — correlation is by turn-taking, not by
//! content. The receive path appends each arriving chunk's payload in
//! order and acknowledges it by index.

use vstd::prelude::*;

use crate::chunks::{chunk_file, spec_chunks, spec_num_chunks, views_of};
use crate::packet::{FilePacket, ResponseFilePacket};
use crate::proto::{FtpStatusCode, CHUNK_RETRY_LIMIT};

verus! {

/// Progress of one send-path transfer.
#[derive(Clone, Copy, Debug, PartialEq, Eq, Structural)]
pub enum SendStatus {
    /// A chunk is in flight.
    InProgress,
    /// The chunk with the last flag has been acknowledged.
    Done,
    /// The retry budget of one chunk was exhausted.
    Aborted,
}

/// Drives the send path of one transfer over the chunk sequence of
/// one file.
pub struct SendEngine {
    pub chunks: Vec<FilePacket>,
    /// Position of the chunk currently in flight.
    pub pos: usize,
    /// Failed delivery attempts of the chunk in flight.
    pub attempts: usize,
    pub status: SendStatus,
}

/// The engine after an acknowledgement datagram arrived in time: the
/// chunk in flight counts as delivered and the next one goes in
/// flight, or the transfer is done.
pub open spec fn spec_on_reply(e: SendEngine) -> SendEngine {
    SendEngine {
        chunks: e.chunks,
        pos: (e.pos + 1) as usize,
        attempts: 0,
        status: if e.pos + 1 == e.chunks@.len() {
            SendStatus::Done
        } else {
            SendStatus::InProgress
        },
    }
}

/// The engine after the wait for an acknowledgement timed out: one
/// more failed attempt, aborting once the budget is exhausted.
pub open spec fn spec_on_timeout(e: SendEngine) -> SendEngine {
    SendEngine {
        chunks: e.chunks,
        pos: e.pos,
        attempts: (e.attempts + 1) as usize,
        status: if e.attempts + 1 >= CHUNK_RETRY_LIMIT {
            SendStatus::Aborted
        } else {
            SendStatus::InProgress
        },
    }
}

/// The engine after `k` consecutive timeouts.
pub open spec fn spec_timeouts(e: SendEngine, k: nat) -> SendEngine
    decreases k,
{
    if k == 0 {
        e
    } else {
        spec_on_timeout(spec_timeouts(e, (k - 1) as nat))
    }
}

impl SendEngine {
    /// The engine never leaves these bounds; while a chunk is in
    /// flight its position is valid and some retry budget remains.
    pub open spec fn wf(self) -> bool {
        &&& self.chunks@.len() >= 1
        &&& self.pos <= self.chunks@.len()
        &&& self.attempts <= CHUNK_RETRY_LIMIT
        &&& (self.status is InProgress ==> self.pos < self.chunks@.len() && self.attempts
            < CHUNK_RETRY_LIMIT)
    }

    /// Starts a transfer for an already-cut chunk sequence.
    pub fn new(chunks: Vec<FilePacket>) -> (r: Self)
        requires
            chunks@.len() >= 1,
        ensures
            r == (SendEngine { chunks, pos: 0, attempts: 0, status: SendStatus::InProgress }),
            r.wf(),
    {
        Self { chunks, pos: 0, attempts: 0, status: SendStatus::InProgress }
    }

    /// Starts a transfer of the given file content.
    pub fn for_content(content: &Vec<u8>) -> (r: Self)
        ensures
            views_of(r.chunks@) == spec_chunks(content@),
            r.chunks@.len() == spec_num_chunks(content@.len() as int),
            r.pos == 0,
            r.attempts == 0,
            r.status is InProgress,
            r.wf(),
    {
        Self::new(chunk_file(content))
    }

    /// The chunk in flight, to be transmitted on each attempt.
    pub fn current(&self) -> (r: &FilePacket)
        requires
            self.wf(),
            self.status is InProgress,
        ensures
            r == self.chunks@[self.pos as int],
    {
        &self.chunks[self.pos]
    }

    /// Some reply datagram arrived within the timeout. The chunk in
    /// flight counts as delivered, whatever the reply carried.
    pub fn on_reply(&mut self)
        requires
            old(self).wf(),
            old(self).status is InProgress,
        ensures
            *final(self) == spec_on_reply(*old(self)),
            final(self).wf(),
    {
        let n: usize = self.chunks.len();
        self.pos = self.pos + 1;
        self.attempts = 0;
        if self.pos == n {
            self.status = SendStatus::Done;
        }
    }

    /// No reply arrived within the timeout.
    pub fn on_timeout(&mut self)
        requires
            old(self).wf(),
            old(self).status is InProgress,
        ensures
            *final(self) == spec_on_timeout(*old(self)),
            final(self).wf(),
    {
        self.attempts = self.attempts + 1;
        if self.attempts >= CHUNK_RETRY_LIMIT {
            self.status = SendStatus::Aborted;
        }
    }
}

/// Retry bound of the send path: when every datagram is lost, a chunk
/// whose delivery has begun is attempted exactly [`CHUNK_RETRY_LIMIT`]
/// times — each timeout below the budget leaves the chunk in flight,
/// and the final one aborts the transfer without advancing to any
/// further chunk. An aborted engine accepts no further events, so
/// nothing is sent after the abort.
pub proof fn lemma_retry_bound(e: SendEngine, k: nat)
    requires
        e.wf(),
        e.status is InProgress,
        e.attempts == 0,
        k <= CHUNK_RETRY_LIMIT,
    ensures
        spec_timeouts(e, k).chunks == e.chunks,
        spec_timeouts(e, k).pos == e.pos,
        spec_timeouts(e, k).attempts == k,
        spec_timeouts(e, k).wf(),
        k < CHUNK_RETRY_LIMIT ==> spec_timeouts(e, k).status is InProgress,
        k == CHUNK_RETRY_LIMIT ==> spec_timeouts(e, k).status is Aborted,
    decreases k,
{
    if k > 0 {
        lemma_retry_bound(e, (k - 1) as nat);
    }
}

/// Drives the receive path of one transfer: chunks are expected in
/// order and complete, each is acknowledged on arrival, and the
/// transfer ends with the chunk that carries the last flag.
pub struct ReceiveEngine {
    /// The bytes of the destination file written so far.
    pub written: Vec<u8>,
    /// Whether the chunk with the last flag has been processed.
    pub done: bool,
}

impl ReceiveEngine {
    /// Starts an empty receive transfer.
    pub fn new() -> (r: Self)
        ensures
            r.written@ == Seq::<u8>::empty(),
            !r.done,
    {
        let r = Self { written: Vec::new(), done: false };
        proof {
            assert(r.written@ =~= Seq::<u8>::empty());
        }
        r
    }

    /// Processes one arrived chunk: its payload is appended to the
    /// destination bytes, and the acknowledgement to send back is
    /// returned. The transfer is done exactly when the chunk carried
    /// the last flag.
    pub fn on_chunk(&mut self, p: &FilePacket) -> (ack: ResponseFilePacket)
        requires
            !old(self).done,
            p@.wf(),
        ensures
            final(self).written@ == old(self).written@ + p@.payload(),
            final(self).done == p.is_last,
            ack == (ResponseFilePacket { status: FtpStatusCode::Okay, index: p.index }),
    {
        let mut j: usize = 0;
        while j < p.data_size
            invariant
                p@.wf(),
                j <= p.data_size,
                self.written@ == old(self).written@ + p@.data.take(j as int),
                self.done == old(self).done,
            decreases p.data_size - j,
        {
            self.written.push(p.data[j]);
            proof {
                assert(old(self).written@ + p@.data.take(j + 1) =~= (old(self).written@
                    + p@.data.take(j as int)).push(p@.data[j as int]));
            }
            j = j + 1;
        }
        self.done = p.is_last;
        ResponseFilePacket { status: FtpStatusCode::Okay, index: p.index }
    }
}

} // verus!
