//! The findings pipeline: one bounded buffer between all rule
//! evaluations and the consumer that drains findings to the sinks.
//! The buffer is the sole serialization point, so the drained stream
//! carries a total order; the consumer hands each finding to every
//! sink in that order (fan-out, not partition). When
//! the buffer is full a send reports `WouldBlock` and changes
//! nothing: the embedding program parks the producer until a consumer
//! frees a slot, so overload becomes backpressure, never loss. After
//! `close`, new findings are refused explicitly while what remains
//! can still be drained.

use vstd::prelude::*;
use crate::types::Finding;

verus! {

/// Mathematical state of the pipeline. `accepted` is every finding
/// ever taken in, `delivered` every finding handed out, in order.
pub struct PipeModel {
    pub buf: Seq<Finding>,
    pub cap: nat,
    pub closed: bool,
    pub accepted: Seq<Finding>,
    pub delivered: Seq<Finding>,
}

impl PipeModel {
    /// Nothing accepted is ever lost or reordered: what was handed
    /// out followed by what still waits is exactly what came in.
    pub open spec fn wf(self) -> bool {
        self.cap >= 1 && self.buf.len() <= self.cap && self.accepted == self.delivered + self.buf
    }
}

/// Outcome of offering one finding to the pipeline.
#[derive(Clone, Copy, PartialEq, Eq, Structural, Debug)]
pub enum SendOutcome {
    Sent,
    WouldBlock,
    Closed,
}

/// One send step: refused after closure, blocked at capacity,
/// otherwise appended.
pub open spec fn model_send(m: PipeModel, f: Finding) -> (PipeModel, SendOutcome) {
    if m.closed {
        (m, SendOutcome::Closed)
    } else if m.buf.len() == m.cap {
        (m, SendOutcome::WouldBlock)
    } else {
        (
            PipeModel {
                buf: m.buf.push(f),
                cap: m.cap,
                closed: m.closed,
                accepted: m.accepted.push(f),
                delivered: m.delivered,
            },
            SendOutcome::Sent,
        )
    }
}

/// One receive step: the oldest waiting finding, if any.
pub open spec fn model_recv(m: PipeModel) -> (PipeModel, Option<Finding>) {
    if m.buf.len() == 0 {
        (m, None)
    } else {
        (
            PipeModel {
                buf: m.buf.drop_first(),
                cap: m.cap,
                closed: m.closed,
                accepted: m.accepted,
                delivered: m.delivered.push(m.buf[0]),
            },
            Some(m.buf[0]),
        )
    }
}

/// Closing stops intake and keeps the rest for draining.
pub open spec fn model_close(m: PipeModel) -> PipeModel {
    PipeModel {
        buf: m.buf,
        cap: m.cap,
        closed: true,
        accepted: m.accepted,
        delivered: m.delivered,
    }
}

/// The bounded, backpressured findings buffer.
pub struct FindingsPipeline {
    buf: Vec<Finding>,
    cap: usize,
    closed: bool,
    accepted: Ghost<Seq<Finding>>,
    delivered: Ghost<Seq<Finding>>,
}

impl View for FindingsPipeline {
    type V = PipeModel;

    closed spec fn view(&self) -> PipeModel {
        PipeModel {
            buf: self.buf@,
            cap: self.cap as nat,
            closed: self.closed,
            accepted: self.accepted@,
            delivered: self.delivered@,
        }
    }
}

impl FindingsPipeline {
    pub open spec fn wf(self) -> bool {
        self@.wf()
    }

    /// An open pipeline with the given capacity and nothing buffered.
    pub fn new(capacity: usize) -> (p: FindingsPipeline)
        requires
            capacity >= 1,
        ensures
            p.wf(),
            p@.cap == capacity,
            p@.buf.len() == 0,
            !p@.closed,
            p@.accepted == Seq::<Finding>::empty(),
            p@.delivered == Seq::<Finding>::empty(),
    {
        let p = FindingsPipeline {
            buf: Vec::new(),
            cap: capacity,
            closed: false,
            accepted: Ghost(Seq::empty()),
            delivered: Ghost(Seq::empty()),
        };
        proof {
            assert(p@.accepted =~= p@.delivered + p@.buf);
        }
        p
    }

    /// Offers one finding. A full buffer blocks the producer (the
    /// caller parks and retries after a receive); a closed pipeline
    /// tells the producer explicitly instead of discarding.
    pub fn try_send(&mut self, f: Finding) -> (r: SendOutcome)
        requires
            old(self).wf(),
        ensures
            final(self).wf(),
            ({
                let (m2, r2) = model_send(old(self)@, f);
                final(self)@ == m2 && r == r2
            }),
    {
        if self.closed {
            SendOutcome::Closed
        } else if self.buf.len() == self.cap {
            SendOutcome::WouldBlock
        } else {
            let ghost gf = f;
            self.buf.push(f);
            proof {
                self.accepted@ = self.accepted@.push(gf);
            }
            SendOutcome::Sent
        }
    }

    /// Hands out the oldest waiting finding, if any.
    pub fn recv(&mut self) -> (r: Option<Finding>)
        requires
            old(self).wf(),
        ensures
            final(self).wf(),
            ({
                let (m2, r2) = model_recv(old(self)@);
                final(self)@ == m2 && r == r2
            }),
    {
        if self.buf.len() == 0 {
            None
        } else {
            let x = self.buf.remove(0);
            proof {
                self.delivered@ = self.delivered@.push(x);
                assert(old(self)@.buf.remove(0) =~= old(self)@.buf.drop_first());
                assert(self@.accepted =~= self@.delivered + self@.buf);
            }
            Some(x)
        }
    }

    /// Stops intake; what is buffered stays available for draining.
    pub fn close(&mut self)
        requires
            old(self).wf(),
        ensures
            final(self).wf(),
            final(self)@ == model_close(old(self)@),
    {
        self.closed = true;
    }

    /// Number of findings waiting in the buffer.
    pub fn len(&self) -> (r: usize)
        ensures
            r == self@.buf.len(),
    {
        self.buf.len()
    }

    pub fn is_closed(&self) -> (r: bool)
        ensures
            r == self@.closed,
    {
        self.closed
    }

    pub fn capacity(&self) -> (r: usize)
        ensures
            r == self@.cap,
    {
        self.cap
    }
}

/// Filling the buffer to capacity blocks the next producer; one
/// receive unblocks it at once, and across the whole sequence no
/// finding is lost or reordered: delivered followed by waiting is
/// exactly what was accepted.
pub proof fn lemma_backpressure_and_no_loss(m: PipeModel, f: Finding, g: Finding)
    requires
        m.wf(),
        !m.closed,
        m.buf.len() == m.cap,
    ensures
        ({
            let (m1, r1) = model_send(m, f);
            let (m2, d) = model_recv(m1);
            let (m3, r3) = model_send(m2, g);
            &&& r1 == SendOutcome::WouldBlock
            &&& m1 == m
            &&& d == Some(m.buf[0])
            &&& r3 == SendOutcome::Sent
            &&& m3.wf()
            &&& m3.accepted == m.accepted.push(g)
            &&& m3.delivered + m3.buf == m3.accepted
        }),
{
    let (m1, r1) = model_send(m, f);
    let (m2, d) = model_recv(m1);
    let (m3, r3) = model_send(m2, g);
    assert(m3.accepted =~= m3.delivered + m3.buf);
    assert(m3.accepted =~= m.accepted.push(g));
}

} // verus!
