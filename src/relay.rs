//! One direction of a full-duplex byte relay.
//!
//! A `Pipe` decides what a copy loop does next: read a chunk from its
//! source, write the bytes not yet written to its sink, or stop. The caller
//! performs each read and write and reports how it went. Bytes leave the
//! pipe in the order in which they came in, none lost and none repeated,
//! also when the sink takes a chunk in several short writes.
use vstd::prelude::*;

verus! {

/// Size of the buffer that each copy loop reads into.
pub const BUFFER_SIZE: usize = 1024;

/// Where a copy loop stands.
#[derive(Clone, Copy, Debug, PartialEq, Eq, Structural)]
pub enum Phase {
    /// Copying: more reads or writes follow.
    Relaying,
    /// The source reached end-of-stream.
    ClosedClean,
    /// Stopped from outside while still copying.
    Cancelled,
    /// A read or a write failed.
    ClosedError,
}

/// What a read from the source gave.
#[derive(Debug)]
pub enum ReadOutcome {
    /// These bytes; an empty chunk is end-of-stream.
    Data(Vec<u8>),
    /// The source is exhausted.
    EndOfStream,
    /// The read failed.
    Failed,
}

/// What a write to the sink gave.
#[derive(Clone, Copy, Debug, PartialEq, Eq, Structural)]
pub enum WriteOutcome {
    /// The sink took this many bytes from the front of the pending ones.
    Wrote(usize),
    /// The write failed.
    Failed,
}

/// The next step of a copy loop.
#[derive(Clone, Copy, Debug, PartialEq, Eq, Structural)]
pub enum Action {
    /// Read a chunk of at most `BUFFER_SIZE` bytes from the source.
    Read,
    /// Write the pending bytes to the sink.
    Write,
    /// The loop is over.
    Stop,
}

/// A copy loop failed after the connection was established.
#[derive(Clone, Copy, Debug, PartialEq, Eq, Structural)]
pub struct StreamError;

/// State of one copy loop.
pub struct Pipe {
    phase: Phase,
    pending: Vec<u8>,
    received: Ghost<Seq<u8>>,
    delivered: Ghost<Seq<u8>>,
}

impl Pipe {
    /// Where the loop stands.
    pub closed spec fn phase_of(&self) -> Phase {
        self.phase
    }

    /// Bytes read from the source but not yet taken by the sink.
    pub closed spec fn pending_of(&self) -> Seq<u8> {
        self.pending@
    }

    /// Every byte read from the source so far, in order.
    pub closed spec fn received(&self) -> Seq<u8> {
        self.received@
    }

    /// Every byte the sink has taken so far, in order.
    pub closed spec fn delivered(&self) -> Seq<u8> {
        self.delivered@
    }

    /// What was delivered is a prefix of what was received. While copying,
    /// delivered and pending bytes together are exactly what was received;
    /// after end-of-stream everything received was delivered; a closed loop
    /// holds nothing pending.
    pub closed spec fn wf(&self) -> bool {
        &&& self.delivered@.len() <= self.received@.len()
        &&& self.delivered@ == self.received@.subrange(0, self.delivered@.len() as int)
        &&& self.phase == Phase::Relaying ==> self.delivered@ + self.pending@ == self.received@
        &&& self.phase == Phase::ClosedClean ==> self.delivered@ == self.received@
        &&& self.phase != Phase::Relaying ==> self.pending@.len() == 0
    }

    /// What the loop does next, as a function of its state.
    pub open spec fn action_of(&self) -> Action {
        if self.phase_of() != Phase::Relaying {
            Action::Stop
        } else if self.pending_of().len() == 0 {
            Action::Read
        } else {
            Action::Write
        }
    }

    /// A loop that has copied nothing yet.
    pub fn new() -> (r: Pipe)
        ensures
            r.wf(),
            r.phase_of() == Phase::Relaying,
            r.pending_of() == Seq::<u8>::empty(),
            r.received() == Seq::<u8>::empty(),
            r.delivered() == Seq::<u8>::empty(),
    {
        let r = Pipe {
            phase: Phase::Relaying,
            pending: Vec::new(),
            received: Ghost(Seq::empty()),
            delivered: Ghost(Seq::empty()),
        };
        assert(r.delivered@ + r.pending@ =~= r.received@);
        assert(r.received@.subrange(0, 0) =~= r.delivered@);
        r
    }

    /// Where the loop stands.
    pub fn phase(&self) -> (r: Phase)
        ensures
            r == self.phase_of(),
    {
        self.phase
    }

    /// The bytes the next write hands to the sink.
    pub fn pending(&self) -> (r: &Vec<u8>)
        ensures
            r@ == self.pending_of(),
    {
        &self.pending
    }

    /// The next step: `Stop` once closed, `Read` while nothing is pending,
    /// `Write` otherwise.
    pub fn next_action(&self) -> (r: Action)
        ensures
            r == self.action_of(),
    {
        if self.phase != Phase::Relaying {
            Action::Stop
        } else if self.pending.len() == 0 {
            Action::Read
        } else {
            Action::Write
        }
    }

    /// `None` while copying; `Ok` after end-of-stream or cancellation; the
    /// stream error after a failed read or write.
    pub fn outcome(&self) -> (r: Option<Result<(), StreamError>>)
        ensures
            self.phase_of() == Phase::Relaying <==> r is None,
            (self.phase_of() == Phase::ClosedClean || self.phase_of() == Phase::Cancelled) <==> r
                == Some(Ok::<(), StreamError>(())),
            self.phase_of() == Phase::ClosedError <==> r == Some(Err::<(), StreamError>(StreamError)),
    {
        match self.phase {
            Phase::Relaying => None,
            Phase::ClosedClean => Some(Ok(())),
            Phase::Cancelled => Some(Ok(())),
            Phase::ClosedError => Some(Err(StreamError)),
        }
    }

    /// Takes the result of the read that `Read` asked for. Bytes become
    /// pending; an empty chunk or end-of-stream closes the loop cleanly; a
    /// failed read closes it with an error.
    pub fn on_read(&mut self, outcome: ReadOutcome)
        requires
            old(self).wf(),
            old(self).action_of() == Action::Read,
        ensures
            final(self).wf(),
            final(self).delivered() == old(self).delivered(),
            match outcome {
                ReadOutcome::Data(d) => if d@.len() > 0 {
                    &&& final(self).phase_of() == Phase::Relaying
                    &&& final(self).pending_of() == d@
                    &&& final(self).received() == old(self).received() + d@
                } else {
                    &&& final(self).phase_of() == Phase::ClosedClean
                    &&& final(self).received() == old(self).received()
                },
                ReadOutcome::EndOfStream => {
                    &&& final(self).phase_of() == Phase::ClosedClean
                    &&& final(self).action_of() == Action::Stop
                    &&& final(self).received() == old(self).received()
                },
                ReadOutcome::Failed => {
                    &&& final(self).phase_of() == Phase::ClosedError
                    &&& final(self).received() == old(self).received()
                },
            },
    {
        match outcome {
            ReadOutcome::Data(d) => {
                if d.len() > 0 {
                    proof {
                        self.received@ = self.received@ + d@;
                        assert(self.delivered@ + d@ =~= self.received@);
                        assert(self.received@.subrange(0, self.delivered@.len() as int)
                            =~= self.delivered@);
                    }
                    self.pending = d;
                } else {
                    proof {
                        assert(self.delivered@ + self.pending@ =~= self.delivered@);
                    }
                    self.phase = Phase::ClosedClean;
                }
            },
            ReadOutcome::EndOfStream => {
                proof {
                    assert(self.delivered@ + self.pending@ =~= self.delivered@);
                }
                self.phase = Phase::ClosedClean;
            },
            ReadOutcome::Failed => {
                self.phase = Phase::ClosedError;
            },
        }
    }

    /// Takes the result of the write that `Write` asked for. A write of
    /// `n > 0` bytes delivers the first `n` pending ones and keeps the rest
    /// pending; a write of no bytes, or a failed write, closes the loop with
    /// an error and drops what was pending.
    pub fn on_write(&mut self, outcome: WriteOutcome)
        requires
            old(self).wf(),
            old(self).action_of() == Action::Write,
            outcome matches WriteOutcome::Wrote(n) ==> n <= old(self).pending_of().len(),
        ensures
            final(self).wf(),
            final(self).received() == old(self).received(),
            match outcome {
                WriteOutcome::Wrote(n) => if n > 0 {
                    &&& final(self).phase_of() == Phase::Relaying
                    &&& final(self).delivered() == old(self).delivered()
                        + old(self).pending_of().subrange(0, n as int)
                    &&& final(self).pending_of() == old(self).pending_of().subrange(
                        n as int,
                        old(self).pending_of().len() as int,
                    )
                } else {
                    &&& final(self).phase_of() == Phase::ClosedError
                    &&& final(self).delivered() == old(self).delivered()
                },
                WriteOutcome::Failed => {
                    &&& final(self).phase_of() == Phase::ClosedError
                    &&& final(self).delivered() == old(self).delivered()
                },
            },
    {
        match outcome {
            WriteOutcome::Wrote(n) => {
                if n > 0 {
                    let ghost before = self.pending@;
                    let mut rest: Vec<u8> = Vec::new();
                    let mut i: usize = n;
                    while i < self.pending.len()
                        invariant
                            n <= i <= self.pending@.len(),
                            self.pending@ == before,
                            rest@ == before.subrange(n as int, i as int),
                        decreases self.pending@.len() - i,
                    {
                        rest.push(self.pending[i]);
                        i = i + 1;
                        assert(rest@ =~= before.subrange(n as int, i as int));
                    }
                    proof {
                        self.delivered@ = self.delivered@ + before.subrange(0, n as int);
                        assert(before =~= before.subrange(0, n as int) + rest@);
                        assert(self.delivered@ + rest@ =~= self.received@);
                        assert(self.received@.subrange(0, self.delivered@.len() as int)
                            =~= self.delivered@);
                    }
                    self.pending = rest;
                } else {
                    self.drop_pending(Phase::ClosedError);
                }
            },
            WriteOutcome::Failed => {
                self.drop_pending(Phase::ClosedError);
            },
        }
    }

    /// Stops a loop that is still copying (its counterpart finished first);
    /// bytes not yet written are dropped. A closed loop stays as it is.
    pub fn cancel(&mut self)
        requires
            old(self).wf(),
        ensures
            final(self).wf(),
            final(self).action_of() == Action::Stop,
            final(self).delivered() == old(self).delivered(),
            final(self).received() == old(self).received(),
            old(self).phase_of() == Phase::Relaying ==> final(self).phase_of()
                == Phase::Cancelled,
            old(self).phase_of() != Phase::Relaying ==> final(self).phase_of()
                == old(self).phase_of(),
    {
        if self.phase == Phase::Relaying {
            self.drop_pending(Phase::Cancelled);
        }
    }

    fn drop_pending(&mut self, phase: Phase)
        requires
            old(self).wf(),
            phase == Phase::ClosedError || phase == Phase::Cancelled,
        ensures
            final(self).wf(),
            final(self).phase_of() == phase,
            final(self).delivered() == old(self).delivered(),
            final(self).received() == old(self).received(),
    {
        self.phase = phase;
        self.pending = Vec::new();
    }
}

/// Round trip: whatever the source gave before a clean end-of-stream has
/// reached the sink, in order and byte for byte.
pub proof fn lemma_clean_close_delivers_everything(p: Pipe)
    requires
        p.wf(),
        p.phase_of() == Phase::ClosedClean,
    ensures
        p.delivered() == p.received(),
{
}

/// At every step the bytes delivered are a prefix of the bytes received:
/// nothing is reordered, repeated or invented.
pub proof fn lemma_delivered_is_prefix(p: Pipe)
    requires
        p.wf(),
    ensures
        p.delivered().len() <= p.received().len(),
        p.delivered() == p.received().subrange(0, p.delivered().len() as int),
{
}

} // verus!
