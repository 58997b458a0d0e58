//! The two copy directions of a relayed connection and their half-close.
use vstd::prelude::*;

verus! {

/// Size of the buffer each copy direction reads into.
pub const RELAY_BUFFER_BYTES: usize = 8192;

/// What one read of a copy direction produced.
#[derive(Debug, Clone, Copy, PartialEq, Eq, Structural)]
pub enum ReadOutcome {
    /// This many bytes (more than zero) arrived.
    Data(usize),
    /// The peer closed its sending side.
    Eof,
    /// The read failed.
    Error,
}

/// What a copy direction must do next.
#[derive(Debug, Clone, Copy, PartialEq, Eq, Structural)]
pub enum CopyAction {
    /// Write the bytes just read, all of them, to the other side.
    Write(usize),
    /// Read again.
    Read,
    /// Shut down the write half of the other side.
    Shutdown,
    /// Nothing: this direction has finished.
    Idle,
}

/// One direction of a relay: reads from one side and writes to the other until the
/// reading side ends or an I/O error occurs, then half-closes the other side once.
pub struct CopyDirection {
    finished: bool,
    shutdowns: usize,
}

impl CopyDirection {
    pub closed spec fn finished(&self) -> bool {
        self.finished
    }

    /// How many times this direction has asked for the write half to be shut down.
    pub closed spec fn shutdowns(&self) -> nat {
        self.shutdowns as nat
    }

    /// A direction has asked for a shutdown exactly when it has finished, and once.
    pub closed spec fn wf(&self) -> bool {
        self.shutdowns == if self.finished {
            1usize
        } else {
            0usize
        }
    }

    pub fn new() -> (r: CopyDirection)
        ensures
            r.wf(),
            !r.finished(),
            r.shutdowns() == 0,
    {
        CopyDirection { finished: false, shutdowns: 0 }
    }

    pub fn is_finished(&self) -> (r: bool)
        ensures
            r == self.finished(),
    {
        self.finished
    }

    fn finish(&mut self) -> (r: CopyAction)
        requires
            old(self).wf(),
        ensures
            final(self).wf(),
            final(self).finished(),
            old(self).finished() ==> r == CopyAction::Idle && final(self).shutdowns() == old(
                self,
            ).shutdowns(),
            !old(self).finished() ==> r == CopyAction::Shutdown && final(self).shutdowns() == 1,
    {
        if self.finished {
            CopyAction::Idle
        } else {
            self.finished = true;
            self.shutdowns = 1;
            CopyAction::Shutdown
        }
    }

    /// Takes the outcome of a read: data is written on, while the end of the stream or
    /// an error finishes the direction.
    pub fn on_read(&mut self, outcome: ReadOutcome) -> (r: CopyAction)
        requires
            old(self).wf(),
        ensures
            final(self).wf(),
            old(self).finished() ==> r == CopyAction::Idle && final(self).finished()
                && final(self).shutdowns() == old(self).shutdowns(),
            !old(self).finished() ==> match outcome {
                ReadOutcome::Data(n) => if n > 0 {
                    r == CopyAction::Write(n) && !final(self).finished()
                        && final(self).shutdowns() == 0
                } else {
                    r == CopyAction::Shutdown && final(self).finished()
                        && final(self).shutdowns() == 1
                },
                _ => r == CopyAction::Shutdown && final(self).finished()
                    && final(self).shutdowns() == 1,
            },
    {
        if self.finished {
            return CopyAction::Idle;
        }
        match outcome {
            ReadOutcome::Data(n) => {
                if n > 0 {
                    CopyAction::Write(n)
                } else {
                    self.finish()
                }
            },
            _ => self.finish(),
        }
    }

    /// Takes the outcome of a write: on success read again, on failure finish.
    pub fn on_write(&mut self, ok: bool) -> (r: CopyAction)
        requires
            old(self).wf(),
        ensures
            final(self).wf(),
            old(self).finished() ==> r == CopyAction::Idle && final(self).finished()
                && final(self).shutdowns() == old(self).shutdowns(),
            !old(self).finished() ==> if ok {
                r == CopyAction::Read && !final(self).finished()
            } else {
                r == CopyAction::Shutdown && final(self).finished()
                    && final(self).shutdowns() == 1
            },
    {
        if self.finished {
            return CopyAction::Idle;
        }
        if ok {
            CopyAction::Read
        } else {
            self.finish()
        }
    }
}

/// Once a direction has finished, its write half has been shut down exactly once, and
/// no later outcome asks for it again.
pub proof fn lemma_shutdown_exactly_once(d: CopyDirection)
    requires
        d.wf(),
    ensures
        d.finished() <==> d.shutdowns() == 1,
        !d.finished() <==> d.shutdowns() == 0,
{
}

/// The two directions of one proxied connection.
pub struct RelaySession {
    pub client_to_server: CopyDirection,
    pub server_to_client: CopyDirection,
}

impl RelaySession {
    pub fn new() -> (r: RelaySession)
        ensures
            r.client_to_server.wf() && r.server_to_client.wf(),
            !r.client_to_server.finished() && !r.server_to_client.finished(),
    {
        RelaySession { client_to_server: CopyDirection::new(), server_to_client: CopyDirection::new() }
    }

    /// The relay is over as soon as either direction has finished.
    pub fn is_over(&self) -> (r: bool)
        ensures
            r == (self.client_to_server.finished() || self.server_to_client.finished()),
    {
        self.client_to_server.is_finished() || self.server_to_client.is_finished()
    }
}

} // verus!
