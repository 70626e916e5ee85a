//! Bounded child processes: how much of their output is kept and when a run is
//! over.

use vstd::prelude::*;

use crate::text;
use crate::text::push_decimal;

verus! {

/// The most that is kept of a child's stdout or stderr.
pub const MAX_PROBE_OUTPUT_BYTES: usize = 65536;

/// How often a finished child's pipes are looked at before the run counts as
/// stalled.
pub const MAX_DRAIN_WAITS: u32 = 50;

/// What a capped buffer holds after `chunk` was read into it.
pub open spec fn capped(buffer: Seq<u8>, chunk: Seq<u8>, cap: nat) -> Seq<u8> {
    if buffer.len() >= cap {
        buffer
    } else if buffer.len() + chunk.len() <= cap {
        buffer + chunk
    } else {
        buffer + chunk.take(cap - buffer.len())
    }
}

/// Appends what of `chunk` fits under `cap`; the rest is discarded.
pub fn absorb(buffer: &mut Vec<u8>, chunk: &[u8], cap: usize)
    ensures
        final(buffer)@ == capped(old(buffer)@, chunk@, cap as nat),
{
    if buffer.len() >= cap {
        return;
    }
    let room: usize = cap - buffer.len();
    let take: usize = if chunk.len() < room {
        chunk.len()
    } else {
        room
    };
    let ghost before = buffer@;
    let mut i: usize = 0;
    while i < take
        invariant
            i <= take <= chunk.len(),
            buffer@ == before + chunk@.take(i as int),
        decreases take - i,
    {
        buffer.push(chunk[i]);
        assert(before + chunk@.take(i + 1) =~= (before + chunk@.take(i as int)).push(
            chunk@[i as int],
        ));
        i = i + 1;
    }
    assert(chunk@.take(chunk@.len() as int) =~= chunk@);
}

/// A capped buffer that was within its cap stays within it, and what it holds
/// is a prefix of everything that was read.
pub proof fn law_capped_output_is_a_bounded_prefix(buffer: Seq<u8>, chunk: Seq<u8>, cap: nat)
    requires
        buffer.len() <= cap,
    ensures
        capped(buffer, chunk, cap).len() <= cap,
        capped(buffer, chunk, cap).len() <= buffer.len() + chunk.len(),
        capped(buffer, chunk, cap) == (buffer + chunk).take(
            capped(buffer, chunk, cap).len() as int,
        ),
{
    assert(capped(buffer, chunk, cap) =~= (buffer + chunk).take(
        capped(buffer, chunk, cap).len() as int,
    ));
}

/// Where a bounded run stands.
#[derive(Debug, Clone, Copy, PartialEq, Eq, Structural)]
pub struct BoundedRun {
    /// The child has been seen to exit.
    pub exited: bool,
    pub stdout_eof: bool,
    pub stderr_eof: bool,
    /// How often the pipes of the exited child were waited for.
    pub waits: u32,
    pub started_ms: u64,
    pub timeout_ms: u64,
}

/// What one look at the child and its pipes showed.
#[derive(Debug, Clone, Copy, PartialEq, Eq, Structural)]
pub struct Poll {
    pub exited: bool,
    pub stdout_eof: bool,
    pub stderr_eof: bool,
    pub now_ms: u64,
}

/// What the runner does next.
#[derive(Debug, Clone, Copy, PartialEq, Eq, Structural)]
pub enum RunStep {
    /// Both pipes are drained: hand the outcome back.
    Done,
    /// Look again at once.
    DrainAgain,
    /// Look again after this many milliseconds.
    WaitMs(u64),
    /// The child exited but a pipe stays open: give up.
    Stalled,
    /// Kill the child: its deadline has passed.
    Kill,
}

impl BoundedRun {
    pub fn start(now_ms: u64, timeout_ms: u64) -> (run: Self)
        ensures
            run == (BoundedRun {
                exited: false,
                stdout_eof: false,
                stderr_eof: false,
                waits: 0,
                started_ms: now_ms,
                timeout_ms,
            }),
    {
        BoundedRun {
            exited: false,
            stdout_eof: false,
            stderr_eof: false,
            waits: 0,
            started_ms: now_ms,
            timeout_ms,
        }
    }

    /// The deadline has passed.
    pub open spec fn overdue(self, now_ms: u64) -> bool {
        now_ms >= self.started_ms + self.timeout_ms
    }

    /// The run after one look.
    pub open spec fn seen(self, poll: Poll) -> BoundedRun {
        if self.exited {
            BoundedRun {
                stdout_eof: self.stdout_eof || poll.stdout_eof,
                stderr_eof: self.stderr_eof || poll.stderr_eof,
                ..self
            }
        } else {
            BoundedRun {
                exited: poll.exited,
                stdout_eof: poll.stdout_eof,
                stderr_eof: poll.stderr_eof,
                ..self
            }
        }
    }

    /// What follows a look: an exited child is drained, within bounds; a
    /// running one is waited for until its deadline.
    pub open spec fn decided(self, poll: Poll) -> (BoundedRun, RunStep) {
        let run = self.seen(poll);
        if !run.exited {
            if self.overdue(poll.now_ms) {
                (run, RunStep::Kill)
            } else {
                (run, RunStep::WaitMs(5))
            }
        } else if run.stdout_eof && run.stderr_eof {
            (run, RunStep::Done)
        } else if !self.exited {
            (run, RunStep::DrainAgain)
        } else if run.waits >= MAX_DRAIN_WAITS {
            (run, RunStep::Stalled)
        } else {
            (BoundedRun { waits: (run.waits + 1) as u32, ..run }, RunStep::WaitMs(1))
        }
    }

    /// Decides what follows one look at the child.
    pub fn step(&mut self, poll: Poll) -> (step: RunStep)
        ensures
            (*final(self), step) == old(self).decided(poll),
    {
        let had_exited: bool = self.exited;
        if self.exited {
            self.stdout_eof = self.stdout_eof || poll.stdout_eof;
            self.stderr_eof = self.stderr_eof || poll.stderr_eof;
        } else {
            self.exited = poll.exited;
            self.stdout_eof = poll.stdout_eof;
            self.stderr_eof = poll.stderr_eof;
        }
        if !self.exited {
            let late: bool = poll.now_ms as u128 >= self.started_ms as u128 + self.timeout_ms as u128;
            if late {
                RunStep::Kill
            } else {
                RunStep::WaitMs(5)
            }
        } else if self.stdout_eof && self.stderr_eof {
            RunStep::Done
        } else if !had_exited {
            RunStep::DrainAgain
        } else if self.waits >= MAX_DRAIN_WAITS {
            RunStep::Stalled
        } else {
            self.waits = self.waits + 1;
            RunStep::WaitMs(1)
        }
    }

    /// What a run that was killed is answered.
    pub fn timeout_message(&self) -> (message: String)
        ensures
            message@ == "timed out after "@ + text::decimal(self.timeout_ms as nat)
                + " ms and was killed"@,
    {
        let mut message = "timed out after ".to_owned();
        push_decimal(&mut message, self.timeout_ms as u128);
        message.append(" ms and was killed");
        message
    }
}

/// A running child is never waited for past its deadline, and an exited one
/// only as often as the drain bound allows.
pub proof fn law_bounded_run_ends(run: BoundedRun, poll: Poll)
    ensures
        run.overdue(poll.now_ms) && !poll.exited && !run.exited ==> run.decided(poll).1
            == RunStep::Kill,
        run.exited && run.waits >= MAX_DRAIN_WAITS ==> {
            ||| run.decided(poll).1 == RunStep::Done
            ||| run.decided(poll).1 == RunStep::Stalled
        },
        run.exited && run.waits < MAX_DRAIN_WAITS && run.decided(poll).1 != RunStep::Done
            ==> run.decided(poll).0.waits == run.waits + 1,
        run.exited ==> run.decided(poll).0.exited,
{
}

} // verus!
