//! The audio worker: when it is started again, when it is given up, and how it
//! is stopped.

use vstd::prelude::*;

use crate::playlist_session::Sent;
use crate::probe;
use crate::text;
use crate::text::push_decimal;

verus! {

/// How many restarts within the window there may be; the next exit disables
/// the worker for good.
pub const MAX_RESTARTS: usize = 3;

pub const RESTART_WINDOW_MS: u64 = 600000;

/// How long to wait between an exit and the next start.
pub const RESTART_DELAY_MS: u64 = 500;

/// How long the worker has to end once it was asked to.
pub const STOP_GRACE_MS: u64 = 1000;

/// How audio is captured.
pub struct AudioCaptureConfig {
    /// Whether audio is captured at all.
    pub enabled: bool,
    pub worker_path: String,
    /// The daemon's own socket, which the worker reports to.
    pub socket: String,
    pub capture_node: Option<String>,
}

/// The state of the capture.
#[derive(Debug)]
pub struct AudioCaptureStatus {
    /// As configured, whatever the worker does.
    pub enabled: bool,
    pub pid: Option<u32>,
    pub restarts: u64,
    /// There once the restarts are used up.
    pub disabled_reason: Option<String>,
}

/// The worker's arguments.
pub fn worker_arguments(config: &AudioCaptureConfig) -> (args: Vec<String>)
    ensures
        text::views(args@) == (match config.capture_node {
            Some(node) => seq!["--socket"@, config.socket@, "--capture-node"@, node@],
            None => seq!["--socket"@, config.socket@],
        }),
{
    let mut args: Vec<String> = Vec::new();
    args.push("--socket".to_owned());
    args.push(config.socket.clone());
    match &config.capture_node {
        Some(node) => {
            args.push("--capture-node".to_owned());
            args.push(node.clone());
            assert(text::views(args@) =~= seq![
                "--socket"@,
                config.socket@,
                "--capture-node"@,
                node@,
            ]);
        },
        None => {
            assert(text::views(args@) =~= seq!["--socket"@, config.socket@]);
        },
    }
    args
}

// ---------------------------------------------------------------------------
// The restart budget
// ---------------------------------------------------------------------------

/// A time that lies more than `window` before `now`.
pub open spec fn out_of_window(time: u64, now: u64, window: u64) -> bool {
    time + window < now
}

/// The times from the first on that is within the window. Before the window
/// has passed once, that is all of them.
pub open spec fn pruned(history: Seq<u64>, now: u64, window: u64) -> Seq<u64>
    decreases history.len(),
{
    if history.len() > 0 && out_of_window(history[0], now, window) {
        pruned(history.drop_first(), now, window)
    } else {
        history
    }
}

/// Drops the restarts that have left the window.
pub fn prune_restart_window(history: &mut Vec<u64>, now: u64, window: u64)
    ensures
        final(history)@ == pruned(old(history)@, now, window),
{
    let mut stale: usize = 0;
    let ghost all = history@;
    assert(all.skip(0) =~= all);
    while stale < history.len() && now >= window && history[stale] < now - window
        invariant
            stale <= history@.len(),
            history@ == all,
            pruned(all, now, window) == pruned(all.skip(stale as int), now, window),
        decreases history.len() - stale,
    {
        assert(all.skip(stale as int).drop_first() =~= all.skip(stale + 1));
        stale = stale + 1;
    }
    assert(stale < all.len() ==> all.skip(stale as int)[0] == all[stale as int]);
    let mut kept: Vec<u64> = Vec::new();
    let mut i: usize = stale;
    while i < history.len()
        invariant
            stale <= i <= history@.len(),
            history@ == all,
            kept@ == all.subrange(stale as int, i as int),
        decreases history.len() - i,
    {
        kept.push(history[i]);
        assert(all.subrange(stale as int, i + 1) =~= all.subrange(stale as int, i as int).push(
            all[i as int],
        ));
        i = i + 1;
    }
    assert(all.subrange(stale as int, all.len() as int) =~= all.skip(stale as int));
    *history = kept;
}

/// The capture as the daemon keeps it.
pub struct AudioRuntime {
    pub enabled: bool,
    /// The live worker's process, or 0.
    pub worker_pid: u32,
    pub restarts: u64,
    pub restarts_in_window: Vec<u64>,
    pub disabled_reason: Option<String>,
}

/// The restarts that still count when a worker goes down.
pub open spec fn counted(runtime: AudioRuntime, now: u64) -> Seq<u64> {
    pruned(runtime.restarts_in_window@, now, RESTART_WINDOW_MS)
}

impl AudioRuntime {
    /// No more restarts are remembered than there may be.
    pub open spec fn wf(&self) -> bool {
        self.restarts_in_window@.len() <= MAX_RESTARTS
    }

    pub fn new(enabled: bool) -> (runtime: Self)
        ensures
            runtime.wf(),
            runtime.enabled == enabled,
            runtime.worker_pid == 0,
            runtime.restarts == 0,
            runtime.restarts_in_window@ == Seq::<u64>::empty(),
            runtime.disabled_reason is None,
    {
        AudioRuntime {
            enabled,
            worker_pid: 0,
            restarts: 0,
            restarts_in_window: Vec::new(),
            disabled_reason: None,
        }
    }

    /// A worker was started.
    pub fn spawned(&mut self, pid: u32)
        ensures
            *final(self) == (AudioRuntime { worker_pid: pid, ..*old(self) }),
    {
        self.worker_pid = pid;
    }

    /// The worker is gone, or none could be started. Says whether another one
    /// is to be started after the delay. Once the budget is used up none is,
    /// ever.
    pub fn worker_down(&mut self, now: u64) -> (restart: bool)
        requires
            old(self).wf(),
        ensures
            final(self).wf(),
            final(self).enabled == old(self).enabled,
            final(self).worker_pid == 0,
            if old(self).disabled_reason is Some {
                &&& !restart
                &&& final(self).disabled_reason == old(self).disabled_reason
                &&& final(self).restarts == old(self).restarts
                &&& final(self).restarts_in_window == old(self).restarts_in_window
            } else if counted(*old(self), now).len() >= MAX_RESTARTS {
                &&& !restart
                &&& probe::option_view(final(self).disabled_reason) == Some("too_many_restarts"@)
                &&& final(self).restarts == old(self).restarts
                &&& final(self).restarts_in_window@ == counted(*old(self), now)
            } else {
                &&& restart
                &&& final(self).disabled_reason is None
                &&& final(self).restarts == (if old(self).restarts < u64::MAX {
                    (old(self).restarts + 1) as u64
                } else {
                    u64::MAX
                })
                &&& final(self).restarts_in_window@ == counted(*old(self), now).push(now)
            },
    {
        self.worker_pid = 0;
        if self.disabled_reason.is_some() {
            return false;
        }
        proof {
            lemma_pruned_shorter(self.restarts_in_window@, now, RESTART_WINDOW_MS);
        }
        prune_restart_window(&mut self.restarts_in_window, now, RESTART_WINDOW_MS);
        if self.restarts_in_window.len() >= MAX_RESTARTS {
            self.disabled_reason = Some("too_many_restarts".to_owned());
            return false;
        }
        self.restarts_in_window.push(now);
        self.restarts = self.restarts.saturating_add(1);
        true
    }

    /// The state of the capture.
    pub fn status(&self) -> (status: AudioCaptureStatus)
        ensures
            status.enabled == self.enabled,
            status.pid == (if self.worker_pid != 0 {
                Some(self.worker_pid)
            } else {
                None
            }),
            status.restarts == self.restarts,
            status.disabled_reason == self.disabled_reason,
    {
        AudioCaptureStatus {
            enabled: self.enabled,
            pid: if self.worker_pid != 0 {
                Some(self.worker_pid)
            } else {
                None
            },
            restarts: self.restarts,
            disabled_reason: self.disabled_reason.clone(),
        }
    }
}

proof fn lemma_pruned_shorter(history: Seq<u64>, now: u64, window: u64)
    ensures
        pruned(history, now, window).len() <= history.len(),
    decreases history.len(),
{
    if history.len() > 0 && out_of_window(history[0], now, window) {
        lemma_pruned_shorter(history.drop_first(), now, window);
    }
}

/// The capture as its callers see it.
pub struct AudioCaptureHandle {
    pub runtime: AudioRuntime,
}

impl AudioCaptureHandle {
    /// The state of the capture, unless the queue did not take the question or
    /// the reply did not come in time.
    pub fn status(&self, sent: Sent, replied: bool) -> (answer: Result<AudioCaptureStatus, String>)
        ensures
            match sent {
                Sent::Full => answer matches Err(error) && error@
                    == "audio capture command queue is full"@,
                Sent::Disconnected => answer matches Err(error) && error@
                    == "audio capture is unavailable"@,
                Sent::Queued => if replied {
                    answer matches Ok(status) && status.enabled == self.runtime.enabled
                        && status.pid == (if self.runtime.worker_pid != 0 {
                        Some(self.runtime.worker_pid)
                    } else {
                        None
                    }) && status.restarts == self.runtime.restarts && status.disabled_reason
                        == self.runtime.disabled_reason
                } else {
                    answer matches Err(error) && error@ == "audio capture command timed out"@
                },
            },
    {
        match sent {
            Sent::Full => Err("audio capture command queue is full".to_owned()),
            Sent::Disconnected => Err("audio capture is unavailable".to_owned()),
            Sent::Queued => if replied {
                Ok(self.runtime.status())
            } else {
                Err("audio capture command timed out".to_owned())
            },
        }
    }
}

// ---------------------------------------------------------------------------
// Stopping
// ---------------------------------------------------------------------------

/// Where stopping the worker stands.
#[derive(Debug, Clone, Copy, PartialEq, Eq, Structural)]
pub enum StopStage {
    /// It is to be asked to end.
    Terminate,
    /// It was asked, and has until the deadline.
    Grace { deadline: u64 },
    /// It is to be killed and reaped.
    Kill,
    /// It is reaped.
    Gone,
}

/// Begins to stop a worker that has ended already, or has not.
pub fn begin_stop(ended: bool) -> (stage: StopStage)
    ensures
        stage == (if ended {
            StopStage::Gone
        } else {
            StopStage::Terminate
        }),
{
    if ended {
        StopStage::Gone
    } else {
        StopStage::Terminate
    }
}

/// The worker was asked to end.
pub fn asked_to_stop(now: u64) -> (stage: StopStage)
    requires
        now + STOP_GRACE_MS <= u64::MAX,
    ensures
        stage == (StopStage::Grace { deadline: (now + STOP_GRACE_MS) as u64 }),
{
    StopStage::Grace { deadline: now + STOP_GRACE_MS }
}

/// Looks at a worker that was asked to end. A worker that has not ended by the
/// deadline is killed.
pub fn stop_polled(deadline: u64, ended: bool, now: u64) -> (stage: StopStage)
    ensures
        stage == (if now >= deadline {
            StopStage::Kill
        } else if ended {
            StopStage::Gone
        } else {
            StopStage::Grace { deadline }
        }),
{
    if now >= deadline {
        StopStage::Kill
    } else if ended {
        StopStage::Gone
    } else {
        StopStage::Grace { deadline }
    }
}

// ---------------------------------------------------------------------------
// Exits
// ---------------------------------------------------------------------------

pub open spec fn signed_decimal(n: int) -> Seq<char> {
    if n < 0 {
        "-"@ + text::decimal((-n) as nat)
    } else {
        text::decimal(n as nat)
    }
}

fn push_signed(out: &mut String, n: i32)
    ensures
        final(out)@ == old(out)@ + signed_decimal(n as int),
{
    let wide: i64 = n as i64;
    let ghost before = out@;
    if wide < 0 {
        out.append("-");
        push_decimal(out, (-wide) as u128);
        assert(out@ =~= before + signed_decimal(n as int));
    } else {
        push_decimal(out, wide as u128);
    }
}

/// How a worker ended.
pub fn exit_detail(code: Option<i32>, signal: Option<i32>) -> (detail: String)
    ensures
        detail@ == (match (code, signal) {
            (Some(code), _) => "exit_code_"@ + signed_decimal(code as int),
            (None, Some(signal)) => "signal_"@ + signed_decimal(signal as int),
            (None, None) => "unknown_exit"@,
        }),
{
    match (code, signal) {
        (Some(code), _) => {
            let mut detail = "exit_code_".to_owned();
            push_signed(&mut detail, code);
            detail
        },
        (None, Some(signal)) => {
            let mut detail = "signal_".to_owned();
            push_signed(&mut detail, signal);
            detail
        },
        (None, None) => "unknown_exit".to_owned(),
    }
}

// ---------------------------------------------------------------------------
// Laws
// ---------------------------------------------------------------------------

/// Of times in their order, exactly those outside the window go.
pub proof fn law_pruning_keeps_the_window(history: Seq<u64>, now: u64, window: u64)
    requires
        forall|i: int, j: int| 0 <= i <= j < history.len() ==> history[i] <= history[j],
    ensures
        forall|i: int|
            #![trigger pruned(history, now, window)[i]]
            0 <= i < pruned(history, now, window).len() ==> !out_of_window(
                pruned(history, now, window)[i],
                now,
                window,
            ),
        forall|time: u64|
            history.contains(time) && !out_of_window(time, now, window) ==> #[trigger] pruned(
                history,
                now,
                window,
            ).contains(time),
        now <= window ==> pruned(history, now, window) == history,
    decreases history.len(),
{
    if history.len() > 0 && out_of_window(history[0], now, window) {
        let rest = history.drop_first();
        assert forall|i: int, j: int| 0 <= i <= j < rest.len() implies rest[i] <= rest[j] by {
            assert(history[i + 1] <= history[j + 1]);
        }
        law_pruning_keeps_the_window(rest, now, window);
        assert(pruned(history, now, window) == pruned(rest, now, window));
        assert forall|time: u64|
            history.contains(time) && !out_of_window(time, now, window) implies #[trigger] pruned(
            history,
            now,
            window,
        ).contains(time) by {
            let k = choose|k: int| 0 <= k < history.len() && history[k] == time;
            assert(rest[k - 1] == time);
        }
    } else {
        assert forall|i: int|
            #![trigger pruned(history, now, window)[i]]
            0 <= i < pruned(history, now, window).len() implies !out_of_window(
            pruned(history, now, window)[i],
            now,
            window,
        ) by {
            assert(history[0] <= history[i]);
        }
    }
}

/// A worker that goes down four times within the window is not started after
/// the fourth: the first three restarts all still count.
pub proof fn law_fourth_exit_within_the_window_is_the_last(
    first: u64,
    second: u64,
    third: u64,
    now: u64,
)
    requires
        first <= second <= third <= now,
        now - first <= RESTART_WINDOW_MS,
    ensures
        pruned(seq![first, second, third], now, RESTART_WINDOW_MS).len() >= MAX_RESTARTS,
{
}

} // verus!
