//! Whether a playlist may put its wallpaper on screen now.

use vstd::prelude::*;

use crate::model::{WorkerPhase, WorkerStatus};
use crate::probe;
use crate::text::same;

verus! {

/// A renderer is live or on its way.
pub open spec fn live_worker(phase: WorkerPhase) -> bool {
    match phase {
        WorkerPhase::Starting => true,
        WorkerPhase::Canary => true,
        WorkerPhase::Live => true,
        WorkerPhase::AwaitingAck => true,
        WorkerPhase::Restarting => true,
        WorkerPhase::RolledBack => true,
        WorkerPhase::Idle => false,
        WorkerPhase::Stopped => false,
        WorkerPhase::Quarantined => false,
    }
}

/// Whether a renderer is live or on its way.
pub fn phase_has_live_worker(phase: WorkerPhase) -> (live: bool)
    ensures
        live == live_worker(phase),
{
    match phase {
        WorkerPhase::Starting | WorkerPhase::Canary | WorkerPhase::Live | WorkerPhase::AwaitingAck
        | WorkerPhase::Restarting | WorkerPhase::RolledBack => true,
        WorkerPhase::Idle | WorkerPhase::Stopped | WorkerPhase::Quarantined => false,
    }
}

/// What the session does for the wallpaper that it wants.
#[derive(Debug, Clone, Copy, PartialEq, Eq, Structural)]
pub enum ApplyVerdict {
    /// It is live or on its way.
    Satisfied,
    /// Somebody else's renderer has the slot.
    Yield,
    /// The backoff after a failure has not passed.
    Hold,
    /// The supervisor is recovering it while something else is on screen.
    Wait,
    /// Apply it.
    Apply,
}

pub open spec fn asked_for(status: WorkerStatus) -> Option<Seq<char>> {
    probe::option_view(status.requested_wallpaper_id)
}

/// The wanted wallpaper is being recovered while something else, or nothing, is
/// on screen.
pub open spec fn recovering(status: WorkerStatus, desired: Seq<char>) -> bool {
    (status.phase == WorkerPhase::RolledBack || status.phase == WorkerPhase::Restarting)
        && probe::option_view(status.wallpaper_id) != Some(desired)
}

/// The verdict over a worker's state.
pub open spec fn verdict_for(
    applied: Option<Seq<char>>,
    desired: Seq<char>,
    status: WorkerStatus,
    retry_ready: bool,
) -> ApplyVerdict {
    if live_worker(status.phase) && asked_for(status) == Some(desired) {
        if recovering(status, desired) {
            ApplyVerdict::Wait
        } else {
            ApplyVerdict::Satisfied
        }
    } else if live_worker(status.phase) && asked_for(status) != applied {
        ApplyVerdict::Yield
    } else if retry_ready {
        ApplyVerdict::Apply
    } else {
        ApplyVerdict::Hold
    }
}

/// Somebody else's renderer is live: neither the wanted wallpaper nor the one
/// that the session applied.
pub open spec fn foreign_live(
    status: WorkerStatus,
    desired: Seq<char>,
    applied: Option<Seq<char>>,
) -> bool {
    live_worker(status.phase) && asked_for(status) != Some(desired) && asked_for(status) != applied
}

pub open spec fn borrowed(value: Option<&str>) -> Option<Seq<char>> {
    match value {
        Some(text) => Some(text@),
        None => None,
    }
}

fn is_named(value: &Option<String>, name: Option<&str>) -> (yes: bool)
    ensures
        yes == (probe::option_view(*value) == borrowed(name)),
{
    match (value, name) {
        (Some(a), Some(b)) => same(a.as_str(), b),
        (None, None) => true,
        _ => false,
    }
}

/// What the session does for the wallpaper that it wants.
pub fn apply_verdict(
    applied: Option<&str>,
    desired: &str,
    status: &WorkerStatus,
    retry_ready: bool,
) -> (verdict: ApplyVerdict)
    ensures
        verdict == verdict_for(borrowed(applied), desired@, *status, retry_ready),
{
    let live: bool = phase_has_live_worker(status.phase);
    if live && is_named(&status.requested_wallpaper_id, Some(desired)) {
        let in_recovery: bool = status.phase == WorkerPhase::RolledBack || status.phase
            == WorkerPhase::Restarting;
        if in_recovery && !is_named(&status.wallpaper_id, Some(desired)) {
            return ApplyVerdict::Wait;
        }
        return ApplyVerdict::Satisfied;
    }
    if live && !is_named(&status.requested_wallpaper_id, applied) {
        return ApplyVerdict::Yield;
    }
    if retry_ready {
        ApplyVerdict::Apply
    } else {
        ApplyVerdict::Hold
    }
}

/// Whether somebody else's renderer is live.
pub fn foreign_renderer_live(status: &WorkerStatus, desired: &str, applied: Option<&str>) -> (foreign:
    bool)
    ensures
        foreign == foreign_live(*status, desired@, borrowed(applied)),
{
    phase_has_live_worker(status.phase) && !is_named(&status.requested_wallpaper_id, Some(desired))
        && !is_named(&status.requested_wallpaper_id, applied)
}

/// The first backoff, in milliseconds.
pub const APPLY_BACKOFF_BASE_MS: u64 = 1000;

/// The longest backoff, in milliseconds.
pub const APPLY_BACKOFF_MAX_MS: u64 = 30000;

/// The backoff after this many failures in a row: one second, doubled by every
/// further failure, up to thirty seconds.
pub open spec fn backoff_ms(failures: nat) -> nat
    decreases failures,
{
    if failures <= 1 {
        APPLY_BACKOFF_BASE_MS as nat
    } else {
        let doubled = 2 * backoff_ms((failures - 1) as nat);
        if doubled > APPLY_BACKOFF_MAX_MS {
            APPLY_BACKOFF_MAX_MS as nat
        } else {
            doubled
        }
    }
}

proof fn lemma_backoff_saturates(failures: nat)
    ensures
        failures >= 6 ==> backoff_ms(failures) == APPLY_BACKOFF_MAX_MS,
    decreases failures,
{
    if failures > 6 {
        lemma_backoff_saturates((failures - 1) as nat);
    } else if failures == 6 {
        reveal_with_fuel(backoff_ms, 7);
    }
}

/// The backoff after this many failures in a row, in milliseconds.
pub fn apply_backoff(failures: u32) -> (millis: u64)
    ensures
        millis == backoff_ms(failures as nat),
{
    proof {
        reveal_with_fuel(backoff_ms, 7);
        lemma_backoff_saturates(failures as nat);
    }
    if failures <= 1 {
        1000
    } else if failures == 2 {
        2000
    } else if failures == 3 {
        4000
    } else if failures == 4 {
        8000
    } else if failures == 5 {
        16000
    } else {
        30000
    }
}

// ---------------------------------------------------------------------------
// Laws
// ---------------------------------------------------------------------------

/// The session yields exactly where the check that is made under the lock finds
/// somebody else's renderer, so it never displaces one.
pub proof fn law_user_apply_takes_precedence(
    applied: Option<Seq<char>>,
    desired: Seq<char>,
    status: WorkerStatus,
    retry_ready: bool,
)
    ensures
        verdict_for(applied, desired, status, retry_ready) == ApplyVerdict::Yield <==> foreign_live(
            status,
            desired,
            applied,
        ),
        foreign_live(status, desired, applied) ==> verdict_for(applied, desired, status, retry_ready)
            != ApplyVerdict::Apply,
{
}

/// Nothing is applied while the backoff has not passed, and a hold is never a
/// yield: the session keeps what it applied.
pub proof fn law_closed_backoff_never_applies(
    applied: Option<Seq<char>>,
    desired: Seq<char>,
    status: WorkerStatus,
)
    ensures
        verdict_for(applied, desired, status, false) != ApplyVerdict::Apply,
        verdict_for(applied, desired, status, true) == ApplyVerdict::Apply <==> verdict_for(
            applied,
            desired,
            status,
            false,
        ) == ApplyVerdict::Hold,
{
}

/// The backoff never shrinks as failures go on, and stays between one and
/// thirty seconds.
pub proof fn law_backoff_grows_to_its_cap(failures: nat)
    ensures
        APPLY_BACKOFF_BASE_MS <= backoff_ms(failures) <= APPLY_BACKOFF_MAX_MS,
        backoff_ms(failures) <= backoff_ms(failures + 1),
    decreases failures,
{
    if failures > 1 {
        law_backoff_grows_to_its_cap((failures - 1) as nat);
    }
}

} // verus!
