//! What the playlist session promises: what it passes over, what it asks for,
//! what it keeps, and what a restart finds.
//!
//! Each law speaks of what a function may answer, or leave behind.

use vstd::prelude::*;

use crate::apply::ApplyError;
use crate::laws_playlist::{derived_from, goes_by, same_playlist};
use crate::model::{WorkerPhase, WorkerStatus};
use crate::names::NameMap;
use crate::persist::StateContent;
use crate::playlist::{ImportPlaylist, Playlist, PlaylistDecision};
use crate::playlist_session::{
    load_runtime_state, Activation, ApplyStep, ClockSkip, ImportSummary, Persisted,
    PlaylistSessionConfig, PlaylistSessionHandle, RuntimeStateFile, Sent, SessionError,
    SessionRuntime, SessionStatus, TickStep,
};
use crate::verdict::apply_backoff;

verus! {

// ---------------------------------------------------------------------------
// Definitions
// ---------------------------------------------------------------------------

/// How the session was set up is the same.
pub open spec fn same_setup<S>(a: SessionRuntime<S>, b: SessionRuntime<S>) -> bool {
    &&& a.tick_ms == b.tick_ms
    &&& a.output == b.output
    &&& a.applies == b.applies
    &&& a.valid_ids == b.valid_ids
}

/// The definitions are the same.
pub open spec fn same_definitions<S>(a: SessionRuntime<S>, b: SessionRuntime<S>) -> bool {
    a.playlists == b.playlists && a.store_error == b.store_error
}

/// What plays, and where it stands, is the same.
pub open spec fn same_position<S>(a: SessionRuntime<S>, b: SessionRuntime<S>) -> bool {
    &&& a.active == b.active
    &&& a.last_decision == b.last_decision
    &&& a.snapshots == b.snapshots
}

/// The clock is the same.
pub open spec fn same_clock<S>(a: SessionRuntime<S>, b: SessionRuntime<S>) -> bool {
    a.clock_offset_ms == b.clock_offset_ms && a.clock_skipped_ms == b.clock_skipped_ms
}

/// What is left out is the same.
pub open spec fn same_exclusions<S>(a: SessionRuntime<S>, b: SessionRuntime<S>) -> bool {
    a.quarantined_ids == b.quarantined_ids && a.gate_refused_ids == b.gate_refused_ids
}

/// What was applied, and when the next try is due, is the same.
pub open spec fn same_screen<S>(a: SessionRuntime<S>, b: SessionRuntime<S>) -> bool {
    &&& a.applied_wallpaper == b.applied_wallpaper
    &&& a.apply_failures == b.apply_failures
    &&& a.next_apply_retry == b.next_apply_retry
    &&& a.apply_in_flight == b.apply_in_flight
}

/// What the disk is owed is the same.
pub open spec fn same_debt<S>(a: SessionRuntime<S>, b: SessionRuntime<S>) -> bool {
    a.owes_persist == b.owes_persist && a.last_waiting_persist == b.last_waiting_persist
}

/// Nothing was applied yet, and the next try may be made at once.
pub open spec fn clean_slate<S>(session: SessionRuntime<S>, now: u64) -> bool {
    &&& session.applied_wallpaper is None
    &&& session.apply_failures == 0
    &&& session.next_apply_retry == now
}

/// `id` is one of the texts.
pub open spec fn has_text(texts: Seq<String>, id: Seq<char>) -> bool {
    exists|i: int| 0 <= i < texts.len() && (#[trigger] texts[i])@ == id
}

/// `ids` are the entries that are not installed, quarantined or refused.
pub open spec fn passed_over<S>(
    session: SessionRuntime<S>,
    entries: Seq<String>,
    ids: Seq<String>,
) -> bool {
    forall|id: Seq<char>| #[trigger]
        has_text(ids, id) <==> has_text(entries, id) && !(session.valid_ids@.contains_key(id)
            && !session.quarantined_ids@.contains_key(id)
            && !session.gate_refused_ids@.contains_key(id))
}

proof fn lemma_texts(texts: Seq<String>, id: Seq<char>)
    ensures
        crate::text::views(texts).contains(id) <==> has_text(texts, id),
{
    let views = crate::text::views(texts);
    if has_text(texts, id) {
        let i = choose|i: int| 0 <= i < texts.len() && (#[trigger] texts[i])@ == id;
        assert(views[i] == id);
    }
    if views.contains(id) {
        let i = choose|i: int| 0 <= i < views.len() && views[i] == id;
        assert(texts[i]@ == id);
    }
}

proof fn lemma_passed_over<S>(session: SessionRuntime<S>, entries: Seq<String>, ids: Seq<String>)
    requires
        crate::playlist_session::lists_excluded(
            session,
            crate::text::views(entries),
            crate::text::views(ids),
        ),
    ensures
        passed_over(session, entries, ids),
{
    assert forall|id: Seq<char>| #[trigger]
        has_text(ids, id) <==> has_text(entries, id) && !(session.valid_ids@.contains_key(id)
            && !session.quarantined_ids@.contains_key(id)
            && !session.gate_refused_ids@.contains_key(id)) by {
        lemma_texts(ids, id);
        lemma_texts(entries, id);
    }
}

/// `playlist` is what goes by this name.
pub open spec fn is_named<S>(
    session: SessionRuntime<S>,
    id: Option<String>,
    playlist: Playlist,
) -> bool {
    id is Some && exists|at: int|
        0 <= at < session.playlists@.len() && (#[trigger] session.playlists@[at]).id@ == id->0@
            && same_playlist(playlist, session.playlists@[at])
}

/// A definition goes by this name.
pub open spec fn is_defined<S>(session: SessionRuntime<S>, id: Option<String>) -> bool {
    id is Some && goes_by(session.playlists@, id->0@)
}

proof fn lemma_defined_at(definitions: Seq<crate::playlist::PlaylistView>, id: Seq<char>)
    ensures
        crate::playlist::defined(definitions, id) matches Some(found) ==> exists|at: int|
            0 <= at < definitions.len() && #[trigger] definitions[at] == found && found.id == id,
    decreases definitions.len(),
{
    crate::playlist::lemma_defined(definitions, id);
    if definitions.len() > 0 {
        let rest = definitions.drop_first();
        lemma_defined_at(rest, id);
        if let Some(found) = crate::playlist::defined(definitions, id) {
            if definitions[0] != found {
                let at = choose|at: int|
                    0 <= at < rest.len() && #[trigger] rest[at] == found && found.id == id;
                assert(definitions[at + 1] == found);
            }
        }
    }
}

proof fn lemma_named<S>(session: SessionRuntime<S>, id: String, playlist: Playlist)
    ensures
        crate::playlist::defined(crate::playlist::playlist_views(session.playlists@), id@) is Some
            <==> goes_by(session.playlists@, id@),
        crate::playlist::defined(crate::playlist::playlist_views(session.playlists@), id@) == Some(
            playlist@,
        ) ==> is_named(session, Some(id), playlist),
{
    let views = crate::playlist::playlist_views(session.playlists@);
    crate::laws_playlist::lemma_goes_by(session.playlists@, id@);
    crate::playlist::lemma_defined(views, id@);
    if crate::playlist::defined(views, id@) == Some(playlist@) {
        lemma_defined_at(views, id@);
        let at = choose|at: int|
            0 <= at < views.len() && #[trigger] views[at] == playlist@ && playlist@.id == id@;
        assert(views[at] == session.playlists@[at]@);
        crate::laws_playlist::lemma_playlists(playlist, session.playlists@[at]);
        assert(session.playlists@[at].id@ == id@);
    }
}

// ---------------------------------------------------------------------------
// Reports
// ---------------------------------------------------------------------------

/// Passed over are exactly the entries that are not installed, that are
/// quarantined, or that the capability gate refused.
pub proof fn law_unusable_entries_are_passed_over<S>(
    session: &SessionRuntime<S>,
    playlist: &Playlist,
    ids: Vec<String>,
)
    requires
        call_ensures(SessionRuntime::<S>::unavailable_for, (session, playlist), ids),
    ensures
        passed_over(*session, playlist.entries@, ids@),
{
    lemma_passed_over(*session, playlist.entries@, ids@);
}

/// The status names the active playlist, the last decision, the number of
/// definitions, whether their file could be read, and what the clock skipped.
pub proof fn law_status_tells_the_session<S>(session: &SessionRuntime<S>, status: SessionStatus)
    requires
        call_ensures(SessionRuntime::<S>::status, (session,), status),
    ensures
        tells(*session, status),
{
    lemma_tells(*session, status);
}

/// What a status says of a session.
pub open spec fn tells<S>(session: SessionRuntime<S>, status: SessionStatus) -> bool {
    &&& status.active <==> session.active is Some
    &&& status.playlist_id == session.active
    &&& status.decision == session.last_decision
    &&& status.definitions.count == session.playlists@.len()
    &&& session.store_error is None ==> status.definitions.store_health@ == "ok"@
    &&& session.store_error is Some ==> status.definitions.store_health@ == "corrupt"@
    &&& status.clock_skipped_ms == session.clock_skipped_ms
    &&& !is_defined(session, session.active) ==> status.unavailable_ids@.len() == 0
    &&& is_defined(session, session.active) ==> exists|at: int|
        0 <= at < session.playlists@.len() && (#[trigger] session.playlists@[at]).id@
            == session.active->0@ && passed_over(
            session,
            session.playlists@[at].entries@,
            status.unavailable_ids@,
        )
}

proof fn lemma_tells<S>(session: SessionRuntime<S>, status: SessionStatus)
    requires
        crate::playlist_session::reports(session, status),
    ensures
        tells(session, status),
{
    if let Some(id) = session.active {
        let views = crate::playlist::playlist_views(session.playlists@);
        crate::laws_playlist::lemma_goes_by(session.playlists@, id@);
        crate::playlist::lemma_defined(views, id@);
        if let Some(found) = crate::playlist::defined(views, id@) {
            lemma_defined_at(views, id@);
            let at = choose|at: int|
                0 <= at < views.len() && #[trigger] views[at] == found && found.id == id@;
            assert(views[at] == session.playlists@[at]@);
            assert(session.playlists@[at].id@ == id@);
            lemma_passed_over(session, session.playlists@[at].entries@, status.unavailable_ids@);
        }
    }
}

/// An error in words begins with its kind and carries its detail.
pub proof fn law_session_errors_keep_their_detail(error: &SessionError, message: String)
    requires
        call_ensures(SessionError::message, (error,), message),
    ensures
        match *error {
            SessionError::NotFound(detail) => message@ == "not found: "@ + detail@,
            SessionError::ImportBlocked => message@ == "playlist store is not empty"@,
            SessionError::StoreUnavailable(detail) => message@ == "store: "@ + detail@,
            SessionError::Invalid(detail) => message@ == "invalid: "@ + detail@,
            SessionError::Busy(detail) => message@ == "session busy: "@ + detail@,
        },
{
}

// ---------------------------------------------------------------------------
// Applying
// ---------------------------------------------------------------------------

/// Another's choice wins: the session forgets what it applied and may try
/// again at once; nothing else changes.
pub proof fn law_session_steps_back<S>(session: &mut SessionRuntime<S>, now: u64)
    requires
        call_ensures(SessionRuntime::<S>::yield_to_foreign, (session, now), ()),
    ensures
        clean_slate(*final(session), now),
        final(session).apply_in_flight == old(session).apply_in_flight,
        same_setup(*old(session), *final(session)),
        same_definitions(*old(session), *final(session)),
        same_position(*old(session), *final(session)),
        same_clock(*old(session), *final(session)),
        same_exclusions(*old(session), *final(session)),
        same_debt(*old(session), *final(session)),
{
}

/// A playlist starts with a clean slate: nothing applied, no failures, nothing
/// refused; nothing else changes.
pub proof fn law_playlist_starts_clean<S>(session: &mut SessionRuntime<S>, now: u64)
    requires
        call_ensures(SessionRuntime::<S>::reset_apply, (session, now), ()),
    ensures
        clean_slate(*final(session), now),
        final(session).gate_refused_ids@.dom() =~= Set::empty(),
        final(session).quarantined_ids == old(session).quarantined_ids,
        final(session).apply_in_flight == old(session).apply_in_flight,
        same_setup(*old(session), *final(session)),
        same_definitions(*old(session), *final(session)),
        same_position(*old(session), *final(session)),
        same_clock(*old(session), *final(session)),
        same_debt(*old(session), *final(session)),
{
}

/// The latest list of quarantined wallpapers is the one that counts; without
/// one the last stands.
pub proof fn law_latest_quarantine_counts<S>(
    session: &mut SessionRuntime<S>,
    ids: Result<NameMap<()>, String>,
)
    requires
        call_ensures(SessionRuntime::<S>::refresh_quarantine, (session, ids), ()),
    ensures
        ids matches Ok(set) ==> final(session).quarantined_ids == set,
        ids is Err ==> *final(session) == *old(session),
        final(session).gate_refused_ids == old(session).gate_refused_ids,
        same_setup(*old(session), *final(session)),
        same_definitions(*old(session), *final(session)),
        same_position(*old(session), *final(session)),
        same_clock(*old(session), *final(session)),
        same_screen(*old(session), *final(session)),
        same_debt(*old(session), *final(session)),
{
}

/// Whatever a request came to, none is under way afterwards. One that
/// succeeded is what was applied; one that stepped back leaves a clean slate;
/// one that the capability gate refused leaves its wallpaper out; any other
/// failure is counted and waited for.
pub proof fn law_outcome_is_folded_in<S>(
    session: &mut SessionRuntime<S>,
    id: String,
    result: Result<(), ApplyError>,
    now: u64,
    wait: u64,
    other: Seq<char>,
)
    requires
        now <= 1000000000000,
        call_ensures(
            apply_backoff,
            (if session.apply_failures < u32::MAX {
                (session.apply_failures + 1) as u32
            } else {
                u32::MAX
            },),
            wait,
        ),
        call_ensures(SessionRuntime::<S>::fold_apply, (session, id, result, now), ()),
    ensures
        !final(session).apply_in_flight,
        result is Ok ==> final(session).applied_wallpaper == Some(id) && final(session).apply_failures == 0 && final(session).next_apply_retry == now,
        result is Err && (result->Err_0 is Busy || result->Err_0 is Yielded) ==> clean_slate(
            *final(session),
            now,
        ),
        result is Err && result->Err_0 is CapabilityGate ==> {
            &&& final(session).gate_refused_ids@.contains_key(id@)
            &&& final(session).applied_wallpaper == old(session).applied_wallpaper
            &&& final(session).apply_failures == old(session).apply_failures
            &&& final(session).next_apply_retry == old(session).next_apply_retry
        },
        result is Err && !(result->Err_0 is Busy || result->Err_0 is Yielded
            || result->Err_0 is CapabilityGate) ==> {
            &&& final(session).applied_wallpaper == old(session).applied_wallpaper
            &&& final(session).apply_failures == u32::MAX || final(session).apply_failures == old(session).apply_failures + 1
            &&& final(session).next_apply_retry == now + wait
        },
        other != id@ || !(result is Err && result->Err_0 is CapabilityGate) ==> (final(session).gate_refused_ids@.contains_key(other) <==> old(session).gate_refused_ids@.contains_key(
            other,
        )),
        final(session).quarantined_ids == old(session).quarantined_ids,
        same_setup(*old(session), *final(session)),
        same_definitions(*old(session), *final(session)),
        same_position(*old(session), *final(session)),
        same_clock(*old(session), *final(session)),
        same_debt(*old(session), *final(session)),
{
}

/// A worker that is live or on its way.
pub open spec fn worker_lives(worker: WorkerStatus) -> bool {
    &&& worker.phase != WorkerPhase::Idle
    &&& worker.phase != WorkerPhase::Stopped
    &&& worker.phase != WorkerPhase::Quarantined
}

/// The worker was asked for this wallpaper.
pub open spec fn worker_wants(worker: WorkerStatus, id: Seq<char>) -> bool {
    worker.requested_wallpaper_id is Some && worker.requested_wallpaper_id->0@ == id
}

/// The worker shows this wallpaper.
pub open spec fn worker_shows(worker: WorkerStatus, id: Seq<char>) -> bool {
    worker.wallpaper_id is Some && worker.wallpaper_id->0@ == id
}

/// The worker was asked for what the session applied last.
pub open spec fn worker_is_own(worker: WorkerStatus, applied: Option<String>) -> bool {
    match (worker.requested_wallpaper_id, applied) {
        (Some(asked), Some(last)) => asked@ == last@,
        (None, None) => true,
        _ => false,
    }
}

/// The wallpaper that a decision names, if it names one.
pub open spec fn named_by(decision: PlaylistDecision) -> Option<String> {
    match decision {
        PlaylistDecision::Started { wallpaper_id, .. } => Some(wallpaper_id),
        PlaylistDecision::Waiting { wallpaper_id, .. } => Some(wallpaper_id),
        PlaylistDecision::Advanced { wallpaper_id, .. } => Some(wallpaper_id),
        PlaylistDecision::Paused { wallpaper_id, .. } => Some(wallpaper_id),
        PlaylistDecision::Exhausted => None,
        PlaylistDecision::NoEligible => None,
    }
}

/// A request is handed out exactly when a wallpaper is named, the worker is
/// known, applying is on, no request is under way, the next try is due, and
/// the worker is neither at what is wanted nor another's. It is for that
/// wallpaper on the session's output, and says what the session applied last
/// and what else the playlist holds.
pub proof fn law_request_puts_the_decision_on_screen<S>(
    session: &mut SessionRuntime<S>,
    playlist: &Playlist,
    decision: &PlaylistDecision,
    status: Option<Result<WorkerStatus, String>>,
    now: u64,
    step: ApplyStep,
)
    requires
        call_ensures(
            SessionRuntime::<S>::maybe_apply,
            (session, playlist, decision, status, now),
            step,
        ),
    ensures
        step is Dispatch <==> {
            &&& named_by(*decision) is Some
            &&& status is Some && status->0 is Ok
            &&& old(session).applies && !old(session).apply_in_flight
            &&& old(session).next_apply_retry <= now
            &&& !worker_lives(status->0->Ok_0) || (!worker_wants(
                status->0->Ok_0,
                named_by(*decision)->0@,
            ) && worker_is_own(status->0->Ok_0, old(session).applied_wallpaper))
        },
        step matches ApplyStep::Dispatch(request) ==> {
            &&& request.wallpaper_id@ == named_by(*decision)->0@
            &&& request.output == old(session).output
            &&& request.applied == old(session).applied_wallpaper
            &&& forall|id: Seq<char>| #[trigger]
                request.playlist_entries@.contains_key(id) <==> has_text(playlist.entries@, id)
        },
        same_setup(*old(session), *final(session)),
        same_definitions(*old(session), *final(session)),
        same_position(*old(session), *final(session)),
        same_clock(*old(session), *final(session)),
        same_exclusions(*old(session), *final(session)),
        same_debt(*old(session), *final(session)),
        final(session).apply_in_flight == old(session).apply_in_flight,
{
    if step is Dispatch {
        let request = step->Dispatch_0;
        assert forall|id: Seq<char>| #[trigger]
            request.playlist_entries@.contains_key(id) <==> has_text(playlist.entries@, id) by {
            lemma_texts(playlist.entries@, id);
        }
    }
}

/// What the session learns from the worker: one that is at what is wanted is
/// as good as applied, another's makes it step back, and an unknown one
/// changes nothing but the error that was seen.
pub proof fn law_worker_is_learnt_from<S>(
    session: &mut SessionRuntime<S>,
    playlist: &Playlist,
    decision: &PlaylistDecision,
    status: Option<Result<WorkerStatus, String>>,
    now: u64,
    step: ApplyStep,
)
    requires
        call_ensures(
            SessionRuntime::<S>::maybe_apply,
            (session, playlist, decision, status, now),
            step,
        ),
    ensures
        named_by(*decision) is None || status is None ==> step is Nothing && *final(session)
            == *old(session),
        named_by(*decision) is Some && status is Some && status->0 is Err ==> {
            &&& step is StatusFailed
            &&& step->news <==> !(old(session).last_status_error is Some && old(session).last_status_error->0@ == status->0->Err_0@)
            &&& final(session).last_status_error is Some && final(session).last_status_error->0@
                == status->0->Err_0@
            &&& same_screen(*old(session), *final(session))
        },
        named_by(*decision) is Some && status is Some && status->0 is Ok ==> {
            let worker = status->0->Ok_0;
            let id = named_by(*decision)->0@;
            let recovered = worker.phase == WorkerPhase::RolledBack || worker.phase
                == WorkerPhase::Restarting;
            &&& final(session).last_status_error is None
            &&& worker_lives(worker) && worker_wants(worker, id) && (worker_shows(worker, id)
                || !recovered) ==> {
                &&& final(session).applied_wallpaper is Some && final(session).applied_wallpaper->0@ == id
                &&& final(session).apply_failures == 0 && final(session).next_apply_retry == now
            }
            &&& worker_lives(worker) && !worker_wants(worker, id) && !worker_is_own(
                worker,
                old(session).applied_wallpaper,
            ) ==> clean_slate(*final(session), now)
            &&& worker_lives(worker) && worker_wants(worker, id) && recovered && !worker_shows(
                worker,
                id,
            ) ==> same_screen(*old(session), *final(session))
            &&& !worker_lives(worker) ==> same_screen(*old(session), *final(session))
        },
{
}

/// A request that was taken is under way; one that was not changes nothing.
pub proof fn law_taken_request_is_under_way<S>(session: &mut SessionRuntime<S>, accepted: bool)
    requires
        call_ensures(SessionRuntime::<S>::dispatched, (session, accepted), ()),
    ensures
        accepted ==> final(session).apply_in_flight,
        !accepted ==> *final(session) == *old(session),
        final(session).applied_wallpaper == old(session).applied_wallpaper,
        final(session).apply_failures == old(session).apply_failures,
        final(session).next_apply_retry == old(session).next_apply_retry,
        same_setup(*old(session), *final(session)),
        same_definitions(*old(session), *final(session)),
        same_position(*old(session), *final(session)),
        same_clock(*old(session), *final(session)),
        same_exclusions(*old(session), *final(session)),
        same_debt(*old(session), *final(session)),
{
}

// ---------------------------------------------------------------------------
// Ticking
// ---------------------------------------------------------------------------

/// The playlist clock runs as fast as the machine's, ahead of it by what was
/// skipped; and a tick is due `tick_ms` after the last.
pub proof fn law_clock_and_ticks<S>(
    session: &SessionRuntime<S>,
    elapsed: u64,
    now: u64,
    since: u64,
    wait: u64,
)
    requires
        call_ensures(SessionRuntime::<S>::now_ms, (session, elapsed), now),
        call_ensures(SessionRuntime::<S>::tick_wait, (session, since), wait),
    ensures
        now - elapsed == session.clock_offset_ms,
        since <= session.tick_ms ==> since + wait == session.tick_ms,
        since >= session.tick_ms ==> wait == 0,
{
}

/// A tick decides for the active playlist, past what is unusable. An active
/// playlist that is gone leaves the session inactive, with a clean slate.
pub proof fn law_tick_is_for_the_active_playlist<S>(
    session: &mut SessionRuntime<S>,
    now: u64,
    step: TickStep,
)
    requires
        call_ensures(SessionRuntime::<S>::begin_tick, (session, now), step),
    ensures
        step is Idle <==> old(session).active is None,
        step is ActiveRemoved <==> old(session).active is Some && !is_defined(
            *old(session),
            old(session).active,
        ),
        !(step is ActiveRemoved) ==> *final(session) == *old(session),
        step is ActiveRemoved ==> {
            &&& final(session).active is None && final(session).last_decision is None
            &&& final(session).owes_persist
            &&& clean_slate(*final(session), now)
            &&& final(session).snapshots == old(session).snapshots
            &&& same_definitions(*old(session), *final(session))
            &&& same_setup(*old(session), *final(session))
            &&& same_clock(*old(session), *final(session))
        },
        step matches TickStep::Decide { playlist, unavailable } ==> is_named(
            *old(session),
            old(session).active,
            playlist,
        ) && passed_over(*old(session), playlist.entries@, unavailable@),
{
    if let Some(id) = session.active {
        let views = crate::playlist::playlist_views(session.playlists@);
        crate::laws_playlist::lemma_goes_by(session.playlists@, id@);
        crate::playlist::lemma_defined(views, id@);
        if let TickStep::Decide { playlist, unavailable } = step {
            lemma_named(*session, id, playlist);
            lemma_passed_over(*session, playlist.entries@, unavailable@);
        }
    }
}

/// A decision is kept. It is owed to the disk when it is of another kind, for
/// another wallpaper or at another position than the last, and every thirty
/// seconds while it waits.
pub proof fn law_decision_is_kept<S>(
    session: &mut SessionRuntime<S>,
    decision: &PlaylistDecision,
    now: u64,
    changed: bool,
    same: bool,
)
    requires
        session.last_decision is Some ==> call_ensures(
            crate::playlist::same_decision,
            (&session.last_decision->0, decision),
            same,
        ),
        call_ensures(SessionRuntime::<S>::decided, (session, decision, now), changed),
    ensures
        final(session).last_decision == Some(*decision),
        changed <==> old(session).last_decision is None || !same,
        changed ==> final(session).owes_persist && final(session).last_waiting_persist == now,
        !changed && (!(decision is Waiting) || now - old(session).last_waiting_persist < 30000)
            ==> same_debt(*old(session), *final(session)),
        decision is Waiting && now - old(session).last_waiting_persist >= 30000 ==> final(session).owes_persist && final(session).last_waiting_persist == now,
        final(session).active == old(session).active,
        final(session).snapshots == old(session).snapshots,
        same_setup(*old(session), *final(session)),
        same_definitions(*old(session), *final(session)),
        same_clock(*old(session), *final(session)),
        same_exclusions(*old(session), *final(session)),
        same_screen(*old(session), *final(session)),
{
}

/// A snapshot that was taken is what is kept of its playlist; the others'
/// stay.
pub proof fn law_snapshot_is_kept<S>(
    session: &mut SessionRuntime<S>,
    id: &str,
    snapshot: Option<S>,
    other: Seq<char>,
)
    requires
        call_ensures(SessionRuntime::<S>::keep_snapshot, (session, id, snapshot), ()),
    ensures
        snapshot matches Some(taken) ==> final(session).snapshots@.contains_key(id@) && final(session).snapshots@[id@] == taken,
        snapshot is None || other != id@ ==> (final(session).snapshots@.contains_key(other)
            <==> old(session).snapshots@.contains_key(other)) && (old(session).snapshots@.contains_key(other) ==> final(session).snapshots@[other] == old(session).snapshots@[other]),
        final(session).active == old(session).active,
        final(session).last_decision == old(session).last_decision,
        same_setup(*old(session), *final(session)),
        same_definitions(*old(session), *final(session)),
        same_clock(*old(session), *final(session)),
        same_exclusions(*old(session), *final(session)),
        same_screen(*old(session), *final(session)),
        same_debt(*old(session), *final(session)),
{
}

// ---------------------------------------------------------------------------
// Persisting
// ---------------------------------------------------------------------------

/// What is written holds the active playlist and at most four mebibytes. No
/// snapshot changes, none of the active playlist's is given up, and none at
/// all where everything fits.
pub proof fn law_written_state_is_the_sessions<
    S,
    E: Fn(&Option<String>, &NameMap<S>) -> Vec<u8>,
    W: FnOnce(&Vec<u8>) -> Result<(), String>,
>(session: &mut SessionRuntime<S>, encode: E, write: W, outcome: Persisted, id: Seq<char>)
    requires
        call_ensures(SessionRuntime::<S>::persist_state::<E, W>, (session, encode, write), outcome),
    ensures
        !final(session).owes_persist,
        outcome is Written ==> exists|bytes: Vec<u8>|
            {
                &&& #[trigger] call_ensures(
                    encode,
                    (&old(session).active, &final(session).snapshots),
                    bytes,
                )
                &&& bytes@.len() <= 4194304
                &&& call_ensures(write, (&bytes,), Ok::<(), String>(()))
            },
        outcome matches Persisted::Oversize(size) ==> size > 4194304,
        final(session).snapshots@.contains_key(id) ==> old(session).snapshots@.contains_key(id)
            && final(session).snapshots@[id] == old(session).snapshots@[id],
        old(session).active is Some && old(session).active->0@ == id && old(session).snapshots@.contains_key(id) ==> final(session).snapshots@.contains_key(id),
        (forall|bytes: Vec<u8>| #[trigger]
            call_ensures(encode, (&old(session).active, &old(session).snapshots), bytes)
                ==> bytes@.len() <= 4194304) ==> final(session).snapshots == old(session).snapshots,
        final(session).active == old(session).active,
        final(session).last_decision == old(session).last_decision,
        final(session).last_waiting_persist == old(session).last_waiting_persist,
        same_setup(*old(session), *final(session)),
        same_definitions(*old(session), *final(session)),
        same_clock(*old(session), *final(session)),
        same_exclusions(*old(session), *final(session)),
        same_screen(*old(session), *final(session)),
{
    let path = choose|path: Seq<NameMap<S>>|
        {
            &&& #[trigger] crate::playlist_session::eviction_path(path, session.active, encode)
            &&& path[0] == session.snapshots
            &&& path.last() == final(session).snapshots
        };
    assert(crate::playlist_session::eviction_path(path, session.active, encode));
    if path.len() > 1 {
        assert(crate::playlist_session::eviction_step(path[0], path[1], session.active, encode));
    }
    if outcome is Oversize {
        let bytes = choose|bytes: Vec<u8>|
            #[trigger] call_ensures(encode, (&session.active, &final(session).snapshots), bytes)
                && bytes@.len() > 4194304 && outcome == Persisted::Oversize(
                bytes@.len() as usize,
            );
        assert(bytes.len() == bytes@.len());
    }
    let before = session.snapshots@;
    let after = final(session).snapshots@;
    assert(after.submap_of(before));
    if after.contains_key(id) {
        assert(after.dom().contains(id));
        assert(before.dom().contains(id));
    }
}

/// A start takes up a runtime state of version 1, within four mebibytes and
/// with at most 256 snapshots: its active playlist, and the snapshots that
/// still hold. From any other file it takes up nothing.
pub proof fn law_runtime_state_is_taken_up<S, V: Fn(&S) -> Result<(), String>>(
    file: RuntimeStateFile<S>,
    validate: V,
    loaded: (Option<String>, NameMap<S>, Option<String>),
    id: Seq<char>,
)
    requires
        call_ensures(load_runtime_state::<S, V>, (file, validate), loaded),
    ensures
        match file {
            RuntimeStateFile::Present { size, content } => {
                let fine = size <= 4194304 && content is Some && content->0 is Parsed
                    && content->0->Parsed_0.schema_version == 1
                    && content->0->Parsed_0.snapshots@.len() <= 256;
                let state = content->0->Parsed_0;
                &&& loaded.2 is None <==> fine
                &&& fine ==> loaded.0 == state.active_playlist_id
                &&& fine && loaded.1@.contains_key(id) ==> state.snapshots@.contains_key(id)
                    && loaded.1@[id] == state.snapshots@[id]
                &&& fine && state.snapshots@.contains_key(id) && !loaded.1@.contains_key(id)
                    ==> exists|answer: Result<(), String>|
                    answer is Err && #[trigger] call_ensures(
                        validate,
                        (&state.snapshots@[id],),
                        answer,
                    )
                &&& fine && loaded.1@.contains_key(id) ==> exists|answer: Result<(), String>|
                    answer is Ok && #[trigger] call_ensures(
                        validate,
                        (&state.snapshots@[id],),
                        answer,
                    )
                &&& !fine ==> loaded.0 is None && !loaded.1@.contains_key(id)
            },
            _ => loaded.0 is None && !loaded.1@.contains_key(id) && loaded.2 is None,
        },
{
    if let RuntimeStateFile::Present { size, content } = file {
        if let Some(StateContent::Parsed(state)) = content {
            let kept = loaded.1@;
            if crate::playlist_session::keeps_valid(state.snapshots@, validate, kept) {
                if kept.contains_key(id) {
                    assert(kept.dom().contains(id));
                    assert(state.snapshots@.dom().contains(id));
                }
                if state.snapshots@.contains_key(id) {
                    assert(crate::playlist_session::snapshot_answered(
                        validate,
                        state.snapshots@[id],
                        kept.contains_key(id),
                    ));
                }
            }
        }
    }
}

/// A session begins as it was set up, over the definitions and the state that
/// were found, with nothing applied, refused, failed or owed. Only a defined
/// playlist is active.
pub proof fn law_session_begins_as_set_up<S>(
    config: PlaylistSessionConfig,
    definitions: Result<Vec<Playlist>, String>,
    active: Option<String>,
    snapshots: NameMap<S>,
    now: u64,
    session: SessionRuntime<S>,
)
    requires
        call_ensures(
            SessionRuntime::<S>::new,
            (config, definitions, active, snapshots, now),
            session,
        ),
    ensures
        session.tick_ms == config.tick_ms,
        session.output == config.output,
        session.applies == config.applies,
        session.valid_ids == config.valid_ids,
        session.snapshots == snapshots,
        definitions matches Ok(playlists) ==> session.playlists == playlists
            && session.store_error is None,
        definitions matches Err(error) ==> session.playlists@.len() == 0 && session.store_error
            == Some(error),
        session.active is Some ==> session.active == active,
        session.active is Some <==> is_defined(session, active),
        clean_slate(session, now),
        session.quarantined_ids@.dom() =~= Set::empty(),
        session.gate_refused_ids@.dom() =~= Set::empty(),
        !session.apply_in_flight && !session.owes_persist,
        session.last_decision is None && session.last_status_error is None,
        session.clock_offset_ms == 0 && session.clock_skipped_ms == 0,
        session.last_waiting_persist == now,
{
    if let Some(id) = active {
        crate::laws_playlist::lemma_goes_by(session.playlists@, id@);
    }
}

/// The active playlist is resumed from its own snapshot, where it has one; and
/// its last position is captured when the session closes.
pub proof fn law_active_playlist_is_resumed<S>(
    session: &SessionRuntime<S>,
    resume: Option<(&Playlist, &S)>,
    captured: Option<Playlist>,
)
    requires
        call_ensures(SessionRuntime::<S>::rehydration, (session,), resume),
        call_ensures(SessionRuntime::<S>::closing, (session,), captured),
    ensures
        resume is Some <==> is_defined(*session, session.active)
            && session.snapshots@.contains_key(session.active->0@),
        resume matches Some((playlist, snapshot)) ==> is_named(*session, session.active, *playlist)
            && *snapshot == session.snapshots@[session.active->0@],
        captured is Some <==> is_defined(*session, session.active),
        captured matches Some(playlist) ==> is_named(*session, session.active, playlist),
{
    if let Some(id) = session.active {
        let views = crate::playlist::playlist_views(session.playlists@);
        crate::laws_playlist::lemma_goes_by(session.playlists@, id@);
        crate::playlist::lemma_defined(views, id@);
        if let Some((playlist, snapshot)) = resume {
            lemma_named(*session, id, *playlist);
        }
        if let Some(playlist) = captured {
            lemma_named(*session, id, playlist);
        }
    }
}

// ---------------------------------------------------------------------------
// Commands
// ---------------------------------------------------------------------------

/// A command that was queued and replied to comes to its reply; any other to a
/// busy session.
pub proof fn law_reply_is_handed_on<S, T>(
    sent: Sent,
    reply: Option<Result<T, SessionError>>,
    answer: Result<T, SessionError>,
)
    requires
        call_ensures(PlaylistSessionHandle::<S>::request::<T>, (sent, reply), answer),
    ensures
        sent == Sent::Queued && reply is Some ==> answer == reply->0,
        sent != Sent::Queued || reply is None ==> answer is Err && answer->Err_0 is Busy,
        sent == Sent::Full ==> answer->Err_0->Busy_0@ == "playlist command queue is full"@,
        sent == Sent::Disconnected ==> answer->Err_0->Busy_0@
            == "playlist session is unavailable"@,
        sent == Sent::Queued && reply is None ==> answer->Err_0->Busy_0@
            == "playlist command timed out"@,
{
}

/// The listed playlists are the session's, in order; a store that could not be
/// read lists nothing.
pub proof fn law_list_is_the_sessions<S>(
    handle: &PlaylistSessionHandle<S>,
    listed: Result<Vec<Playlist>, SessionError>,
    status: Result<SessionStatus, SessionError>,
)
    requires
        call_ensures(PlaylistSessionHandle::<S>::list, (handle,), listed),
        call_ensures(PlaylistSessionHandle::<S>::status, (handle,), status),
    ensures
        listed is Ok <==> handle.runtime.store_error is None,
        listed matches Ok(playlists) ==> playlists@.len() == handle.runtime.playlists@.len()
            && forall|i: int|
            0 <= i < playlists@.len() ==> same_playlist(
                #[trigger] playlists@[i],
                handle.runtime.playlists@[i],
            ),
        listed matches Err(error) ==> error is StoreUnavailable && error->StoreUnavailable_0
            == handle.runtime.store_error->0,
        status is Ok && tells(handle.runtime, status->Ok_0),
{
    lemma_tells(handle.runtime, status->Ok_0);
    if let Ok(playlists) = listed {
        let a = crate::playlist::playlist_views(playlists@);
        let b = crate::playlist::playlist_views(handle.runtime.playlists@);
        assert(a.len() == playlists@.len() && b.len() == handle.runtime.playlists@.len());
        assert forall|i: int| 0 <= i < playlists@.len() implies same_playlist(
            #[trigger] playlists@[i],
            handle.runtime.playlists@[i],
        ) by {
            assert(a[i] == playlists@[i]@ && b[i] == handle.runtime.playlists@[i]@);
            crate::laws_playlist::lemma_playlists(playlists@[i], handle.runtime.playlists@[i]);
        }
    }
}

/// A playlist that was put in goes by its name, and everything that goes by
/// another name still does. What was refused changes nothing, and nothing but
/// the definitions changes.
pub proof fn law_put_goes_by_its_name<
    S,
    V: FnOnce(&Playlist) -> Result<(), String>,
    W: FnOnce(&Vec<Playlist>) -> Result<(), String>,
>(
    handle: &mut PlaylistSessionHandle<S>,
    playlist: Playlist,
    validate: V,
    save: W,
    answer: Result<Playlist, SessionError>,
    other: Seq<char>,
)
    requires
        call_ensures(
            PlaylistSessionHandle::<S>::put::<V, W>,
            (handle, playlist, validate, save),
            answer,
        ),
    ensures
        answer is Ok ==> {
            let after = final(handle).runtime.playlists@;
            &&& same_playlist(answer->Ok_0, playlist)
            &&& after.len() > 0 && same_playlist(after.last(), playlist)
            &&& forall|i: int|
                0 <= i < after.len() - 1 ==> (#[trigger] after[i]).id@ != playlist.id@
            &&& other != playlist.id@ ==> (goes_by(after, other) <==> goes_by(
                old(handle).runtime.playlists@,
                other,
            ))
        },
        answer is Err ==> final(handle).runtime == old(handle).runtime,
        old(handle).runtime.store_error is Some ==> answer is Err
            && answer->Err_0 is StoreUnavailable,
        final(handle).runtime.store_error == old(handle).runtime.store_error,
        same_setup(old(handle).runtime, final(handle).runtime),
        same_position(old(handle).runtime, final(handle).runtime),
        same_clock(old(handle).runtime, final(handle).runtime),
        same_exclusions(old(handle).runtime, final(handle).runtime),
        same_screen(old(handle).runtime, final(handle).runtime),
        same_debt(old(handle).runtime, final(handle).runtime),
{
    if answer is Ok {
        let before = crate::playlist::playlist_views(handle.runtime.playlists@);
        let after = crate::playlist::playlist_views(final(handle).runtime.playlists@);
        let kept = crate::playlist::without(before, playlist.id@);
        crate::playlist::lemma_without(before, playlist.id@, playlist.id@);
        crate::playlist::lemma_without(before, playlist.id@, other);
        crate::laws_playlist::lemma_playlists(answer->Ok_0, playlist);
        assert(after == kept.push(playlist@));
        assert(after.len() == final(handle).runtime.playlists@.len());
        assert(after.last() == final(handle).runtime.playlists@.last()@);
        crate::laws_playlist::lemma_playlists(final(handle).runtime.playlists@.last(), playlist);
        assert forall|i: int| 0 <= i < final(handle).runtime.playlists@.len() - 1 implies (
        #[trigger] final(handle).runtime.playlists@[i]).id@ != playlist.id@ by {
            assert(after[i] == kept[i]);
            assert(after[i].id == final(handle).runtime.playlists@[i].id@);
            assert(!crate::playlist::defines(kept, playlist.id@));
        }
        crate::laws_playlist::lemma_goes_by(handle.runtime.playlists@, other);
        crate::laws_playlist::lemma_goes_by(final(handle).runtime.playlists@, other);
        if other != playlist.id@ {
            if crate::playlist::defines(kept, other) {
                let i = choose|i: int| 0 <= i < kept.len() && (#[trigger] kept[i]).id == other;
                assert(after[i].id == other);
            }
            if crate::playlist::defines(after, other) {
                let i = choose|i: int| 0 <= i < after.len() && (#[trigger] after[i]).id == other;
                assert(kept[i].id == other);
            }
        }
    }
}

/// A playlist that was taken out is gone, with its snapshot, and nothing plays
/// it; everything else stays. What was refused changes nothing.
pub proof fn law_taken_out_is_gone<S, W: FnOnce(&Vec<Playlist>) -> Result<(), String>>(
    handle: &mut PlaylistSessionHandle<S>,
    id: String,
    save: W,
    answer: Result<String, SessionError>,
    other: Seq<char>,
)
    requires
        call_ensures(PlaylistSessionHandle::<S>::remove::<W>, (handle, id, save), answer),
    ensures
        answer is Ok ==> {
            let before = old(handle).runtime;
            let after = final(handle).runtime;
            &&& answer->Ok_0 == id
            &&& goes_by(before.playlists@, id@) && !goes_by(after.playlists@, id@)
            &&& other != id@ ==> (goes_by(after.playlists@, other) <==> goes_by(
                before.playlists@,
                other,
            ))
            &&& !after.snapshots@.contains_key(id@)
            &&& other != id@ && before.snapshots@.contains_key(other)
                ==> after.snapshots@.contains_key(other) && after.snapshots@[other]
                == before.snapshots@[other]
            &&& before.active is Some && before.active->0@ == id@ ==> after.active is None
                && after.last_decision is None
            &&& !(before.active is Some && before.active->0@ == id@) ==> after.active
                == before.active && after.last_decision == before.last_decision
            &&& after.owes_persist
        },
        answer is Err ==> final(handle).runtime == old(handle).runtime,
        old(handle).runtime.store_error is None && !goes_by(old(handle).runtime.playlists@, id@)
            ==> answer is Err && answer->Err_0 is NotFound && answer->Err_0->NotFound_0 == id,
        old(handle).runtime.store_error is Some ==> answer is Err
            && answer->Err_0 is StoreUnavailable,
        same_setup(old(handle).runtime, final(handle).runtime),
        same_clock(old(handle).runtime, final(handle).runtime),
        same_exclusions(old(handle).runtime, final(handle).runtime),
        same_screen(old(handle).runtime, final(handle).runtime),
{
    let before = crate::playlist::playlist_views(handle.runtime.playlists@);
    crate::playlist::lemma_without(before, id@, id@);
    crate::playlist::lemma_without(before, id@, other);
    crate::laws_playlist::lemma_goes_by(handle.runtime.playlists@, id@);
    crate::laws_playlist::lemma_goes_by(handle.runtime.playlists@, other);
    crate::laws_playlist::lemma_goes_by(final(handle).runtime.playlists@, id@);
    crate::laws_playlist::lemma_goes_by(final(handle).runtime.playlists@, other);
}

/// Only a defined playlist is activated; the active one stays as it is; any
/// other begins with a clean slate, from its snapshot exactly where it has
/// one, past what is unusable. Activating none leaves none active.
pub proof fn law_activation_begins_with_the_named_playlist<S>(
    handle: &mut PlaylistSessionHandle<S>,
    id: Option<String>,
    now: u64,
    answer: Result<Activation, SessionError>,
)
    requires
        call_ensures(PlaylistSessionHandle::<S>::activate, (handle, id, now), answer),
    ensures
        ({
            let before = old(handle).runtime;
            let after = final(handle).runtime;
            let active = before.active is Some && id is Some && before.active->0@ == id->0@;
            &&& answer is Err <==> before.store_error is Some || (id is Some && !is_defined(
                before,
                id,
            ))
            &&& answer is Err ==> after == before
            &&& answer is Err && before.store_error is None ==> answer->Err_0 is NotFound
                && answer->Err_0->NotFound_0 == id->0
            &&& answer is Ok && id is None ==> {
                &&& answer->Ok_0 is Deactivated && tells(after, answer->Ok_0->Deactivated_0)
                &&& after.active is None && after.last_decision is None && after.owes_persist
                &&& clean_slate(after, now)
            }
            &&& answer is Ok && active ==> answer->Ok_0 is Unchanged && tells(
                before,
                answer->Ok_0->Unchanged_0,
            ) && after == before
            &&& answer is Ok && id is Some && !active ==> {
                &&& answer->Ok_0 is Restore <==> before.snapshots@.contains_key(id->0@)
                &&& answer->Ok_0 is Start <==> !before.snapshots@.contains_key(id->0@)
                &&& clean_slate(after, now)
                &&& after.gate_refused_ids@.dom() =~= Set::empty()
                &&& same_position(before, after)
                &&& match answer->Ok_0 {
                    Activation::Restore { playlist, unavailable } => is_named(before, id, playlist)
                        && passed_over(after, playlist.entries@, unavailable@),
                    Activation::Start { playlist, unavailable } => is_named(before, id, playlist)
                        && passed_over(after, playlist.entries@, unavailable@),
                    _ => false,
                }
            }
            &&& after.snapshots == before.snapshots
            &&& same_definitions(before, after)
            &&& same_setup(before, after)
            &&& same_clock(before, after)
        }),
{
    let before = handle.runtime;
    let after = final(handle).runtime;
    if let Some(name) = id {
        let views = crate::playlist::playlist_views(before.playlists@);
        crate::laws_playlist::lemma_goes_by(before.playlists@, name@);
        crate::playlist::lemma_defined(views, name@);
    }
    if let Ok(begun) = answer {
        match begun {
            Activation::Unchanged(status) => {
                lemma_tells(before, status);
            },
            Activation::Deactivated(status) => {
                lemma_tells(after, status);
            },
            Activation::Restore { playlist, unavailable } => {
                lemma_named(before, id->0, playlist);
                lemma_passed_over(after, playlist.entries@, unavailable@);
            },
            Activation::Start { playlist, unavailable } => {
                lemma_named(before, id->0, playlist);
                lemma_passed_over(after, playlist.entries@, unavailable@);
            },
        }
    }
}

/// A playlist that was activated is the active one, with its first decision;
/// and a snapshot that could not be restored is given up, and no other.
pub proof fn law_activated_is_active<S>(
    handle: &mut PlaylistSessionHandle<S>,
    id: String,
    decision: Result<PlaylistDecision, String>,
    snapshot: Option<S>,
    status: SessionStatus,
    other: Seq<char>,
)
    requires
        call_ensures(
            PlaylistSessionHandle::<S>::activated,
            (handle, id, decision, snapshot),
            status,
        ),
    ensures
        final(handle).runtime.active == Some(id),
        decision matches Ok(taken) ==> final(handle).runtime.last_decision == Some(taken),
        decision is Err ==> final(handle).runtime.last_decision == Some(
            PlaylistDecision::NoEligible,
        ),
        final(handle).runtime.owes_persist,
        snapshot matches Some(taken) ==> final(handle).runtime.snapshots@.contains_key(id@)
            && final(handle).runtime.snapshots@[id@] == taken,
        snapshot is None || other != id@ ==> (final(handle).runtime.snapshots@.contains_key(other)
            <==> old(handle).runtime.snapshots@.contains_key(other)),
        tells(final(handle).runtime, status),
        same_definitions(old(handle).runtime, final(handle).runtime),
        same_setup(old(handle).runtime, final(handle).runtime),
        same_clock(old(handle).runtime, final(handle).runtime),
        same_exclusions(old(handle).runtime, final(handle).runtime),
        same_screen(old(handle).runtime, final(handle).runtime),
{
    lemma_tells(final(handle).runtime, status);
}

/// A snapshot that could not be restored is given up, and no other.
pub proof fn law_unrestorable_snapshot_is_given_up<S>(
    handle: &mut PlaylistSessionHandle<S>,
    id: &str,
    other: Seq<char>,
)
    requires
        call_ensures(PlaylistSessionHandle::<S>::restore_failed, (handle, id), ()),
    ensures
        !final(handle).runtime.snapshots@.contains_key(id@),
        other != id@ ==> (final(handle).runtime.snapshots@.contains_key(other) <==> old(handle).runtime.snapshots@.contains_key(other)),
        final(handle).runtime.active == old(handle).runtime.active,
        final(handle).runtime.last_decision == old(handle).runtime.last_decision,
        same_definitions(old(handle).runtime, final(handle).runtime),
        same_setup(old(handle).runtime, final(handle).runtime),
        same_clock(old(handle).runtime, final(handle).runtime),
        same_exclusions(old(handle).runtime, final(handle).runtime),
        same_screen(old(handle).runtime, final(handle).runtime),
        same_debt(old(handle).runtime, final(handle).runtime),
{
}

/// Only an empty store that could be read takes an import, of at most 256
/// playlists. What it takes is what was imported, field by field and in
/// order, and every playlist is either among it or counted as rejected. What
/// was refused changes nothing.
pub proof fn law_import_fills_an_empty_store<
    S,
    V: Fn(&Playlist) -> Result<(), String>,
    W: FnOnce(&Vec<Playlist>) -> Result<(), String>,
>(
    handle: &mut PlaylistSessionHandle<S>,
    legacy: Vec<ImportPlaylist>,
    validate: V,
    save: W,
    answer: Result<ImportSummary, SessionError>,
)
    requires
        call_ensures(
            PlaylistSessionHandle::<S>::import::<V, W>,
            (handle, legacy, validate, save),
            answer,
        ),
    ensures
        answer is Ok ==> {
            let after = final(handle).runtime.playlists@;
            &&& old(handle).runtime.store_error is None
            &&& old(handle).runtime.playlists@.len() == 0
            &&& answer->Ok_0.imported == after.len() && after.len() <= 256
            &&& answer->Ok_0.imported + answer->Ok_0.rejected == legacy@.len()
            &&& exists|from: Seq<int>| #[trigger] derived_from(legacy@, after, from)
        },
        answer is Err ==> final(handle).runtime == old(handle).runtime,
        old(handle).runtime.store_error is Some ==> answer is Err
            && answer->Err_0 is StoreUnavailable,
        old(handle).runtime.store_error is None && old(handle).runtime.playlists@.len() > 0
            ==> answer is Err && answer->Err_0 is ImportBlocked,
        final(handle).runtime.store_error == old(handle).runtime.store_error,
        same_setup(old(handle).runtime, final(handle).runtime),
        same_position(old(handle).runtime, final(handle).runtime),
        same_clock(old(handle).runtime, final(handle).runtime),
        same_exclusions(old(handle).runtime, final(handle).runtime),
        same_screen(old(handle).runtime, final(handle).runtime),
        same_debt(old(handle).runtime, final(handle).runtime),
{
    if answer is Ok {
        let views = crate::playlist::import_views(legacy@);
        let after = final(handle).runtime.playlists@;
        let accepted = choose|accepted: Seq<bool>|
            {
                &&& #[trigger] crate::playlist::import_answers(views, accepted, validate)
                &&& crate::playlist_session::import_ends(
                    crate::playlist::import_run(views, accepted),
                    save,
                    crate::playlist::playlist_views(after),
                    answer,
                )
            };
        let run = crate::playlist::import_run(views, accepted);
        assert(crate::playlist::playlist_views(after).len() == after.len());
        crate::laws_playlist::lemma_derived(legacy@, accepted, after, run.1);
    }
}

/// A clock skip of 1 ms to one hour freezes the clock now and resumes it that
/// much later; nothing else changes, and any other skip is refused.
pub proof fn law_clock_skip_is_bounded<S>(
    handle: &mut PlaylistSessionHandle<S>,
    ms: u64,
    elapsed: u64,
    answer: Result<ClockSkip, SessionError>,
)
    requires
        elapsed + handle.runtime.clock_offset_ms + ms <= u64::MAX,
        handle.runtime.clock_skipped_ms + ms <= u64::MAX,
        call_ensures(PlaylistSessionHandle::<S>::debug_clock_skip, (handle, ms, elapsed), answer),
    ensures
        answer is Ok <==> 1 <= ms <= 3600000,
        answer is Err ==> final(handle).runtime == old(handle).runtime
            && answer->Err_0 is Invalid,
        answer matches Ok(skip) ==> {
            let before = old(handle).runtime;
            let after = final(handle).runtime;
            &&& skip.freeze_at == elapsed + before.clock_offset_ms
            &&& skip.resume_at == skip.freeze_at + ms
            &&& after.clock_offset_ms == before.clock_offset_ms + ms
            &&& after.clock_skipped_ms == before.clock_skipped_ms + ms
            &&& skip.resumed is Some <==> is_defined(before, before.active)
            &&& skip.resumed matches Some((playlist, unavailable)) ==> is_named(
                before,
                before.active,
                playlist,
            ) && passed_over(before, playlist.entries@, unavailable@)
        },
        same_setup(old(handle).runtime, final(handle).runtime),
        same_definitions(old(handle).runtime, final(handle).runtime),
        same_position(old(handle).runtime, final(handle).runtime),
        same_exclusions(old(handle).runtime, final(handle).runtime),
        same_screen(old(handle).runtime, final(handle).runtime),
        same_debt(old(handle).runtime, final(handle).runtime),
{
    let before = handle.runtime;
    if let Some(id) = before.active {
        let views = crate::playlist::playlist_views(before.playlists@);
        crate::laws_playlist::lemma_goes_by(before.playlists@, id@);
        crate::playlist::lemma_defined(views, id@);
        if let Ok(skip) = answer {
            if let Some((playlist, unavailable)) = skip.resumed {
                lemma_named(before, id, playlist);
                lemma_passed_over(before, playlist.entries@, unavailable@);
            }
        }
    }
}

/// After a clock skip the resumed clock's decision is the last one, if it made
/// one; nothing else changes.
pub proof fn law_skipped_clock_decides<S>(
    handle: &mut PlaylistSessionHandle<S>,
    decision: Option<PlaylistDecision>,
    status: SessionStatus,
)
    requires
        call_ensures(PlaylistSessionHandle::<S>::clock_skipped, (handle, decision), status),
    ensures
        decision is Some ==> final(handle).runtime.last_decision == decision,
        decision is None ==> final(handle).runtime == old(handle).runtime,
        tells(final(handle).runtime, status),
        final(handle).runtime.active == old(handle).runtime.active,
        final(handle).runtime.snapshots == old(handle).runtime.snapshots,
        same_setup(old(handle).runtime, final(handle).runtime),
        same_definitions(old(handle).runtime, final(handle).runtime),
        same_clock(old(handle).runtime, final(handle).runtime),
        same_exclusions(old(handle).runtime, final(handle).runtime),
        same_screen(old(handle).runtime, final(handle).runtime),
        same_debt(old(handle).runtime, final(handle).runtime),
{
    lemma_tells(final(handle).runtime, status);
}

/// News of what is installed replaces what was known, if it was queued;
/// nothing else changes.
pub proof fn law_news_of_installs_is_taken<S>(
    handle: &mut PlaylistSessionHandle<S>,
    sent: Sent,
    valid_ids: NameMap<()>,
    taken: bool,
)
    requires
        call_ensures(
            PlaylistSessionHandle::<S>::update_availability,
            (handle, sent, valid_ids),
            taken,
        ),
    ensures
        taken <==> sent == Sent::Queued,
        taken ==> final(handle).runtime.valid_ids == valid_ids,
        !taken ==> final(handle).runtime == old(handle).runtime,
        final(handle).runtime.output == old(handle).runtime.output,
        same_definitions(old(handle).runtime, final(handle).runtime),
        same_position(old(handle).runtime, final(handle).runtime),
        same_clock(old(handle).runtime, final(handle).runtime),
        same_exclusions(old(handle).runtime, final(handle).runtime),
        same_screen(old(handle).runtime, final(handle).runtime),
        same_debt(old(handle).runtime, final(handle).runtime),
{
}

// ---------------------------------------------------------------------------
// What is saved
// ---------------------------------------------------------------------------

/// These definitions were saved, one by one as they are.
pub open spec fn definitions_saved<W: FnOnce(&Vec<Playlist>) -> Result<(), String>>(
    save: W,
    playlists: Seq<Playlist>,
) -> bool {
    exists|list: Vec<Playlist>, done: Result<(), String>|
        {
            &&& done is Ok && #[trigger] call_ensures(save, (&list,), done)
            &&& list@.len() == playlists.len()
            &&& forall|i: int|
                0 <= i < list@.len() ==> same_playlist(#[trigger] list@[i], playlists[i])
        }
}

proof fn lemma_saved<W: FnOnce(&Vec<Playlist>) -> Result<(), String>>(
    save: W,
    playlists: Seq<Playlist>,
)
    requires
        crate::playlist_session::saves_as(
            save,
            crate::playlist::playlist_views(playlists),
            Ok(()),
        ),
    ensures
        definitions_saved(save, playlists),
{
    let views = crate::playlist::playlist_views(playlists);
    let list = choose|list: Vec<Playlist>|
        #![trigger crate::playlist::playlist_views(list@)]
        crate::playlist::playlist_views(list@) == views && call_ensures(save, (&list,), Ok(()));
    let saved = crate::playlist::playlist_views(list@);
    assert(saved.len() == list@.len() && views.len() == playlists.len());
    assert forall|i: int| 0 <= i < list@.len() implies same_playlist(
        #[trigger] list@[i],
        playlists[i],
    ) by {
        assert(saved[i] == list@[i]@ && views[i] == playlists[i]@);
        crate::laws_playlist::lemma_playlists(list@[i], playlists[i]);
    }
    assert(call_ensures(save, (&list,), Ok(())));
}

/// Whatever the definitions are after a command that was taken was saved.
pub proof fn law_definitions_in_force_were_saved<
    S,
    V: FnOnce(&Playlist) -> Result<(), String>,
    C: Fn(&Playlist) -> Result<(), String>,
    W: FnOnce(&Vec<Playlist>) -> Result<(), String>,
>(
    putting: &mut PlaylistSessionHandle<S>,
    playlist: Playlist,
    validate: V,
    put: Result<Playlist, SessionError>,
    removing: &mut PlaylistSessionHandle<S>,
    id: String,
    removed: Result<String, SessionError>,
    importing: &mut PlaylistSessionHandle<S>,
    legacy: Vec<ImportPlaylist>,
    check: C,
    imported: Result<ImportSummary, SessionError>,
    save: W,
)
    requires
        call_ensures(
            PlaylistSessionHandle::<S>::put::<V, W>,
            (putting, playlist, validate, save),
            put,
        ),
        call_ensures(PlaylistSessionHandle::<S>::remove::<W>, (removing, id, save), removed),
        call_ensures(
            PlaylistSessionHandle::<S>::import::<C, W>,
            (importing, legacy, check, save),
            imported,
        ),
    ensures
        put is Ok ==> definitions_saved(save, final(putting).runtime.playlists@),
        put is Ok ==> exists|answer: Result<(), String>|
            answer is Ok && #[trigger] call_ensures(validate, (&playlist,), answer),
        removed is Ok ==> definitions_saved(save, final(removing).runtime.playlists@),
        imported is Ok ==> definitions_saved(save, final(importing).runtime.playlists@),
{
    if put is Ok {
        lemma_saved(save, final(putting).runtime.playlists@);
        assert(call_ensures(validate, (&playlist,), Ok(())));
    }
    if removed is Ok {
        lemma_saved(save, final(removing).runtime.playlists@);
    }
    if imported is Ok {
        lemma_saved(save, final(importing).runtime.playlists@);
    }
}

/// Snapshots are given up in the order of their names: whatever is given up
/// stands before whatever is kept, but for the active playlist's.
pub proof fn law_snapshots_are_given_up_by_name<
    S,
    E: Fn(&Option<String>, &NameMap<S>) -> Vec<u8>,
    W: FnOnce(&Vec<u8>) -> Result<(), String>,
>(
    session: &mut SessionRuntime<S>,
    encode: E,
    write: W,
    outcome: Persisted,
    gone: &str,
    kept: &str,
    before: bool,
)
    requires
        call_ensures(SessionRuntime::<S>::persist_state::<E, W>, (session, encode, write), outcome),
        session.snapshots@.contains_key(gone@),
        !final(session).snapshots@.contains_key(gone@),
        final(session).snapshots@.contains_key(kept@),
        !(session.active is Some && session.active->0@ == kept@),
        call_ensures(crate::names::is_before, (gone, kept), before),
    ensures
        before,
{
    let path = choose|path: Seq<NameMap<S>>|
        {
            &&& #[trigger] crate::playlist_session::eviction_path(path, session.active, encode)
            &&& path[0] == session.snapshots
            &&& path.last() == final(session).snapshots
        };
    lemma_given_up(path, session.active, encode, gone@, kept@);
}

proof fn lemma_given_up<S, E: Fn(&Option<String>, &NameMap<S>) -> Vec<u8>>(
    path: Seq<NameMap<S>>,
    active: Option<String>,
    encode: E,
    gone: Seq<char>,
    kept: Seq<char>,
)
    requires
        crate::playlist_session::eviction_path(path, active, encode),
        path[0]@.contains_key(gone),
        path.last()@.contains_key(kept),
        crate::probe::option_view(active) != Some(kept),
    ensures
        path[0]@.contains_key(kept),
        !path.last()@.contains_key(gone) ==> crate::names::precedes(gone, kept),
    decreases path.len(),
{
    if path.len() > 1 {
        let n = path.len() - 2;
        let shorter = path.drop_last();
        assert(crate::playlist_session::eviction_step(path[n], path[n + 1], active, encode));
        let id = choose|id: Seq<char>| #[trigger]
            crate::playlist_session::evicted_next(path[n]@, active, id) && path[n + 1]@
                == path[n]@.remove(id);
        assert forall|i: int| 0 <= i < shorter.len() - 1 implies
            crate::playlist_session::eviction_step(
            #[trigger] shorter[i],
            shorter[i + 1],
            active,
            encode,
        ) by {
            assert(shorter[i] == path[i] && shorter[i + 1] == path[i + 1]);
        }
        assert(shorter.last() == path[n]);
        assert(path[n]@.contains_key(kept));
        lemma_given_up(shorter, active, encode, gone, kept);
        if path[n]@.contains_key(gone) && !path.last()@.contains_key(gone) {
            assert(gone == id);
            assert(crate::playlist_session::evictable(path[n]@, active, kept));
        }
    }
}

/// Entries that are passed over come in the order of their names, each once.
pub proof fn law_passed_over_entries_are_in_order<S>(
    session: &SessionRuntime<S>,
    playlist: &Playlist,
    ids: Vec<String>,
    i: int,
    j: int,
    a: &str,
    b: &str,
    before: bool,
)
    requires
        call_ensures(SessionRuntime::<S>::unavailable_for, (session, playlist), ids),
        0 <= i < j < ids@.len(),
        a@ == ids@[i]@,
        b@ == ids@[j]@,
        call_ensures(crate::names::is_before, (a, b), before),
    ensures
        before,
{
    let views = crate::text::views(ids@);
    assert(views.len() == ids@.len());
    assert(views[i] == a@ && views[j] == b@);
}

} // verus!
