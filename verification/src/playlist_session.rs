//! The playlist session: which playlist plays, what is kept of it across a
//! restart, and when its wallpaper is put on screen.
//!
//! Times are milliseconds of a monotonic clock. What persists is durations,
//! never deadlines, so that a restart resumes with the same remaining time.

use vstd::prelude::*;

use crate::apply::ApplyError;
use crate::model::WorkerStatus;
use crate::names;
use crate::names::NameMap;
use crate::persist::StateContent;
use crate::playlist;
use crate::playlist::{
    copy_playlists,
    copy_without,
    decision_wallpaper_id,
    derive_playlists,
    find_playlist,
    same_decision,
    ImportPlaylist,
    Playlist,
    PlaylistDecision,
    PlaylistView,
};
use crate::probe;
use crate::text;
use crate::text::same;
use crate::verdict;
use crate::verdict::{apply_backoff, apply_verdict, ApplyVerdict};

verus! {

/// How often the position within a waiting entry is persisted.
pub const WAITING_PERSIST_INTERVAL_MS: u64 = 30000;

/// The largest runtime state file, in bytes.
pub const MAX_RUNTIME_STATE_BYTES: u64 = 4194304;

/// The most snapshots that a runtime state file holds.
pub const MAX_SNAPSHOT_ENTRIES: usize = 256;

/// The most playlists that one import yields.
pub const MAX_IMPORTED_PLAYLISTS: usize = 256;

/// The longest clock skip.
pub const MAX_CLOCK_SKIP_MS: u64 = 3600000;

pub const RUNTIME_STATE_SCHEMA_VERSION: u32 = 1;

pub const RUNTIME_STATE_FILE: &'static str = "playlist-runtime-v1.json";

pub const DEFINITIONS_FILE: &'static str = "playlists-v1.json";

// ---------------------------------------------------------------------------
// What the session reports
// ---------------------------------------------------------------------------

/// How many definitions there are, and whether their file could be read.
#[derive(Debug)]
pub struct DefinitionsHealth {
    pub count: usize,
    pub store_health: String,
}

/// The state of the session.
#[derive(Debug)]
pub struct SessionStatus {
    pub active: bool,
    pub playlist_id: Option<String>,
    pub decision: Option<PlaylistDecision>,
    pub unavailable_ids: Vec<String>,
    pub definitions: DefinitionsHealth,
    pub clock_skipped_ms: u64,
}

/// What an import came to.
#[derive(Debug, Clone, Copy, PartialEq, Eq, Structural)]
pub struct ImportSummary {
    pub imported: usize,
    pub rejected: usize,
}

/// Why a command was refused.
#[derive(Debug)]
pub enum SessionError {
    NotFound(String),
    ImportBlocked,
    StoreUnavailable(String),
    Invalid(String),
    Busy(String),
}

impl SessionError {
    pub open spec fn text(&self) -> Seq<char> {
        match self {
            SessionError::NotFound(detail) => "not found: "@ + detail@,
            SessionError::ImportBlocked => "playlist store is not empty"@,
            SessionError::StoreUnavailable(detail) => "store: "@ + detail@,
            SessionError::Invalid(detail) => "invalid: "@ + detail@,
            SessionError::Busy(detail) => "session busy: "@ + detail@,
        }
    }

    /// The error in words.
    pub fn message(&self) -> (message: String)
        ensures
            message@ == self.text(),
    {
        match self {
            SessionError::NotFound(detail) => "not found: ".to_owned().concat(detail.as_str()),
            SessionError::ImportBlocked => "playlist store is not empty".to_owned(),
            SessionError::StoreUnavailable(detail) => "store: ".to_owned().concat(detail.as_str()),
            SessionError::Invalid(detail) => "invalid: ".to_owned().concat(detail.as_str()),
            SessionError::Busy(detail) => "session busy: ".to_owned().concat(detail.as_str()),
        }
    }
}

// ---------------------------------------------------------------------------
// The session
// ---------------------------------------------------------------------------

/// What a session is started with.
pub struct PlaylistSessionConfig {
    pub state_dir: String,
    pub tick_ms: u64,
    /// The wallpapers that are installed and usable.
    pub valid_ids: NameMap<()>,
    /// The output that playlists apply to; without one it is found at apply
    /// time.
    pub output: Option<String>,
    /// Whether wallpapers are applied at all; if not, the session only keeps
    /// time.
    pub applies: bool,
}

/// One request to put a wallpaper on screen.
pub struct ApplyRequest {
    pub output: Option<String>,
    pub wallpaper_id: String,
    pub playlist_entries: NameMap<()>,
    /// What the session applied last, to tell its own renderer from another's.
    pub applied: Option<String>,
}

/// The session's state. `S` is a snapshot of a playlist's position.
#[verifier::reject_recursive_types(S)]
pub struct SessionRuntime<S> {
    pub tick_ms: u64,
    pub output: Option<String>,
    pub applies: bool,
    pub playlists: Vec<Playlist>,
    pub store_error: Option<String>,
    pub snapshots: NameMap<S>,
    pub active: Option<String>,
    pub last_decision: Option<PlaylistDecision>,
    pub last_waiting_persist: u64,
    pub valid_ids: NameMap<()>,
    pub quarantined_ids: NameMap<()>,
    /// What the capability gate refused since the playlist was activated.
    pub gate_refused_ids: NameMap<()>,
    /// What the session applied last, or found on screen as it wanted.
    pub applied_wallpaper: Option<String>,
    pub apply_failures: u32,
    pub next_apply_retry: u64,
    /// A request was handed out and its outcome is not folded in yet.
    pub apply_in_flight: bool,
    pub last_status_error: Option<String>,
    pub clock_offset_ms: u64,
    pub clock_skipped_ms: u64,
    /// The state changed in a way that has to reach the disk.
    pub owes_persist: bool,
}

/// Nothing is played of this wallpaper now.
pub open spec fn excluded<S>(session: SessionRuntime<S>, id: Seq<char>) -> bool {
    ||| !session.valid_ids@.contains_key(id)
    ||| session.quarantined_ids@.contains_key(id)
    ||| session.gate_refused_ids@.contains_key(id)
}

/// `ids` are the entries of which nothing is played, each once and in order.
pub open spec fn lists_excluded<S>(
    session: SessionRuntime<S>,
    entries: Seq<Seq<char>>,
    ids: Seq<Seq<char>>,
) -> bool {
    &&& forall|i: int, j: int|
        0 <= i < j < ids.len() ==> names::precedes(#[trigger] ids[i], #[trigger] ids[j])
    &&& forall|id: Seq<char>| #[trigger]
        ids.contains(id) <==> entries.contains(id) && excluded(session, id)
}

/// The active playlist's definition.
pub open spec fn active_playlist<S>(session: SessionRuntime<S>) -> Option<PlaylistView> {
    match session.active {
        Some(id) => playlist::defined(playlist::playlist_views(session.playlists@), id@),
        None => None,
    }
}

/// `status` is what the session reports in this state.
pub open spec fn reports<S>(session: SessionRuntime<S>, status: SessionStatus) -> bool {
    &&& status.active == (session.active is Some)
    &&& status.playlist_id == session.active
    &&& status.decision == session.last_decision
    &&& status.definitions.count == session.playlists@.len()
    &&& status.definitions.store_health@ == if session.store_error is Some {
        "corrupt"@
    } else {
        "ok"@
    }
    &&& status.clock_skipped_ms == session.clock_skipped_ms
    &&& match active_playlist(session) {
        Some(playlist) => lists_excluded(
            session,
            playlist.entries,
            text::views(status.unavailable_ids@),
        ),
        None => status.unavailable_ids@.len() == 0,
    }
}

/// The distinct entries of a playlist.
fn entry_set(playlist: &Playlist) -> (set: NameMap<()>)
    ensures
        set.wf(),
        forall|id: Seq<char>| #[trigger]
            set@.contains_key(id) <==> text::views(playlist.entries@).contains(id),
{
    let mut set: NameMap<()> = NameMap::new();
    let mut i: usize = 0;
    while i < playlist.entries.len()
        invariant
            i <= playlist.entries@.len(),
            set.wf(),
            forall|id: Seq<char>| #[trigger]
                set@.contains_key(id) <==> text::views(playlist.entries@.take(i as int)).contains(
                    id,
                ),
        decreases playlist.entries.len() - i,
    {
        let ghost before = set@;
        let ghost done = text::views(playlist.entries@.take(i as int));
        let ghost longer = text::views(playlist.entries@.take(i + 1));
        let entry: &str = playlist.entries[i].as_str();
        let _ = set.insert(entry, ());
        proof {
            assert(longer =~= done.push(entry@));
            assert forall|id: Seq<char>| #[trigger]
                set@.contains_key(id) <==> longer.contains(id) by {
                if done.contains(id) {
                    let k = choose|k: int| 0 <= k < done.len() && done[k] == id;
                    assert(longer[k] == id);
                }
                if longer.contains(id) && id != entry@ {
                    let k = choose|k: int| 0 <= k < longer.len() && longer[k] == id;
                    assert(done[k] == id);
                }
                if id == entry@ {
                    assert(longer[i as int] == id);
                }
                assert(before.contains_key(id) <==> done.contains(id));
            }
        }
        i = i + 1;
    }
    assert(playlist.entries@.take(playlist.entries@.len() as int) =~= playlist.entries@);
    set
}

impl<S> SessionRuntime<S> {
    pub open spec fn wf(&self) -> bool {
        &&& self.snapshots.wf()
        &&& self.valid_ids.wf()
        &&& self.quarantined_ids.wf()
        &&& self.gate_refused_ids.wf()
    }

    /// The entries of which nothing is played.
    pub fn unavailable_for(&self, playlist: &Playlist) -> (ids: Vec<String>)
        requires
            self.wf(),
        ensures
            lists_excluded(*self, text::views(playlist.entries@), text::views(ids@)),
    {
        let entries = entry_set(playlist);
        let ghost all = entries.names();
        proof {
            entries.lemma_names();
        }
        let mut ids: Vec<String> = Vec::new();
        let total: usize = entries.len();
        let mut i: usize = 0;
        while i < total
            invariant
                i <= total,
                total == all.len(),
                self.wf(),
                entries.wf(),
                all == entries.names(),
                forall|a: int, b: int|
                    0 <= a < b < all.len() ==> names::precedes(#[trigger] all[a], #[trigger] all[b]),
                forall|a: int, b: int|
                    0 <= a < b < ids@.len() ==> names::precedes(
                        (#[trigger] ids@[a])@,
                        (#[trigger] ids@[b])@,
                    ),
                forall|a: int|
                    0 <= a < ids@.len() ==> exists|k: int|
                        0 <= k < i && all[k] == (#[trigger] ids@[a])@,
                forall|k: int|
                    0 <= k < i ==> (excluded(*self, #[trigger] all[k]) <==> text::views(
                        ids@,
                    ).contains(all[k])),
            decreases total - i,
        {
            let id: &String = entries.name_at(i);
            let out: bool = !self.valid_ids.contains(id.as_str()) || self.quarantined_ids.contains(
                id.as_str(),
            ) || self.gate_refused_ids.contains(id.as_str());
            let ghost before = ids@;
            if out {
                ids.push(id.clone());
            }
            proof {
                assert forall|a: int, b: int| 0 <= a < b < ids@.len() implies names::precedes(
                    (#[trigger] ids@[a])@,
                    (#[trigger] ids@[b])@,
                ) by {
                    assert(ids@[a] == before[a]);
                    if b < before.len() {
                        assert(ids@[b] == before[b]);
                    } else {
                        let k = choose|k: int| 0 <= k < i && all[k] == before[a]@;
                        assert(names::precedes(all[k], all[i as int]));
                    }
                }
                assert forall|a: int| 0 <= a < ids@.len() implies exists|k: int|
                    0 <= k < i + 1 && all[k] == (#[trigger] ids@[a])@ by {
                    if a < before.len() {
                        assert(ids@[a] == before[a]);
                    } else {
                        assert(all[i as int] == ids@[a]@);
                    }
                }
                assert forall|k: int| 0 <= k < i + 1 implies (excluded(*self, #[trigger] all[k])
                    <==> text::views(ids@).contains(all[k])) by {
                    if text::views(before).contains(all[k]) {
                        let a = choose|a: int|
                            0 <= a < text::views(before).len() && text::views(before)[a] == all[k];
                        assert(text::views(ids@)[a] == all[k]);
                        if k == i {
                            let m = choose|m: int| 0 <= m < i && all[m] == before[a]@;
                            names::lemma_precedes_not_self(all[k]);
                            assert(names::precedes(all[m], all[k]));
                        }
                    }
                    if text::views(ids@).contains(all[k]) {
                        let a = choose|a: int|
                            0 <= a < text::views(ids@).len() && text::views(ids@)[a] == all[k];
                        if a < before.len() {
                            assert(text::views(before)[a] == all[k]);
                        } else {
                            if k < i {
                                names::lemma_precedes_not_self(all[k]);
                                assert(names::precedes(all[k], all[i as int]));
                            }
                        }
                    }
                    if k == i && out {
                        assert(text::views(ids@)[before.len() as int] == all[k]);
                    }
                }
            }
            i = i + 1;
        }
        proof {
            let found = text::views(ids@);
            assert forall|id: Seq<char>| #[trigger]
                found.contains(id) <==> text::views(playlist.entries@).contains(id) && excluded(
                    *self,
                    id,
                ) by {
                if found.contains(id) {
                    let a = choose|a: int| 0 <= a < found.len() && found[a] == id;
                    let k = choose|k: int| 0 <= k < total && all[k] == ids@[a]@;
                    assert(entries@.contains_key(all[k]));
                }
                if text::views(playlist.entries@).contains(id) && excluded(*self, id) {
                    assert(entries@.contains_key(id));
                    let k = choose|k: int| 0 <= k < all.len() && all[k] == id;
                    assert(excluded(*self, all[k]));
                }
            }
        }
        ids
    }

    /// The state of the session.
    pub fn status(&self) -> (status: SessionStatus)
        requires
            self.wf(),
        ensures
            reports(*self, status),
    {
        let unavailable_ids: Vec<String> = match &self.active {
            Some(id) => match find_playlist(&self.playlists, id.as_str()) {
                Some(at) => self.unavailable_for(&self.playlists[at]),
                None => Vec::new(),
            },
            None => Vec::new(),
        };
        SessionStatus {
            active: self.active.is_some(),
            playlist_id: self.active.clone(),
            decision: match &self.last_decision {
                Some(decision) => Some(decision.clone()),
                None => None,
            },
            unavailable_ids,
            definitions: self.definitions_health(),
            clock_skipped_ms: self.clock_skipped_ms,
        }
    }

    fn definitions_health(&self) -> (health: DefinitionsHealth)
        ensures
            health.count == self.playlists@.len(),
            health.store_health@ == if self.store_error is Some {
                "corrupt"@
            } else {
                "ok"@
            },
    {
        DefinitionsHealth {
            count: self.playlists.len(),
            store_health: if self.store_error.is_some() {
                "corrupt".to_owned()
            } else {
                "ok".to_owned()
            },
        }
    }
}

// ---------------------------------------------------------------------------
// Applying
// ---------------------------------------------------------------------------

/// What the session does about the screen after a decision.
pub enum ApplyStep {
    Nothing,
    /// The worker's state could not be had. `news` says that this is not the
    /// error that was seen last.
    StatusFailed { news: bool },
    /// The request to hand to the applier.
    Dispatch(ApplyRequest),
}

impl<S> SessionRuntime<S> {
    /// Opens the backoff gate.
    fn reset_backoff(&mut self, now: u64)
        ensures
            *final(self) == (SessionRuntime {
                apply_failures: 0,
                next_apply_retry: now,
                ..*old(self)
            }),
    {
        self.apply_failures = 0;
        self.next_apply_retry = now;
    }

    /// Somebody else's choice wins: the session forgets what it applied, and
    /// asserts itself promptly once that renderer is gone.
    pub fn yield_to_foreign(&mut self, now: u64)
        ensures
            *final(self) == (SessionRuntime {
                applied_wallpaper: None,
                apply_failures: 0,
                next_apply_retry: now,
                ..*old(self)
            }),
    {
        self.applied_wallpaper = None;
        self.reset_backoff(now);
    }

    /// A playlist starts with a clean slate: the first decision applies at
    /// once, and what was refused is looked at anew.
    pub fn reset_apply(&mut self, now: u64)
        requires
            old(self).wf(),
        ensures
            final(self).wf(),
            *final(self) == (SessionRuntime {
                applied_wallpaper: None,
                apply_failures: 0,
                next_apply_retry: now,
                gate_refused_ids: final(self).gate_refused_ids,
                ..*old(self)
            }),
            final(self).gate_refused_ids@ == Map::<Seq<char>, ()>::empty(),
    {
        self.applied_wallpaper = None;
        self.reset_backoff(now);
        self.gate_refused_ids = NameMap::new();
    }

    /// Takes up which wallpapers are quarantined. When that could not be had,
    /// the last answer stands.
    pub fn refresh_quarantine(&mut self, ids: Result<NameMap<()>, String>)
        requires
            old(self).wf(),
            ids matches Ok(set) ==> set.wf(),
        ensures
            final(self).wf(),
            *final(self) == (match ids {
                Ok(set) => SessionRuntime { quarantined_ids: set, ..*old(self) },
                Err(_) => *old(self),
            }),
    {
        match ids {
            Ok(set) => {
                self.quarantined_ids = set;
            },
            Err(_) => {},
        }
    }

    /// Folds in what a request came to. Stepping back is no failure, and
    /// neither is a refusal by the capability gate: the refused wallpaper is
    /// left out from now on. Every other error closes the backoff gate.
    pub fn fold_apply(
        &mut self,
        wallpaper_id: String,
        result: Result<(), ApplyError>,
        now: u64,
    )
        requires
            old(self).wf(),
            now + verdict::APPLY_BACKOFF_MAX_MS <= u64::MAX,
        ensures
            final(self).wf(),
            match result {
                Ok(_) => *final(self) == (SessionRuntime {
                    apply_in_flight: false,
                    applied_wallpaper: Some(wallpaper_id),
                    apply_failures: 0,
                    next_apply_retry: now,
                    ..*old(self)
                }),
                Err(ApplyError::Busy) => *final(self) == (SessionRuntime {
                    apply_in_flight: false,
                    applied_wallpaper: None,
                    apply_failures: 0,
                    next_apply_retry: now,
                    ..*old(self)
                }),
                Err(ApplyError::Yielded(_)) => *final(self) == (SessionRuntime {
                    apply_in_flight: false,
                    applied_wallpaper: None,
                    apply_failures: 0,
                    next_apply_retry: now,
                    ..*old(self)
                }),
                Err(ApplyError::CapabilityGate { .. }) => *final(self) == (SessionRuntime {
                    apply_in_flight: false,
                    gate_refused_ids: final(self).gate_refused_ids,
                    ..*old(self)
                }) && final(self).gate_refused_ids@ == old(self).gate_refused_ids@.insert(
                    wallpaper_id@,
                    (),
                ),
                Err(_) => {
                    let failures: u32 = if old(self).apply_failures < u32::MAX {
                        (old(self).apply_failures + 1) as u32
                    } else {
                        u32::MAX
                    };
                    *final(self) == (SessionRuntime {
                        apply_in_flight: false,
                        apply_failures: failures,
                        next_apply_retry: (now + verdict::backoff_ms(failures as nat)) as u64,
                        ..*old(self)
                    })
                },
            },
    {
        self.apply_in_flight = false;
        match result {
            Ok(()) => {
                self.applied_wallpaper = Some(wallpaper_id);
                self.reset_backoff(now);
            },
            Err(ApplyError::Busy) => {
                self.yield_to_foreign(now);
            },
            Err(ApplyError::Yielded(_)) => {
                self.yield_to_foreign(now);
            },
            Err(ApplyError::CapabilityGate { .. }) => {
                let _ = self.gate_refused_ids.insert(wallpaper_id.as_str(), ());
            },
            Err(_) => {
                self.apply_failures = self.apply_failures.saturating_add(1);
                self.next_apply_retry = now + apply_backoff(self.apply_failures);
            },
        }
    }

    /// What the session does about the screen: nothing without a wanted
    /// wallpaper or a supervisor, and otherwise what the verdict over the
    /// worker's state says. At most one request is under way. Nothing is
    /// handed out before the position is on disk.
    pub fn maybe_apply(
        &mut self,
        playlist: &Playlist,
        decision: &PlaylistDecision,
        status: Option<Result<WorkerStatus, String>>,
        now: u64,
    ) -> (step: ApplyStep)
        requires
            old(self).wf(),
            !old(self).owes_persist,
        ensures
            final(self).wf(),
            match (playlist::wanted(*decision), status) {
                (Some(_), Some(Err(error))) => {
                    &&& step == (ApplyStep::StatusFailed {
                        news: probe::option_view(old(self).last_status_error) != Some(error@),
                    })
                    &&& *final(self) == (SessionRuntime {
                        last_status_error: final(self).last_status_error,
                        ..*old(self)
                    })
                    &&& probe::option_view(final(self).last_status_error) == Some(error@)
                },
                (Some(id), Some(Ok(worker))) => match verdict::verdict_for(
                    probe::option_view(old(self).applied_wallpaper),
                    id,
                    worker,
                    now >= old(self).next_apply_retry,
                ) {
                    ApplyVerdict::Satisfied => {
                        &&& step is Nothing
                        &&& *final(self) == (SessionRuntime {
                            last_status_error: None,
                            applied_wallpaper: final(self).applied_wallpaper,
                            apply_failures: 0,
                            next_apply_retry: now,
                            ..*old(self)
                        })
                        &&& probe::option_view(final(self).applied_wallpaper) == Some(id)
                    },
                    ApplyVerdict::Yield => step is Nothing && *final(self) == (SessionRuntime {
                        last_status_error: None,
                        applied_wallpaper: None,
                        apply_failures: 0,
                        next_apply_retry: now,
                        ..*old(self)
                    }),
                    ApplyVerdict::Hold | ApplyVerdict::Wait => step is Nothing && *final(self) == (
                    SessionRuntime { last_status_error: None, ..*old(self) }),
                    ApplyVerdict::Apply => {
                        &&& *final(self) == (SessionRuntime {
                            last_status_error: None,
                            ..*old(self)
                        })
                        &&& if old(self).apply_in_flight || !old(self).applies {
                            step is Nothing
                        } else {
                            &&& step matches ApplyStep::Dispatch(request)
                            &&& asks_for(request, *old(self), playlist@, id)
                        }
                    },
                },
                _ => step is Nothing && *final(self) == *old(self),
            },
    {
        let wallpaper_id: String = match decision_wallpaper_id(decision) {
            Some(id) => id.to_owned(),
            None => { return ApplyStep::Nothing },
        };
        let worker: WorkerStatus = match status {
            Some(Ok(worker)) => worker,
            Some(Err(error)) => {
                let news: bool = match &self.last_status_error {
                    Some(seen) => !same(seen.as_str(), error.as_str()),
                    None => true,
                };
                if news {
                    self.last_status_error = Some(error);
                }
                return ApplyStep::StatusFailed { news };
            },
            None => { return ApplyStep::Nothing },
        };
        self.last_status_error = None;
        let retry_ready: bool = now >= self.next_apply_retry;
        let applied: Option<&str> = match &self.applied_wallpaper {
            Some(id) => Some(id.as_str()),
            None => None,
        };
        match apply_verdict(applied, wallpaper_id.as_str(), &worker, retry_ready) {
            ApplyVerdict::Satisfied => {
                self.applied_wallpaper = Some(wallpaper_id);
                self.reset_backoff(now);
                ApplyStep::Nothing
            },
            ApplyVerdict::Yield => {
                self.yield_to_foreign(now);
                ApplyStep::Nothing
            },
            ApplyVerdict::Hold => ApplyStep::Nothing,
            ApplyVerdict::Wait => ApplyStep::Nothing,
            ApplyVerdict::Apply => {
                if self.apply_in_flight || !self.applies {
                    return ApplyStep::Nothing;
                }
                ApplyStep::Dispatch(
                    ApplyRequest {
                        output: self.output.clone(),
                        wallpaper_id,
                        playlist_entries: entry_set(playlist),
                        applied: self.applied_wallpaper.clone(),
                    },
                )
            },
        }
    }

    /// Notes whether the applier took the request.
    pub fn dispatched(&mut self, accepted: bool)
        ensures
            *final(self) == (SessionRuntime {
                apply_in_flight: accepted || old(self).apply_in_flight,
                ..*old(self)
            }),
    {
        if accepted {
            self.apply_in_flight = true;
        }
    }
}

/// `request` puts `id`, an entry of `playlist`, on the session's output.
pub open spec fn asks_for<S>(
    request: ApplyRequest,
    session: SessionRuntime<S>,
    playlist: PlaylistView,
    id: Seq<char>,
) -> bool {
    &&& request.output == session.output
    &&& request.wallpaper_id@ == id
    &&& request.applied == session.applied_wallpaper
    &&& request.playlist_entries.wf()
    &&& forall|entry: Seq<char>| #[trigger]
        request.playlist_entries@.contains_key(entry) <==> playlist.entries.contains(entry)
}

// ---------------------------------------------------------------------------
// Ticking
// ---------------------------------------------------------------------------

/// What a tick asks for.
pub enum TickStep {
    /// No playlist is active.
    Idle,
    /// The active playlist is gone; the session is inactive now.
    ActiveRemoved,
    /// The playlist's clock is to be moved on, past these entries.
    Decide { playlist: Playlist, unavailable: Vec<String> },
}

impl<S> SessionRuntime<S> {
    /// The playlist clock: the monotonic clock, moved on by what was skipped.
    pub fn now_ms(&self, elapsed: u64) -> (now: u64)
        requires
            elapsed + self.clock_offset_ms <= u64::MAX,
        ensures
            now == elapsed + self.clock_offset_ms,
    {
        elapsed + self.clock_offset_ms
    }

    /// How long to wait for a command until the next tick is due.
    pub fn tick_wait(&self, since_last_tick: u64) -> (wait: u64)
        ensures
            wait == if since_last_tick < self.tick_ms {
                self.tick_ms - since_last_tick
            } else {
                0
            },
    {
        self.tick_ms.saturating_sub(since_last_tick)
    }

    /// Begins a tick. The outcomes of earlier requests are folded in before,
    /// so that the decision knows what was refused.
    pub fn begin_tick(&mut self, now: u64) -> (step: TickStep)
        requires
            old(self).wf(),
        ensures
            final(self).wf(),
            match (old(self).active, active_playlist(*old(self))) {
                (None, _) => step is Idle && *final(self) == *old(self),
                (Some(_), None) => {
                    &&& step is ActiveRemoved
                    &&& *final(self) == (SessionRuntime {
                        active: None,
                        last_decision: None,
                        applied_wallpaper: None,
                        apply_failures: 0,
                        next_apply_retry: now,
                        gate_refused_ids: final(self).gate_refused_ids,
                        owes_persist: true,
                        ..*old(self)
                    })
                    &&& final(self).gate_refused_ids@ == Map::<Seq<char>, ()>::empty()
                },
                (Some(_), Some(definition)) => {
                    &&& *final(self) == *old(self)
                    &&& step matches TickStep::Decide { playlist, unavailable }
                    &&& playlist@ == definition
                    &&& lists_excluded(*old(self), definition.entries, text::views(unavailable@))
                },
            },
    {
        let at: Option<usize> = match &self.active {
            Some(id) => find_playlist(&self.playlists, id.as_str()),
            None => { return TickStep::Idle },
        };
        match at {
            Some(at) => {
                let playlist = self.playlists[at].clone();
                let unavailable = self.unavailable_for(&playlist);
                TickStep::Decide { playlist, unavailable }
            },
            None => {
                self.active = None;
                self.last_decision = None;
                self.reset_apply(now);
                self.owes_persist = true;
                TickStep::ActiveRemoved
            },
        }
    }

    /// Takes up a tick's decision. The position is owed to the disk when the
    /// decision is another one than before, and from time to time while it
    /// waits.
    pub fn decided(&mut self, decision: &PlaylistDecision, now: u64) -> (changed: bool)
        requires
            old(self).wf(),
            old(self).last_waiting_persist <= now,
        ensures
            final(self).wf(),
            changed == (match old(self).last_decision {
                Some(last) => playlist::signature(last) != playlist::signature(*decision),
                None => true,
            }),
            ({
                let due = changed || (decision is Waiting && now - old(self).last_waiting_persist
                    >= WAITING_PERSIST_INTERVAL_MS);
                *final(self) == (SessionRuntime {
                    last_decision: Some(*decision),
                    last_waiting_persist: if due {
                        now
                    } else {
                        old(self).last_waiting_persist
                    },
                    owes_persist: due || old(self).owes_persist,
                    ..*old(self)
                })
            }),
    {
        let changed: bool = match &self.last_decision {
            Some(last) => !same_decision(last, decision),
            None => true,
        };
        self.last_decision = Some(decision.clone());
        let waiting: bool = match decision {
            PlaylistDecision::Waiting { .. } => true,
            _ => false,
        };
        if changed || (waiting && now - self.last_waiting_persist >= WAITING_PERSIST_INTERVAL_MS) {
            self.last_waiting_persist = now;
            self.owes_persist = true;
        }
        changed
    }

    /// Keeps the snapshot of a playlist's position, if one could be taken.
    pub fn keep_snapshot(&mut self, playlist_id: &str, snapshot: Option<S>)
        requires
            old(self).wf(),
        ensures
            final(self).wf(),
            *final(self) == (SessionRuntime { snapshots: final(self).snapshots, ..*old(self) }),
            final(self).snapshots@ == (match snapshot {
                Some(taken) => old(self).snapshots@.insert(playlist_id@, taken),
                None => old(self).snapshots@,
            }),
    {
        match snapshot {
            Some(taken) => {
                let _ = self.snapshots.insert(playlist_id, taken);
            },
            None => {},
        }
    }
}

// ---------------------------------------------------------------------------
// Persisting
// ---------------------------------------------------------------------------

/// What persisting the state came to.
#[derive(Debug)]
pub enum Persisted {
    Written,
    WriteFailed(String),
    /// Not even the active playlist's snapshot fits; this many bytes it was.
    Oversize(usize),
}

/// A snapshot that may be given up: any but the active playlist's.
pub open spec fn evictable<S>(
    snapshots: Map<Seq<char>, S>,
    active: Option<String>,
    id: Seq<char>,
) -> bool {
    snapshots.contains_key(id) && probe::option_view(active) != Some(id)
}

/// The snapshot that is given up first.
pub open spec fn evicted_next<S>(
    snapshots: Map<Seq<char>, S>,
    active: Option<String>,
    id: Seq<char>,
) -> bool {
    evictable(snapshots, active, id) && forall|other: Seq<char>| #[trigger]
        evictable(snapshots, active, other) ==> other == id || names::precedes(id, other)
}

/// The encoding of these snapshots can exceed the bound.
pub open spec fn too_large<S, E: Fn(&Option<String>, &NameMap<S>) -> Vec<u8>>(
    active: Option<String>,
    snapshots: NameMap<S>,
    encode: E,
) -> bool {
    exists|bytes: Vec<u8>|
        #[trigger] call_ensures(encode, (&active, &snapshots), bytes) && bytes@.len()
            > MAX_RUNTIME_STATE_BYTES
}

/// `path` leads from what was kept to what is kept: one snapshot goes after
/// another, each because the encoding was too large with it.
pub open spec fn eviction_path<S, E: Fn(&Option<String>, &NameMap<S>) -> Vec<u8>>(
    path: Seq<NameMap<S>>,
    active: Option<String>,
    encode: E,
) -> bool {
    &&& path.len() > 0
    &&& forall|i: int|
        0 <= i < path.len() - 1 ==> eviction_step(#[trigger] path[i], path[i + 1], active, encode)
}

/// One snapshot goes because the encoding was too large with it.
pub open spec fn eviction_step<S, E: Fn(&Option<String>, &NameMap<S>) -> Vec<u8>>(
    kept: NameMap<S>,
    next: NameMap<S>,
    active: Option<String>,
    encode: E,
) -> bool {
    too_large(active, kept, encode) && exists|id: Seq<char>| #[trigger]
        evicted_next(kept@, active, id) && next@ == kept@.remove(id)
}

/// `outcome` is what writing the encoding of these snapshots can come to.
pub open spec fn write_outcome<
    S,
    E: Fn(&Option<String>, &NameMap<S>) -> Vec<u8>,
    W: FnOnce(&Vec<u8>) -> Result<(), String>,
>(
    active: Option<String>,
    snapshots: NameMap<S>,
    encode: E,
    write: W,
    outcome: Persisted,
) -> bool {
    exists|bytes: Vec<u8>|
        {
            &&& #[trigger] call_ensures(encode, (&active, &snapshots), bytes)
            &&& if bytes@.len() > MAX_RUNTIME_STATE_BYTES {
                &&& outcome == Persisted::Oversize(bytes@.len() as usize)
                &&& forall|id: Seq<char>| !#[trigger] evictable(snapshots@, active, id)
            } else {
                match outcome {
                    Persisted::Written => call_ensures(write, (&bytes,), Ok::<(), String>(())),
                    Persisted::WriteFailed(error) => call_ensures(
                        write,
                        (&bytes,),
                        Err::<(), String>(error),
                    ),
                    Persisted::Oversize(_) => false,
                }
            }
        }
}

/// `bytes` encode what is left of the state once as many snapshots were given
/// up as it takes, and fit the file.
pub open spec fn fitting_state<S, E: Fn(&Option<String>, &NameMap<S>) -> Vec<u8>>(
    active: Option<String>,
    snapshots: NameMap<S>,
    encode: E,
    bytes: Vec<u8>,
) -> bool {
    &&& bytes@.len() <= MAX_RUNTIME_STATE_BYTES
    &&& exists|path: Seq<NameMap<S>>|
        {
            &&& #[trigger] eviction_path(path, active, encode)
            &&& path[0] == snapshots
            &&& call_ensures(encode, (&active, &path.last()), bytes)
        }
}

impl<S> SessionRuntime<S> {
    /// The first snapshot in name order that may be given up.
    fn next_evicted(&self) -> (id: Option<String>)
        requires
            self.wf(),
        ensures
            match id {
                Some(name) => evicted_next(self.snapshots@, self.active, name@),
                None => forall|other: Seq<char>| !#[trigger]
                    evictable(self.snapshots@, self.active, other),
            },
    {
        proof {
            self.snapshots.lemma_names();
        }
        let ghost all = self.snapshots.names();
        let total: usize = self.snapshots.len();
        let mut i: usize = 0;
        while i < total
            invariant
                i <= total,
                self.wf(),
                all == self.snapshots.names(),
                total == all.len(),
                forall|a: int, b: int|
                    0 <= a < b < all.len() ==> names::precedes(#[trigger] all[a], #[trigger] all[b]),
                forall|name: Seq<char>|
                    #[trigger] self.snapshots@.contains_key(name) ==> all.contains(name),
                forall|k: int|
                    0 <= k < i ==> Some(#[trigger] all[k]) == probe::option_view(self.active),
            decreases total - i,
        {
            let name: &String = self.snapshots.name_at(i);
            let is_active: bool = match &self.active {
                Some(active) => same(active.as_str(), name.as_str()),
                None => false,
            };
            if !is_active {
                proof {
                    assert forall|other: Seq<char>| #[trigger]
                        evictable(self.snapshots@, self.active, other) implies other == name@
                        || names::precedes(name@, other) by {
                        let k = choose|k: int| 0 <= k < all.len() && all[k] == other;
                        if k < i {
                            assert(Some(all[k]) == probe::option_view(self.active));
                        } else if k > i {
                            assert(names::precedes(all[i as int], all[k]));
                        }
                    }
                }
                return Some(name.clone());
            }
            i = i + 1;
        }
        proof {
            assert forall|other: Seq<char>| !#[trigger]
                evictable(self.snapshots@, self.active, other) by {
                if self.snapshots@.contains_key(other) {
                    let k = choose|k: int| 0 <= k < all.len() && all[k] == other;
                    assert(Some(all[k]) == probe::option_view(self.active));
                }
            }
        }
        None
    }

    /// Writes the state. Snapshots of other playlists are given up, in name
    /// order, until the encoding fits; the active playlist's never is.
    pub fn persist_state<
        E: Fn(&Option<String>, &NameMap<S>) -> Vec<u8>,
        W: FnOnce(&Vec<u8>) -> Result<(), String>,
    >(&mut self, encode: E, write: W) -> (outcome: Persisted)
        requires
            old(self).wf(),
            forall|active: &Option<String>, snapshots: &NameMap<S>|
                call_requires(encode, (active, snapshots)),
            // Nothing but an encoding of the state that fits is written.
            forall|bytes: &Vec<u8>|
                fitting_state(old(self).active, old(self).snapshots, encode, *bytes)
                    ==> #[trigger] call_requires(write, (bytes,)),
        ensures
            final(self).wf(),
            *final(self) == (SessionRuntime {
                snapshots: final(self).snapshots,
                owes_persist: false,
                ..*old(self)
            }),
            exists|path: Seq<NameMap<S>>|
                {
                    &&& #[trigger] eviction_path(path, old(self).active, encode)
                    &&& path[0] == old(self).snapshots
                    &&& path.last() == final(self).snapshots
                },
            write_outcome(old(self).active, final(self).snapshots, encode, write, outcome),
            // The active playlist's snapshot is never given up, and what stays
            // is as it was.
            final(self).snapshots@.submap_of(old(self).snapshots@),
            old(self).active matches Some(id) ==> final(self).snapshots@.contains_key(id@)
                == old(self).snapshots@.contains_key(id@),
    {
        self.owes_persist = false;
        let ghost mut path: Seq<NameMap<S>> = seq![self.snapshots];
        let ghost start = self.snapshots;
        let ghost before = *self;
        loop
            invariant
                self.wf(),
                *self == (SessionRuntime { snapshots: self.snapshots, ..before }),
                forall|active: &Option<String>, snapshots: &NameMap<S>|
                    call_requires(encode, (active, snapshots)),
                forall|bytes: &Vec<u8>|
                    fitting_state(old(self).active, old(self).snapshots, encode, *bytes)
                        ==> #[trigger] call_requires(write, (bytes,)),
                eviction_path(path, before.active, encode),
                path[0] == start,
                path.last() == self.snapshots,
                before == (SessionRuntime { owes_persist: false, ..*old(self) }),
                start == old(self).snapshots,
                self.snapshots@.submap_of(start@),
                before.active matches Some(id) ==> self.snapshots@.contains_key(id@)
                    == start@.contains_key(id@),
            decreases self.snapshots@.len(),
        {
            let bytes: Vec<u8> = encode(&self.active, &self.snapshots);
            if bytes.len() as u64 <= MAX_RUNTIME_STATE_BYTES {
                let written: Result<(), String> = write(&bytes);
                proof {
                    if written is Ok {
                        assert(written->Ok_0 == ());
                        assert(written == Ok::<(), String>(()));
                    }
                }
                return match written {
                    Ok(()) => Persisted::Written,
                    Err(error) => Persisted::WriteFailed(error),
                };
            }
            match self.next_evicted() {
                Some(id) => {
                    let ghost kept = self.snapshots;
                    proof {
                        self.snapshots.lemma_names();
                        assert(too_large(before.active, kept, encode));
                        assert(evicted_next(kept@, before.active, id@));
                    }
                    let _ = self.snapshots.remove(id.as_str());
                    proof {
                        let longer = path.push(self.snapshots);
                        assert(eviction_step(kept, self.snapshots, before.active, encode));
                        assert forall|i: int| 0 <= i < longer.len() - 1 implies eviction_step(
                            #[trigger] longer[i],
                            longer[i + 1],
                            before.active,
                            encode,
                        ) by {
                            if i < path.len() - 1 {
                                assert(longer[i] == path[i]);
                                assert(longer[i + 1] == path[i + 1]);
                            } else {
                                assert(longer[i] == kept);
                                assert(longer[i + 1] == self.snapshots);
                            }
                        }
                        path = longer;
                    }
                },
                None => {
                    return Persisted::Oversize(bytes.len());
                },
            }
        }
    }
}

// ---------------------------------------------------------------------------
// Starting
// ---------------------------------------------------------------------------

/// The content of the runtime state file.
#[verifier::reject_recursive_types(S)]
pub struct PersistedSessionState<S> {
    pub schema_version: u32,
    pub active_playlist_id: Option<String>,
    pub snapshots: NameMap<S>,
}

/// What looking for the runtime state file came to. The content of a file that
/// is too large is never read.
#[verifier::reject_recursive_types(S)]
pub enum RuntimeStateFile<S> {
    Missing,
    MetadataFailed(String),
    Present { size: u64, content: Option<StateContent<PersistedSessionState<S>>> },
}

/// What a runtime state file yields: the active playlist and the snapshots, or
/// the reason to quarantine it. A file that is not there, or whose size cannot
/// be had, yields nothing and stays where it is.
pub open spec fn runtime_yields<S>(file: RuntimeStateFile<S>) -> Result<
    Option<PersistedSessionState<S>>,
    Seq<char>,
> {
    match file {
        RuntimeStateFile::Missing => Ok(None),
        RuntimeStateFile::MetadataFailed(_) => Ok(None),
        RuntimeStateFile::Present { size, content } => if size > MAX_RUNTIME_STATE_BYTES {
            Err("runtime state exceeds 4194304 bytes"@)
        } else {
            match content {
                Some(StateContent::ReadFailed(error)) => Err(error@),
                Some(StateContent::ParseFailed(error)) => Err(error@),
                Some(StateContent::Parsed(state)) => if state.schema_version
                    == RUNTIME_STATE_SCHEMA_VERSION && state.snapshots@.len()
                    <= MAX_SNAPSHOT_ENTRIES {
                    Ok(Some(state))
                } else {
                    Err("unsupported or oversized runtime state"@)
                },
                None => Err("unsupported or oversized runtime state"@),
            }
        },
    }
}

/// `kept` is what is left of `snapshots` when those that `validate` refuses
/// are dropped.
pub open spec fn keeps_valid<S, V: Fn(&S) -> Result<(), String>>(
    snapshots: Map<Seq<char>, S>,
    validate: V,
    kept: Map<Seq<char>, S>,
) -> bool {
    &&& kept.submap_of(snapshots)
    &&& forall|id: Seq<char>| #[trigger]
        snapshots.contains_key(id) ==> snapshot_answered(
            validate,
            snapshots[id],
            kept.contains_key(id),
        )
}

/// `validate` can answer this about a snapshot.
pub open spec fn snapshot_answered<S, V: Fn(&S) -> Result<(), String>>(
    validate: V,
    snapshot: S,
    accepted: bool,
) -> bool {
    exists|answer: Result<(), String>|
        #[trigger] call_ensures(validate, (&snapshot,), answer) && accepted == (answer is Ok)
}

fn valid_snapshots<S, V: Fn(&S) -> Result<(), String>>(
    snapshots: NameMap<S>,
    validate: &V,
) -> (kept: NameMap<S>)
    requires
        snapshots.wf(),
        forall|snapshot: &S| call_requires(*validate, (snapshot,)),
    ensures
        kept.wf(),
        keeps_valid(snapshots@, *validate, kept@),
{
    let ghost all = snapshots@;
    let mut left = snapshots;
    let mut kept: NameMap<S> = NameMap::new();
    while left.len() > 0
        invariant
            left.wf(),
            kept.wf(),
            forall|snapshot: &S| call_requires(*validate, (snapshot,)),
            left@.submap_of(all),
            kept@.submap_of(all),
            kept@.dom().disjoint(left@.dom()),
            forall|id: Seq<char>| #[trigger]
                all.contains_key(id) && !left@.contains_key(id) ==> snapshot_answered(
                    *validate,
                    all[id],
                    kept@.contains_key(id),
                ),
        decreases left@.len(),
    {
        proof {
            left.lemma_names();
        }
        let ghost before = left@;
        let ghost sure = kept@;
        let id: String = left.name_at(0).clone();
        assert(before.dom().contains(id@) && all.dom().contains(id@));
        match left.remove(id.as_str()) {
            Some(snapshot) => {
                let answer: Result<(), String> = validate(&snapshot);
                proof {
                    assert(snapshot == all[id@]);
                    assert(snapshot_answered(*validate, all[id@], answer is Ok));
                }
                match answer {
                    Ok(()) => {
                        let _ = kept.insert(id.as_str(), snapshot);
                    },
                    Err(_) => {},
                }
                proof {
                    assert forall|other: Seq<char>| #[trigger]
                        left@.dom().contains(other) implies #[trigger] all.dom().contains(other)
                        && left@[other] == all[other] by {
                        assert(before.dom().contains(other));
                    }
                    assert forall|other: Seq<char>| #[trigger]
                        all.contains_key(other) && !left@.contains_key(
                            other,
                        ) implies snapshot_answered(
                        *validate,
                        all[other],
                        kept@.contains_key(other),
                    ) by {
                        if other != id@ {
                            assert(!before.contains_key(other));
                            assert(kept@.contains_key(other) == sure.contains_key(other));
                        }
                    }
                }
            },
            None => {},
        }
    }
    proof {
        left.lemma_names();
        assert(left@.dom() =~= Set::empty());
    }
    kept
}

/// Takes up the runtime state: the active playlist, the valid snapshots, and
/// why the file is quarantined if it is.
pub fn load_runtime_state<S, V: Fn(&S) -> Result<(), String>>(
    file: RuntimeStateFile<S>,
    validate: V,
) -> (loaded: (Option<String>, NameMap<S>, Option<String>))
    requires
        file matches RuntimeStateFile::Present { size, content } ==> (size
            <= MAX_RUNTIME_STATE_BYTES ==> content is Some),
        file matches RuntimeStateFile::Present {
            content: Some(StateContent::Parsed(state)),
            ..
        } ==> state.snapshots.wf(),
        forall|snapshot: &S| call_requires(validate, (snapshot,)),
    ensures
        loaded.1.wf(),
        match runtime_yields(file) {
            Ok(Some(state)) => loaded.0 == state.active_playlist_id && keeps_valid(
                state.snapshots@,
                validate,
                loaded.1@,
            ) && loaded.2 is None,
            Ok(None) => loaded.0 is None && loaded.1@ == Map::<Seq<char>, S>::empty()
                && loaded.2 is None,
            Err(reason) => loaded.0 is None && loaded.1@ == Map::<Seq<char>, S>::empty()
                && probe::option_view(loaded.2) == Some(reason),
        },
{
    match file {
        RuntimeStateFile::Missing => (None, NameMap::new(), None),
        RuntimeStateFile::MetadataFailed(_) => (None, NameMap::new(), None),
        RuntimeStateFile::Present { size, content } => {
            if size > MAX_RUNTIME_STATE_BYTES {
                return (
                    None,
                    NameMap::new(),
                    Some("runtime state exceeds 4194304 bytes".to_owned()),
                );
            }
            match content {
                Some(StateContent::ReadFailed(error)) => (None, NameMap::new(), Some(error)),
                Some(StateContent::ParseFailed(error)) => (None, NameMap::new(), Some(error)),
                Some(StateContent::Parsed(state)) => {
                    if state.schema_version == RUNTIME_STATE_SCHEMA_VERSION && state.snapshots.len()
                        <= MAX_SNAPSHOT_ENTRIES {
                        let kept = valid_snapshots(state.snapshots, &validate);
                        (state.active_playlist_id, kept, None)
                    } else {
                        (
                            None,
                            NameMap::new(),
                            Some("unsupported or oversized runtime state".to_owned()),
                        )
                    }
                },
                None => (
                    None,
                    NameMap::new(),
                    Some("unsupported or oversized runtime state".to_owned()),
                ),
            }
        },
    }
}

impl<S> SessionRuntime<S> {
    /// A session over what its definitions file and its runtime state came to.
    /// Definitions that cannot be read leave it without playlists; an active
    /// playlist without a definition is dropped.
    pub fn new(
        config: PlaylistSessionConfig,
        definitions: Result<Vec<Playlist>, String>,
        active: Option<String>,
        snapshots: NameMap<S>,
        now: u64,
    ) -> (session: Self)
        requires
            config.valid_ids.wf(),
            snapshots.wf(),
        ensures
            session.wf(),
            match definitions {
                Ok(playlists) => session.playlists == playlists && session.store_error is None,
                Err(error) => session.playlists@.len() == 0 && session.store_error == Some(error),
            },
            session.active == (match active {
                Some(id) => if playlist::defines(
                    playlist::playlist_views(session.playlists@),
                    id@,
                ) {
                    Some(id)
                } else {
                    None
                },
                None => None,
            }),
            session.quarantined_ids@ == Map::<Seq<char>, ()>::empty(),
            session.gate_refused_ids@ == Map::<Seq<char>, ()>::empty(),
            session == (SessionRuntime {
                tick_ms: config.tick_ms,
                output: config.output,
                applies: config.applies,
                playlists: session.playlists,
                store_error: session.store_error,
                snapshots,
                active: session.active,
                last_decision: None,
                last_waiting_persist: now,
                valid_ids: config.valid_ids,
                quarantined_ids: session.quarantined_ids,
                gate_refused_ids: session.gate_refused_ids,
                applied_wallpaper: None,
                apply_failures: 0,
                next_apply_retry: now,
                apply_in_flight: false,
                last_status_error: None,
                clock_offset_ms: 0,
                clock_skipped_ms: 0,
                owes_persist: false,
            }),
    {
        let (playlists, store_error): (Vec<Playlist>, Option<String>) = match definitions {
            Ok(playlists) => (playlists, None),
            Err(error) => (Vec::new(), Some(error)),
        };
        let known: bool = match &active {
            Some(id) => find_playlist(&playlists, id.as_str()).is_some(),
            None => false,
        };
        SessionRuntime {
            tick_ms: config.tick_ms,
            output: config.output,
            applies: config.applies,
            playlists,
            store_error,
            snapshots,
            active: if known {
                active
            } else {
                None
            },
            last_decision: None,
            last_waiting_persist: now,
            valid_ids: config.valid_ids,
            quarantined_ids: NameMap::new(),
            gate_refused_ids: NameMap::new(),
            applied_wallpaper: None,
            apply_failures: 0,
            next_apply_retry: now,
            apply_in_flight: false,
            last_status_error: None,
            clock_offset_ms: 0,
            clock_skipped_ms: 0,
            owes_persist: false,
        }
    }

    /// The active playlist and its snapshot, from which its clock is resumed.
    pub fn rehydration(&self) -> (resume: Option<(&Playlist, &S)>)
        requires
            self.wf(),
        ensures
            match resume {
                Some((playlist, snapshot)) => self.active matches Some(id) && active_playlist(*self)
                    == Some(playlist@) && self.snapshots@.contains_key(id@) && *snapshot
                    == self.snapshots@[id@],
                None => self.active matches Some(id) ==> active_playlist(*self) is None
                    || !self.snapshots@.contains_key(id@),
            },
    {
        match &self.active {
            Some(id) => match find_playlist(&self.playlists, id.as_str()) {
                Some(at) => match self.snapshots.get(id.as_str()) {
                    Some(snapshot) => Some((&self.playlists[at], snapshot)),
                    None => None,
                },
                None => None,
            },
            None => None,
        }
    }

    /// The playlist whose last position is captured when the session closes.
    /// Its snapshot is kept and the state written, whether it was owed or not.
    pub fn closing(&self) -> (captured: Option<Playlist>)
        requires
            self.wf(),
        ensures
            match (captured, active_playlist(*self)) {
                (Some(playlist), Some(definition)) => playlist@ == definition,
                (None, None) => true,
                _ => false,
            },
    {
        match &self.active {
            Some(id) => match find_playlist(&self.playlists, id.as_str()) {
                Some(at) => Some(self.playlists[at].clone()),
                None => None,
            },
            None => None,
        }
    }
}

// ---------------------------------------------------------------------------
// Commands
// ---------------------------------------------------------------------------

/// What putting a command on the session's queue came to.
#[derive(Debug, Clone, Copy, PartialEq, Eq, Structural)]
pub enum Sent {
    Queued,
    Full,
    Disconnected,
}

/// What an activation asks for.
pub enum Activation {
    /// The playlist is active already.
    Unchanged(SessionStatus),
    /// No playlist is active any more.
    Deactivated(SessionStatus),
    /// The playlist's clock is to be restored from its snapshot and moved on,
    /// past these entries. If it cannot be restored, it starts anew.
    Restore { playlist: Playlist, unavailable: Vec<String> },
    /// The playlist's clock is to be started, past these entries.
    Start { playlist: Playlist, unavailable: Vec<String> },
}

/// What a clock skip asks for: the active playlist's clock is frozen at one
/// time and resumed at the other, past these entries.
pub struct ClockSkip {
    pub freeze_at: u64,
    pub resume_at: u64,
    pub resumed: Option<(Playlist, Vec<String>)>,
}

/// `saved` is what saving these definitions can come to.
pub open spec fn saves_as<W: FnOnce(&Vec<Playlist>) -> Result<(), String>>(
    save: W,
    definitions: Seq<PlaylistView>,
    saved: Result<(), String>,
) -> bool {
    exists|list: Vec<Playlist>|
        #![trigger playlist::playlist_views(list@)]
        playlist::playlist_views(list@) == definitions && call_ensures(save, (&list,), saved)
}

/// `answer` is what validating this playlist can come to.
pub open spec fn validates_as<V: FnOnce(&Playlist) -> Result<(), String>>(
    validate: V,
    playlist: Playlist,
    answer: Result<(), String>,
) -> bool {
    call_ensures(validate, (&playlist,), answer)
}

/// The definitions with `playlist` put in: it replaces the one of its name and
/// comes last.
pub open spec fn with_put(
    definitions: Seq<PlaylistView>,
    playlist: PlaylistView,
) -> Seq<PlaylistView> {
    playlist::without(definitions, playlist.id).push(playlist)
}

/// The session as its callers see it.
#[verifier::reject_recursive_types(S)]
pub struct PlaylistSessionHandle<S> {
    pub runtime: SessionRuntime<S>,
}

impl<S> PlaylistSessionHandle<S> {
    /// What a command comes to: the session's reply, unless the queue did not
    /// take it or the reply did not come in time.
    pub fn request<T>(sent: Sent, reply: Option<Result<T, SessionError>>) -> (answer: Result<
        T,
        SessionError,
    >)
        ensures
            match (sent, reply) {
                (Sent::Full, _) => answer matches Err(SessionError::Busy(detail)) && detail@
                    == "playlist command queue is full"@,
                (Sent::Disconnected, _) => answer matches Err(SessionError::Busy(detail)) && detail@
                    == "playlist session is unavailable"@,
                (Sent::Queued, None) => answer matches Err(SessionError::Busy(detail)) && detail@
                    == "playlist command timed out"@,
                (Sent::Queued, Some(given)) => answer == given,
            },
    {
        match sent {
            Sent::Full => Err(SessionError::Busy("playlist command queue is full".to_owned())),
            Sent::Disconnected => Err(
                SessionError::Busy("playlist session is unavailable".to_owned()),
            ),
            Sent::Queued => match reply {
                Some(given) => given,
                None => Err(SessionError::Busy("playlist command timed out".to_owned())),
            },
        }
    }

    /// The definitions.
    pub fn list(&self) -> (listed: Result<Vec<Playlist>, SessionError>)
        ensures
            match self.runtime.store_error {
                Some(error) => listed == Err::<Vec<Playlist>, SessionError>(
                    SessionError::StoreUnavailable(error),
                ),
                None => listed matches Ok(playlists) && playlist::playlist_views(playlists@)
                    == playlist::playlist_views(self.runtime.playlists@),
            },
    {
        match &self.runtime.store_error {
            Some(error) => Err(SessionError::StoreUnavailable(error.clone())),
            None => Ok(copy_playlists(&self.runtime.playlists)),
        }
    }

    /// The state of the session.
    pub fn status(&self) -> (status: Result<SessionStatus, SessionError>)
        requires
            self.runtime.wf(),
        ensures
            status matches Ok(report) && reports(self.runtime, report),
    {
        Ok(self.runtime.status())
    }

    /// Puts a playlist in, in place of the one of its name.
    pub fn put<
        V: FnOnce(&Playlist) -> Result<(), String>,
        W: FnOnce(&Vec<Playlist>) -> Result<(), String>,
    >(&mut self, playlist: Playlist, validate: V, save: W) -> (answer: Result<
        Playlist,
        SessionError,
    >)
        requires
            old(self).runtime.wf(),
            old(self).runtime.store_error is None ==> call_requires(validate, (&playlist,)),
            // Nothing is saved but the definitions with a valid playlist put in.
            forall|list: &Vec<Playlist>|
                old(self).runtime.store_error is None && validates_as(validate, playlist, Ok(()))
                    && playlist::playlist_views(list@) == with_put(
                    playlist::playlist_views(old(self).runtime.playlists@),
                    playlist@,
                ) ==> #[trigger] call_requires(save, (list,)),
        ensures
            final(self).runtime.wf(),
            final(self).runtime == (SessionRuntime {
                playlists: final(self).runtime.playlists,
                ..old(self).runtime
            }),
            match answer {
                Ok(given) => {
                    let next = with_put(
                        playlist::playlist_views(old(self).runtime.playlists@),
                        playlist@,
                    );
                    &&& old(self).runtime.store_error is None
                    &&& validates_as(validate, playlist, Ok(()))
                    &&& saves_as(save, next, Ok(()))
                    &&& given@ == playlist@
                    &&& playlist::playlist_views(final(self).runtime.playlists@) == next
                },
                Err(error) => {
                    &&& final(self).runtime == old(self).runtime
                    &&& match old(self).runtime.store_error {
                        Some(reason) => error == SessionError::StoreUnavailable(reason),
                        None => error matches SessionError::Invalid(detail) && (validates_as(
                            validate,
                            playlist,
                            Err(detail),
                        ) || (validates_as(validate, playlist, Ok(())) && saves_as(
                            save,
                            with_put(
                                playlist::playlist_views(old(self).runtime.playlists@),
                                playlist@,
                            ),
                            Err(detail),
                        ))),
                    }
                },
            },
    {
        match &self.runtime.store_error {
            Some(error) => { return Err(SessionError::StoreUnavailable(error.clone())) },
            None => {},
        }
        let answer: Result<(), String> = validate(&playlist);
        match answer {
            Ok(unit) => {
                assert(unit == ());
                assert(validates_as(validate, playlist, Ok(())));
            },
            Err(detail) => { return Err(SessionError::Invalid(detail)) },
        }
        let mut updated = copy_without(&self.runtime.playlists, playlist.id.as_str());
        let ghost kept = updated@;
        updated.push(playlist.clone());
        proof {
            assert(playlist::playlist_views(updated@) =~= playlist::playlist_views(kept).push(
                playlist@,
            ));
        }
        let saved: Result<(), String> = save(&updated);
        match saved {
            Ok(unit) => {
                assert(unit == ());
                assert(saves_as(save, playlist::playlist_views(updated@), Ok(())));
            },
            Err(detail) => {
                assert(saves_as(save, playlist::playlist_views(updated@), Err(detail)));
                return Err(SessionError::Invalid(detail));
            },
        }
        self.runtime.playlists = updated;
        Ok(playlist)
    }

    /// Takes a playlist out, with all that is kept of it.
    pub fn remove<W: FnOnce(&Vec<Playlist>) -> Result<(), String>>(
        &mut self,
        id: String,
        save: W,
    ) -> (answer: Result<String, SessionError>)
        requires
            old(self).runtime.wf(),
            // Nothing is saved but the definitions without a playlist that was
            // among them.
            forall|list: &Vec<Playlist>|
                old(self).runtime.store_error is None && playlist::defines(
                    playlist::playlist_views(old(self).runtime.playlists@),
                    id@,
                ) && playlist::playlist_views(list@) == playlist::without(
                    playlist::playlist_views(old(self).runtime.playlists@),
                    id@,
                ) ==> #[trigger] call_requires(save, (list,)),
        ensures
            final(self).runtime.wf(),
            match answer {
                Ok(removed) => {
                    let before = playlist::playlist_views(old(self).runtime.playlists@);
                    let was_active = probe::option_view(old(self).runtime.active) == Some(id@);
                    &&& removed == id
                    &&& old(self).runtime.store_error is None
                    &&& playlist::defines(before, id@)
                    &&& saves_as(save, playlist::without(before, id@), Ok(()))
                    &&& final(self).runtime == (SessionRuntime {
                        playlists: final(self).runtime.playlists,
                        snapshots: final(self).runtime.snapshots,
                        active: if was_active {
                            None
                        } else {
                            old(self).runtime.active
                        },
                        last_decision: if was_active {
                            None
                        } else {
                            old(self).runtime.last_decision
                        },
                        owes_persist: true,
                        ..old(self).runtime
                    })
                    &&& playlist::playlist_views(final(self).runtime.playlists@)
                        == playlist::without(before, id@)
                    &&& final(self).runtime.snapshots@ == old(self).runtime.snapshots@.remove(id@)
                },
                Err(error) => {
                    let before = playlist::playlist_views(old(self).runtime.playlists@);
                    &&& final(self).runtime == old(self).runtime
                    &&& match old(self).runtime.store_error {
                        Some(reason) => error == SessionError::StoreUnavailable(reason),
                        None => if !playlist::defines(before, id@) {
                            error == SessionError::NotFound(id)
                        } else {
                            error matches SessionError::Invalid(detail) && saves_as(
                                save,
                                playlist::without(before, id@),
                                Err(detail),
                            )
                        },
                    }
                },
            },
    {
        match &self.runtime.store_error {
            Some(error) => { return Err(SessionError::StoreUnavailable(error.clone())) },
            None => {},
        }
        if find_playlist(&self.runtime.playlists, id.as_str()).is_none() {
            return Err(SessionError::NotFound(id));
        }
        let updated = copy_without(&self.runtime.playlists, id.as_str());
        let saved: Result<(), String> = save(&updated);
        match saved {
            Ok(unit) => {
                assert(unit == ());
                assert(saves_as(save, playlist::playlist_views(updated@), Ok(())));
            },
            Err(detail) => {
                assert(saves_as(save, playlist::playlist_views(updated@), Err(detail)));
                return Err(SessionError::Invalid(detail));
            },
        }
        self.runtime.playlists = updated;
        let _ = self.runtime.snapshots.remove(id.as_str());
        let was_active: bool = match &self.runtime.active {
            Some(active) => same(active.as_str(), id.as_str()),
            None => false,
        };
        if was_active {
            self.runtime.active = None;
            self.runtime.last_decision = None;
        }
        self.runtime.owes_persist = true;
        Ok(id)
    }

    /// Begins to make a playlist the active one, or none.
    pub fn activate(&mut self, id: Option<String>, now: u64) -> (answer: Result<
        Activation,
        SessionError,
    >)
        requires
            old(self).runtime.wf(),
        ensures
            final(self).runtime.wf(),
            match (old(self).runtime.store_error, id) {
                (Some(error), _) => answer == Err::<Activation, SessionError>(
                    SessionError::StoreUnavailable(error),
                ) && final(self).runtime == old(self).runtime,
                (None, None) => {
                    &&& answer matches Ok(Activation::Deactivated(status))
                    &&& reports(final(self).runtime, status)
                    &&& final(self).runtime == (SessionRuntime {
                        active: None,
                        last_decision: None,
                        applied_wallpaper: None,
                        apply_failures: 0,
                        next_apply_retry: now,
                        gate_refused_ids: final(self).runtime.gate_refused_ids,
                        owes_persist: true,
                        ..old(self).runtime
                    })
                    &&& final(self).runtime.gate_refused_ids@ == Map::<Seq<char>, ()>::empty()
                },
                (None, Some(name)) => match playlist::defined(
                    playlist::playlist_views(old(self).runtime.playlists@),
                    name@,
                ) {
                    None => answer == Err::<Activation, SessionError>(SessionError::NotFound(name))
                        && final(self).runtime == old(self).runtime,
                    Some(definition) => if probe::option_view(old(self).runtime.active) == Some(
                        name@,
                    ) {
                        &&& answer matches Ok(Activation::Unchanged(status))
                        &&& reports(old(self).runtime, status)
                        &&& final(self).runtime == old(self).runtime
                    } else {
                        &&& final(self).runtime == (SessionRuntime {
                            applied_wallpaper: None,
                            apply_failures: 0,
                            next_apply_retry: now,
                            gate_refused_ids: final(self).runtime.gate_refused_ids,
                            ..old(self).runtime
                        })
                        &&& final(self).runtime.gate_refused_ids@ == Map::<Seq<char>, ()>::empty()
                        &&& begins(
                            answer,
                            final(self).runtime,
                            definition,
                            old(self).runtime.snapshots@.contains_key(name@),
                        )
                    },
                },
            },
    {
        match &self.runtime.store_error {
            Some(error) => { return Err(SessionError::StoreUnavailable(error.clone())) },
            None => {},
        }
        let id: String = match id {
            Some(id) => id,
            None => {
                self.runtime.active = None;
                self.runtime.last_decision = None;
                self.runtime.reset_apply(now);
                self.runtime.owes_persist = true;
                return Ok(Activation::Deactivated(self.runtime.status()));
            },
        };
        let at: usize = match find_playlist(&self.runtime.playlists, id.as_str()) {
            Some(at) => at,
            None => { return Err(SessionError::NotFound(id)) },
        };
        let is_active: bool = match &self.runtime.active {
            Some(active) => same(active.as_str(), id.as_str()),
            None => false,
        };
        if is_active {
            return Ok(Activation::Unchanged(self.runtime.status()));
        }
        self.runtime.reset_apply(now);
        let playlist = self.runtime.playlists[at].clone();
        let unavailable = self.runtime.unavailable_for(&playlist);
        if self.runtime.snapshots.contains(id.as_str()) {
            Ok(Activation::Restore { playlist, unavailable })
        } else {
            Ok(Activation::Start { playlist, unavailable })
        }
    }

    /// Gives up a snapshot from which the playlist's clock could not be
    /// restored.
    pub fn restore_failed(&mut self, id: &str)
        requires
            old(self).runtime.wf(),
        ensures
            final(self).runtime.wf(),
            final(self).runtime == (SessionRuntime {
                snapshots: final(self).runtime.snapshots,
                ..old(self).runtime
            }),
            final(self).runtime.snapshots@ == old(self).runtime.snapshots@.remove(id@),
    {
        let _ = self.runtime.snapshots.remove(id);
    }

    /// Ends an activation: the playlist is active, with the first decision of
    /// its clock. A clock that decides nothing has no eligible entry.
    pub fn activated(
        &mut self,
        id: String,
        decision: Result<PlaylistDecision, String>,
        snapshot: Option<S>,
    ) -> (status: SessionStatus)
        requires
            old(self).runtime.wf(),
        ensures
            final(self).runtime.wf(),
            reports(final(self).runtime, status),
            final(self).runtime == (SessionRuntime {
                active: Some(id),
                last_decision: Some(
                    match decision {
                        Ok(taken) => taken,
                        Err(_) => PlaylistDecision::NoEligible,
                    },
                ),
                snapshots: final(self).runtime.snapshots,
                owes_persist: true,
                ..old(self).runtime
            }),
            final(self).runtime.snapshots@ == (match snapshot {
                Some(taken) => old(self).runtime.snapshots@.insert(id@, taken),
                None => old(self).runtime.snapshots@,
            }),
    {
        self.runtime.keep_snapshot(id.as_str(), snapshot);
        self.runtime.active = Some(id);
        self.runtime.last_decision = Some(
            match decision {
                Ok(taken) => taken,
                Err(_) => PlaylistDecision::NoEligible,
            },
        );
        self.runtime.owes_persist = true;
        self.runtime.status()
    }

    /// Takes up playlists without an identity. Only an empty store takes them.
    pub fn import<
        V: Fn(&Playlist) -> Result<(), String>,
        W: FnOnce(&Vec<Playlist>) -> Result<(), String>,
    >(&mut self, playlists: Vec<ImportPlaylist>, validate: V, save: W) -> (answer: Result<
        ImportSummary,
        SessionError,
    >)
        requires
            old(self).runtime.wf(),
            takes_imports(old(self).runtime) ==> forall|candidate: &Playlist|
                call_requires(validate, (candidate,)),
            // Nothing is saved but what an import that is let in and not too
            // long derives.
            forall|list: &Vec<Playlist>|
                takes_imports(old(self).runtime) && imports_as(
                    playlist::import_views(playlists@),
                    validate,
                    playlist::playlist_views(list@),
                ) ==> #[trigger] call_requires(save, (list,)),
        ensures
            final(self).runtime.wf(),
            final(self).runtime == (SessionRuntime {
                playlists: final(self).runtime.playlists,
                ..old(self).runtime
            }),
            answer is Err ==> final(self).runtime == old(self).runtime,
            match old(self).runtime.store_error {
                Some(error) => answer == Err::<ImportSummary, SessionError>(
                    SessionError::StoreUnavailable(error),
                ),
                None => if old(self).runtime.playlists@.len() > 0 {
                    answer == Err::<ImportSummary, SessionError>(SessionError::ImportBlocked)
                } else {
                    exists|accepted: Seq<bool>|
                        {
                            &&& #[trigger] playlist::import_answers(
                                playlist::import_views(playlists@),
                                accepted,
                                validate,
                            )
                            &&& import_ends(
                                playlist::import_run(
                                    playlist::import_views(playlists@),
                                    accepted,
                                ),
                                save,
                                playlist::playlist_views(final(self).runtime.playlists@),
                                answer,
                            )
                        }
                },
            },
    {
        match &self.runtime.store_error {
            Some(error) => { return Err(SessionError::StoreUnavailable(error.clone())) },
            None => {},
        }
        if self.runtime.playlists.len() > 0 {
            return Err(SessionError::ImportBlocked);
        }
        let (imported, rejected): (Vec<Playlist>, usize) = derive_playlists(&playlists, &validate);
        let ghost run = (playlist::playlist_views(imported@), rejected as nat);
        if imported.len() > MAX_IMPORTED_PLAYLISTS {
            let refusal = SessionError::Invalid("playlist count exceeds safety limit".to_owned());
            assert(import_ends(run, save, Seq::empty(), Err(refusal)));
            return Err(refusal);
        }
        let saved: Result<(), String> = save(&imported);
        match saved {
            Ok(unit) => {
                assert(unit == ());
                assert(saves_as(save, run.0, Ok(())));
            },
            Err(detail) => {
                assert(saves_as(save, run.0, Err(detail)));
                let refusal = SessionError::Invalid(detail);
                return Err(refusal);
            },
        }
        self.runtime.playlists = imported;
        Ok(ImportSummary { imported: self.runtime.playlists.len(), rejected })
    }

    /// Begins to skip the clock, as a suspend does: no tick sees the jump.
    pub fn debug_clock_skip(&mut self, ms: u64, elapsed: u64) -> (answer: Result<
        ClockSkip,
        SessionError,
    >)
        requires
            old(self).runtime.wf(),
            1 <= ms <= MAX_CLOCK_SKIP_MS ==> elapsed + old(self).runtime.clock_offset_ms + ms
                <= u64::MAX,
            1 <= ms <= MAX_CLOCK_SKIP_MS ==> old(self).runtime.clock_skipped_ms + ms <= u64::MAX,
        ensures
            final(self).runtime.wf(),
            skip_begun(old(self).runtime, ms, elapsed, answer, final(self).runtime),
    {
        if ms < 1 || ms > MAX_CLOCK_SKIP_MS {
            return Err(
                SessionError::Invalid("clock skip is outside the safety bounds".to_owned()),
            );
        }
        let freeze_at: u64 = self.runtime.now_ms(elapsed);
        self.runtime.clock_offset_ms = self.runtime.clock_offset_ms + ms;
        self.runtime.clock_skipped_ms = self.runtime.clock_skipped_ms + ms;
        let resume_at: u64 = self.runtime.now_ms(elapsed);
        let resumed: Option<(Playlist, Vec<String>)> = match &self.runtime.active {
            Some(id) => match find_playlist(&self.runtime.playlists, id.as_str()) {
                Some(at) => {
                    let playlist = self.runtime.playlists[at].clone();
                    let unavailable = self.runtime.unavailable_for(&playlist);
                    Some((playlist, unavailable))
                },
                None => None,
            },
            None => None,
        };
        Ok(ClockSkip { freeze_at, resume_at, resumed })
    }

    /// Ends a clock skip: the resumed clock's decision, if it made one.
    pub fn clock_skipped(&mut self, decision: Option<PlaylistDecision>) -> (status: SessionStatus)
        requires
            old(self).runtime.wf(),
        ensures
            final(self).runtime.wf(),
            reports(final(self).runtime, status),
            skip_ended(old(self).runtime, decision, final(self).runtime),
    {
        match decision {
            Some(taken) => {
                self.runtime.last_decision = Some(taken);
            },
            None => {},
        }
        self.runtime.status()
    }

    /// Replaces what is known of the installed wallpapers, if the queue took
    /// the news.
    pub fn update_availability(&mut self, sent: Sent, valid_ids: NameMap<()>) -> (taken: bool)
        requires
            old(self).runtime.wf(),
            valid_ids.wf(),
        ensures
            final(self).runtime.wf(),
            taken == (sent == Sent::Queued),
            final(self).runtime == (if taken {
                SessionRuntime { valid_ids, ..old(self).runtime }
            } else {
                old(self).runtime
            }),
    {
        match sent {
            Sent::Queued => {
                self.runtime.valid_ids = valid_ids;
                true
            },
            _ => false,
        }
    }
}

/// `answer` begins a clock skip that is within the bounds: the clock is frozen
/// now and resumed `ms` later. One that is not is refused and changes nothing.
pub open spec fn skip_begun<S>(
    before: SessionRuntime<S>,
    ms: u64,
    elapsed: u64,
    answer: Result<ClockSkip, SessionError>,
    after: SessionRuntime<S>,
) -> bool {
    if 1 <= ms <= MAX_CLOCK_SKIP_MS {
        &&& answer matches Ok(skip)
        &&& skip.freeze_at == elapsed + before.clock_offset_ms
        &&& skip.resume_at == elapsed + after.clock_offset_ms
        &&& after == (SessionRuntime {
            clock_offset_ms: (before.clock_offset_ms + ms) as u64,
            clock_skipped_ms: (before.clock_skipped_ms + ms) as u64,
            ..before
        })
        &&& match (active_playlist(before), skip.resumed) {
            (Some(definition), Some((playlist, unavailable))) => playlist@ == definition
                && lists_excluded(before, definition.entries, text::views(unavailable@)),
            (None, None) => true,
            _ => false,
        }
    } else {
        &&& answer matches Err(SessionError::Invalid(detail))
        &&& detail@ == "clock skip is outside the safety bounds"@
        &&& after == before
    }
}

/// A clock skip ends with the resumed clock's decision, if it made one.
pub open spec fn skip_ended<S>(
    before: SessionRuntime<S>,
    decision: Option<PlaylistDecision>,
    after: SessionRuntime<S>,
) -> bool {
    after == (match decision {
        Some(taken) => SessionRuntime { last_decision: Some(taken), ..before },
        None => before,
    })
}

/// `answer` begins the activation of `definition`, from its snapshot where
/// there is one.
pub open spec fn begins<S>(
    answer: Result<Activation, SessionError>,
    session: SessionRuntime<S>,
    definition: PlaylistView,
    from_snapshot: bool,
) -> bool {
    match answer {
        Ok(Activation::Restore { playlist, unavailable }) => from_snapshot && playlist@
            == definition && lists_excluded(
            session,
            definition.entries,
            text::views(unavailable@),
        ),
        Ok(Activation::Start { playlist, unavailable }) => !from_snapshot && playlist@
            == definition && lists_excluded(
            session,
            definition.entries,
            text::views(unavailable@),
        ),
        _ => false,
    }
}

/// An import is let in: the definitions can be read and there are none.
pub open spec fn takes_imports<S>(session: SessionRuntime<S>) -> bool {
    session.store_error is None && session.playlists@.len() == 0
}

/// These definitions are what an import can derive, and not too many.
pub open spec fn imports_as<V: Fn(&Playlist) -> Result<(), String>>(
    legacy: Seq<playlist::ImportView>,
    validate: V,
    definitions: Seq<PlaylistView>,
) -> bool {
    &&& definitions.len() <= MAX_IMPORTED_PLAYLISTS
    &&& exists|accepted: Seq<bool>| #[trigger]
        playlist::import_answers(legacy, accepted, validate) && definitions
            == playlist::import_run(legacy, accepted).0
}

/// How an import ends that derived `run`: it is refused when it is too long or
/// cannot be saved, and otherwise its playlists are the definitions.
pub open spec fn import_ends<W: FnOnce(&Vec<Playlist>) -> Result<(), String>>(
    run: (Seq<PlaylistView>, nat),
    save: W,
    definitions: Seq<PlaylistView>,
    answer: Result<ImportSummary, SessionError>,
) -> bool {
    if run.0.len() > MAX_IMPORTED_PLAYLISTS {
        answer matches Err(SessionError::Invalid(detail)) && detail@
            == "playlist count exceeds safety limit"@
    } else {
        match answer {
            Ok(summary) => {
                &&& saves_as(save, run.0, Ok(()))
                &&& definitions == run.0
                &&& summary.imported == run.0.len()
                &&& summary.rejected == run.1
            },
            Err(SessionError::Invalid(detail)) => saves_as(save, run.0, Err(detail)),
            Err(_) => false,
        }
    }
}

// ---------------------------------------------------------------------------
// Laws
// ---------------------------------------------------------------------------

/// What the capability gate refused or the supervisor quarantined is among the
/// entries that the next decision passes over, and so is what is not installed.
pub proof fn law_refused_entries_are_passed_over<S>(
    session: SessionRuntime<S>,
    entries: Seq<Seq<char>>,
    unavailable: Seq<Seq<char>>,
    id: Seq<char>,
)
    requires
        lists_excluded(session, entries, unavailable),
        entries.contains(id),
    ensures
        session.gate_refused_ids@.contains_key(id) ==> unavailable.contains(id),
        session.quarantined_ids@.contains_key(id) ==> unavailable.contains(id),
        !session.valid_ids@.contains_key(id) ==> unavailable.contains(id),
        unavailable.contains(id) ==> excluded(session, id),
{
}

/// A playlist that was put in is what goes by its name from then on, and no
/// other playlist is touched.
pub proof fn law_put_is_read_back(
    definitions: Seq<PlaylistView>,
    playlist: PlaylistView,
    other: Seq<char>,
)
    ensures
        playlist::defined(with_put(definitions, playlist), playlist.id) == Some(playlist),
        other != playlist.id ==> playlist::defined(with_put(definitions, playlist), other)
            == playlist::defined(definitions, other),
{
    let kept = playlist::without(definitions, playlist.id);
    let next = with_put(definitions, playlist);
    playlist::lemma_without(definitions, playlist.id, playlist.id);
    playlist::lemma_defined(kept, playlist.id);
    playlist::lemma_defined_push(kept, playlist, playlist.id);
    playlist::lemma_defined_push(kept, playlist, other);
    if other != playlist.id {
        playlist::lemma_without_keeps(definitions, playlist.id, other);
    }
}

/// Nothing goes by the name of a playlist that was taken out, and no other
/// playlist is touched.
pub proof fn law_removed_is_gone(definitions: Seq<PlaylistView>, id: Seq<char>, other: Seq<char>)
    ensures
        playlist::defined(playlist::without(definitions, id), id) is None,
        other != id ==> playlist::defined(playlist::without(definitions, id), other)
            == playlist::defined(definitions, other),
{
    playlist::lemma_without(definitions, id, id);
    playlist::lemma_defined(playlist::without(definitions, id), id);
    if other != id {
        playlist::lemma_without_keeps(definitions, id, other);
    }
}

/// A clock skip moves the clock and nothing else: it resumes exactly `ms` later
/// than it was frozen, and the active playlist, the definitions and the
/// snapshots stay as they were. So an entry whose deadline is resumed as far
/// ahead as it was when frozen ends, seen from any later time, exactly when it
/// would have without the skip.
pub proof fn law_clock_skip_moves_nothing_but_the_clock<S>(
    before: SessionRuntime<S>,
    ms: u64,
    elapsed: u64,
    answer: Result<ClockSkip, SessionError>,
    midway: SessionRuntime<S>,
    decision: Option<PlaylistDecision>,
    after: SessionRuntime<S>,
    status: SessionStatus,
    deadline: int,
    later: int,
)
    requires
        1 <= ms <= MAX_CLOCK_SKIP_MS,
        elapsed + before.clock_offset_ms + ms <= u64::MAX,
        before.clock_skipped_ms + ms <= u64::MAX,
        skip_begun(before, ms, elapsed, answer, midway),
        skip_ended(midway, decision, after),
        reports(after, status),
    ensures
        answer matches Ok(skip) && skip.resume_at == skip.freeze_at + ms && ({
            let resumed_deadline = skip.resume_at + (deadline - skip.freeze_at);
            resumed_deadline - (later + after.clock_offset_ms) == deadline - (later
                + before.clock_offset_ms)
        }),
        after == (SessionRuntime {
            clock_offset_ms: (before.clock_offset_ms + ms) as u64,
            clock_skipped_ms: (before.clock_skipped_ms + ms) as u64,
            last_decision: after.last_decision,
            ..before
        }),
        after.active == before.active,
        after.playlists == before.playlists,
        after.snapshots == before.snapshots,
        after.last_decision == (if decision is Some {
            decision
        } else {
            before.last_decision
        }),
        status.playlist_id == before.active,
        status.clock_skipped_ms == before.clock_skipped_ms + ms,
{
}

/// What a session wrote down is what the next start takes up: the active
/// playlist, and every snapshot that still holds.
pub proof fn law_written_state_is_taken_up<S, V: Fn(&S) -> Result<(), String>>(
    state: PersistedSessionState<S>,
    size: u64,
    validate: V,
    kept: Map<Seq<char>, S>,
)
    requires
        state.schema_version == RUNTIME_STATE_SCHEMA_VERSION,
        state.snapshots@.len() <= MAX_SNAPSHOT_ENTRIES,
        size <= MAX_RUNTIME_STATE_BYTES,
        forall|id: Seq<char>, answer: Result<(), String>|
            state.snapshots@.contains_key(id) && #[trigger] call_ensures(
                validate,
                (&state.snapshots@[id],),
                answer,
            ) ==> answer is Ok,
        keeps_valid(state.snapshots@, validate, kept),
    ensures
        runtime_yields(
            RuntimeStateFile::Present { size, content: Some(StateContent::Parsed(state)) },
        ) == Ok::<Option<PersistedSessionState<S>>, Seq<char>>(Some(state)),
        kept == state.snapshots@,
{
    assert forall|id: Seq<char>| state.snapshots@.contains_key(id) implies #[trigger]
        kept.contains_key(id) by {
        assert(snapshot_answered(validate, state.snapshots@[id], kept.contains_key(id)));
    }
    assert(kept =~= state.snapshots@);
}

/// However many snapshots are given up, the active playlist's is not.
pub proof fn law_active_snapshot_outlives_eviction<
    S,
    E: Fn(&Option<String>, &NameMap<S>) -> Vec<u8>,
>(path: Seq<NameMap<S>>, active: String, encode: E)
    requires
        eviction_path(path, Some(active), encode),
        path[0]@.contains_key(active@),
    ensures
        path.last()@.contains_key(active@),
        path.last()@[active@] == path[0]@[active@],
    decreases path.len(),
{
    if path.len() > 1 {
        let shorter = path.drop_last();
        assert forall|i: int| 0 <= i < shorter.len() - 1 implies eviction_step(
            #[trigger] shorter[i],
            shorter[i + 1],
            Some(active),
            encode,
        ) by {
            assert(shorter[i] == path[i]);
            assert(shorter[i + 1] == path[i + 1]);
        }
        law_active_snapshot_outlives_eviction(shorter, active, encode);
        let last = path.len() - 2;
        assert(eviction_step(path[last], path[last + 1], Some(active), encode));
        let id = choose|id: Seq<char>| #[trigger]
            evicted_next(path[last]@, Some(active), id) && path[last + 1]@ == path[last]@.remove(id);
        assert(evictable(path[last]@, Some(active), id));
    }
}

} // verus!
