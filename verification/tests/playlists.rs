use kwe_daemon::apply::ApplyError;
use kwe_daemon::model::{WorkerPhase, WorkerStatus};
use kwe_daemon::names::NameMap;
use kwe_daemon::persist::StateContent;
use kwe_daemon::playlist::{
    decision_signature, decision_wallpaper_id, default_duration_seconds, default_repeat,
    default_transition, derive_id, same_decision, ImportPlaylist, Playlist, PlaylistDecision,
    PlaylistTransition,
};
use kwe_daemon::playlist_session::{
    load_runtime_state, Activation, ApplyRequest, ApplyStep, Persisted, PersistedSessionState,
    PlaylistSessionConfig, PlaylistSessionHandle, RuntimeStateFile, Sent, SessionError,
    SessionRuntime, SessionStatus, TickStep, MAX_CLOCK_SKIP_MS, MAX_RUNTIME_STATE_BYTES,
    WAITING_PERSIST_INTERVAL_MS,
};
use kwe_daemon::verdict::{apply_backoff, apply_verdict, foreign_renderer_live, ApplyVerdict};

fn names(ids: &[&str]) -> NameMap<()> {
    let mut map = NameMap::new();
    for id in ids {
        map.insert(id, ());
    }
    map
}

fn listed(map: &NameMap<()>) -> Vec<String> {
    (0..map.len()).map(|i| map.name_at(i).clone()).collect()
}

fn daily_playlist() -> Playlist {
    Playlist {
        id: "daily".into(),
        title: "Daily".into(),
        entries: vec!["1".into(), "2".into(), "3".into()],
        shuffle: false,
        repeat: true,
        duration_seconds: 10,
        transition: PlaylistTransition::HardCut,
        transition_seconds: 0,
    }
}

fn accept(_: &Playlist) -> Result<(), String> {
    Ok(())
}

fn saved(_: &Vec<Playlist>) -> Result<(), String> {
    Ok(())
}

/// Where a playlist stands: the entry, and how long it is still shown.
#[derive(Clone, Debug, PartialEq)]
struct Snapshot {
    index: usize,
    remaining_ms: u64,
}

/// A playlist clock without shuffle: the first entry that may be played, and
/// the next one when its time is over.
struct Clock {
    index: Option<usize>,
    until: u64,
}

impl Clock {
    fn tick(&mut self, playlist: &Playlist, now: u64, unavailable: &[String]) -> PlaylistDecision {
        let playable = |i: usize| !unavailable.contains(&playlist.entries[i]);
        let count = playlist.entries.len();
        let length = u64::from(playlist.duration_seconds) * 1000;
        let (from, started) = match self.index {
            Some(index) if playable(index) && now < self.until => {
                return PlaylistDecision::Waiting {
                    wallpaper_id: playlist.entries[index].clone(),
                    index,
                    remaining_ms: self.until - now,
                };
            }
            Some(index) => (index + 1, false),
            None => (0, true),
        };
        match (from..from + count).map(|i| i % count).find(|i| playable(*i)) {
            Some(index) => {
                self.index = Some(index);
                self.until = now + length;
                let wallpaper_id = playlist.entries[index].clone();
                if started {
                    PlaylistDecision::Started { wallpaper_id, index, deadline_ms: self.until }
                } else {
                    PlaylistDecision::Advanced { wallpaper_id, index, deadline_ms: self.until }
                }
            }
            None => PlaylistDecision::NoEligible,
        }
    }

    fn snapshot(&self, now: u64) -> Option<Snapshot> {
        self.index.map(|index| Snapshot { index, remaining_ms: self.until.saturating_sub(now) })
    }

    fn restore(&mut self, snapshot: &Snapshot, now: u64) {
        self.index = Some(snapshot.index);
        self.until = now + snapshot.remaining_ms;
    }
}

fn config(valid: &[&str], output: Option<&str>, applies: bool) -> PlaylistSessionConfig {
    PlaylistSessionConfig {
        state_dir: "/state".into(),
        tick_ms: 50,
        valid_ids: names(valid),
        output: output.map(str::to_string),
        applies,
    }
}

fn session(valid: &[&str]) -> PlaylistSessionHandle<Snapshot> {
    PlaylistSessionHandle {
        runtime: SessionRuntime::new(config(valid, None, true), Ok(vec![]), None, NameMap::new(), 0),
    }
}

fn idle() -> WorkerStatus {
    fabricated_status(WorkerPhase::Idle, None)
}

fn fabricated_status(phase: WorkerPhase, requested: Option<&str>) -> WorkerStatus {
    WorkerStatus {
        phase,
        wallpaper_id: requested.map(str::to_string),
        requested_wallpaper_id: requested.map(str::to_string),
        requested_content_hash: None,
        last_failure_detail: None,
        quarantined: false,
        failures: 0,
    }
}

/// A session with its clock, its disk, and an applier that answers at the next
/// tick.
struct Rig {
    handle: PlaylistSessionHandle<Snapshot>,
    clock: Clock,
    calls: Vec<(Option<String>, String, Vec<String>)>,
    pending: Option<ApplyRequest>,
    writes: usize,
}

impl Rig {
    fn new(valid: &[&str], output: Option<&str>) -> Self {
        Rig {
            handle: PlaylistSessionHandle {
                runtime: SessionRuntime::new(
                    config(valid, output, true),
                    Ok(vec![]),
                    None,
                    NameMap::new(),
                    0,
                ),
            },
            clock: Clock { index: None, until: 0 },
            calls: Vec::new(),
            pending: None,
            writes: 0,
        }
    }

    fn persist(&mut self) {
        if self.handle.runtime.owes_persist {
            let written = self.handle.runtime.persist_state(
                |_: &Option<String>, _: &NameMap<Snapshot>| vec![1],
                |_: &Vec<u8>| Ok(()),
            );
            assert!(matches!(written, Persisted::Written));
            self.writes += 1;
        }
    }

    fn activate(&mut self, id: &str, now: u64) -> SessionStatus {
        let activation = self.handle.activate(Some(id.into()), now).unwrap();
        let (playlist, unavailable) = match activation {
            Activation::Start { playlist, unavailable } => (playlist, unavailable),
            Activation::Restore { playlist, unavailable } => {
                let snapshot = self.handle.runtime.snapshots.get(id).unwrap().clone();
                self.clock.restore(&snapshot, now);
                (playlist, unavailable)
            }
            Activation::Unchanged(status) | Activation::Deactivated(status) => return status,
        };
        let decision = self.clock.tick(&playlist, now, &unavailable);
        let status = self
            .handle
            .activated(id.into(), Ok(decision), self.clock.snapshot(now));
        self.persist();
        status
    }

    /// One tick: fold in what the applier said, decide, persist, apply.
    fn tick(
        &mut self,
        now: u64,
        quarantined: &[&str],
        worker: WorkerStatus,
        answer: impl Fn(&str) -> Result<(), ApplyError>,
    ) {
        self.handle.runtime.refresh_quarantine(Ok(names(quarantined)));
        if let Some(request) = self.pending.take() {
            let result = answer(&request.wallpaper_id);
            self.handle.runtime.fold_apply(request.wallpaper_id, result, now);
        }
        match self.handle.runtime.begin_tick(now) {
            TickStep::Idle => {}
            TickStep::ActiveRemoved => self.persist(),
            TickStep::Decide { playlist, unavailable } => {
                let decision = self.clock.tick(&playlist, now, &unavailable);
                self.handle.runtime.decided(&decision, now);
                if self.handle.runtime.owes_persist {
                    self.handle.runtime.keep_snapshot(&playlist.id, self.clock.snapshot(now));
                }
                self.persist();
                let step = self
                    .handle
                    .runtime
                    .maybe_apply(&playlist, &decision, Some(Ok(worker)), now);
                if let ApplyStep::Dispatch(request) = step {
                    self.calls.push((
                        request.output.clone(),
                        request.wallpaper_id.clone(),
                        listed(&request.playlist_entries),
                    ));
                    self.pending = Some(request);
                    self.handle.runtime.dispatched(true);
                }
            }
        }
    }
}

fn decision_wallpaper(decision: Option<&PlaylistDecision>) -> Option<(String, usize)> {
    decision.and_then(|decision| match decision {
        PlaylistDecision::Started { wallpaper_id, index, .. }
        | PlaylistDecision::Waiting { wallpaper_id, index, .. }
        | PlaylistDecision::Advanced { wallpaper_id, index, .. }
        | PlaylistDecision::Paused { wallpaper_id, index, .. } => {
            Some((wallpaper_id.clone(), *index))
        }
        PlaylistDecision::Exhausted | PlaylistDecision::NoEligible => None,
    })
}

fn legacy(title: &str, entry: &str) -> ImportPlaylist {
    ImportPlaylist {
        title: title.into(),
        entries: vec![entry.into()],
        shuffle: false,
        repeat: true,
        duration_seconds: 300,
        transition: "none".into(),
        transition_seconds: 0,
    }
}

const LIVE_PHASES: [WorkerPhase; 6] = [
    WorkerPhase::Starting,
    WorkerPhase::Canary,
    WorkerPhase::Live,
    WorkerPhase::AwaitingAck,
    WorkerPhase::Restarting,
    WorkerPhase::RolledBack,
];

// -- verdicts ---------------------------------------------------------------

#[test]
fn apply_verdict_satisfied_yield_apply_matrix() {
    for phase in LIVE_PHASES {
        let status = fabricated_status(phase, Some("1"));
        assert_eq!(
            apply_verdict(Some("1"), "1", &status, true),
            ApplyVerdict::Satisfied,
            "live {phase:?} on the desired wallpaper must satisfy"
        );
        assert_eq!(
            apply_verdict(None, "1", &status, true),
            ApplyVerdict::Satisfied,
            "a user apply of the desired wallpaper must satisfy in {phase:?}"
        );
    }
    let stale = fabricated_status(WorkerPhase::Live, Some("1"));
    assert_eq!(
        apply_verdict(Some("1"), "2", &stale, true),
        ApplyVerdict::Apply,
        "own stale renderer must be displaced with the backoff gate open"
    );
    assert_eq!(
        apply_verdict(Some("1"), "2", &stale, false),
        ApplyVerdict::Hold,
        "own stale renderer with a closed backoff gate must hold"
    );
    for phase in LIVE_PHASES {
        let foreign = fabricated_status(phase, Some("2"));
        assert_eq!(
            apply_verdict(Some("1"), "1", &foreign, true),
            ApplyVerdict::Yield,
            "a foreign renderer in {phase:?} must win"
        );
    }
    let idle = fabricated_status(WorkerPhase::Idle, None);
    assert_eq!(
        apply_verdict(Some("1"), "1", &idle, true),
        ApplyVerdict::Apply,
        "idle with an open gate must apply"
    );
    let stopped = fabricated_status(WorkerPhase::Stopped, Some("1"));
    assert_eq!(
        apply_verdict(Some("1"), "1", &stopped, true),
        ApplyVerdict::Apply,
        "a stopped own renderer must be re-asserted"
    );
    let quarantined = fabricated_status(WorkerPhase::Quarantined, Some("2"));
    assert_eq!(
        apply_verdict(Some("1"), "1", &quarantined, true),
        ApplyVerdict::Apply,
        "a quarantined candidate must be retried once the backoff gate opens"
    );
    assert_eq!(
        apply_verdict(Some("1"), "1", &idle, false),
        ApplyVerdict::Hold,
        "a closed backoff gate must hold the previous assignment"
    );
    assert_eq!(
        apply_verdict(None, "1", &idle, false),
        ApplyVerdict::Hold,
        "a closed backoff gate must not apply for a fresh entry either"
    );
}

#[test]
fn crash_restore_recovery_is_not_satisfied() {
    for phase in [WorkerPhase::RolledBack, WorkerPhase::Restarting] {
        let mut status = fabricated_status(phase, Some("1"));
        status.wallpaper_id = Some("0".into());
        assert_eq!(
            apply_verdict(Some("1"), "1", &status, true),
            ApplyVerdict::Wait,
            "{phase:?} with a different active wallpaper must wait"
        );
        assert_eq!(
            apply_verdict(None, "1", &status, true),
            ApplyVerdict::Wait,
            "{phase:?} with a different active wallpaper must wait (fresh session too)"
        );
        let mut status = fabricated_status(phase, Some("1"));
        status.wallpaper_id = None;
        assert_eq!(
            apply_verdict(Some("1"), "1", &status, true),
            ApplyVerdict::Wait,
            "{phase:?} with no active worker must wait"
        );
    }
    let status = fabricated_status(WorkerPhase::Restarting, Some("1"));
    assert_eq!(
        apply_verdict(Some("1"), "1", &status, true),
        ApplyVerdict::Satisfied
    );
    for phase in [WorkerPhase::Starting, WorkerPhase::Canary] {
        let status = fabricated_status(phase, Some("1"));
        assert_eq!(
            apply_verdict(Some("1"), "1", &status, true),
            ApplyVerdict::Satisfied
        );
    }
    let mut status = fabricated_status(WorkerPhase::Restarting, Some("1"));
    status.wallpaper_id = Some("1".into());
    assert_eq!(
        apply_verdict(Some("1"), "2", &status, true),
        ApplyVerdict::Apply,
        "own stale renderer is still displaced on an entry change during recovery"
    );
}

#[test]
fn foreign_renderer_live_matrix() {
    for phase in LIVE_PHASES {
        let status = fabricated_status(phase, Some("2"));
        assert!(
            foreign_renderer_live(&status, "1", None),
            "live foreign {phase:?} (no applied identity) must be foreign"
        );
        assert!(
            foreign_renderer_live(&status, "1", Some("3")),
            "live foreign {phase:?} (applied 3) must be foreign"
        );
        assert!(
            !foreign_renderer_live(&status, "1", Some("2")),
            "own stale renderer in {phase:?} is not foreign"
        );
        assert!(
            !foreign_renderer_live(&status, "2", None),
            "the desired renderer in {phase:?} is not foreign"
        );
    }
    let idle = fabricated_status(WorkerPhase::Idle, None);
    assert!(!foreign_renderer_live(&idle, "1", None));
    let stopped = fabricated_status(WorkerPhase::Stopped, Some("2"));
    assert!(!foreign_renderer_live(&stopped, "1", None));
    let quarantined = fabricated_status(WorkerPhase::Quarantined, Some("2"));
    assert!(!foreign_renderer_live(&quarantined, "1", None));
}

#[test]
fn apply_backoff_doubles_to_the_thirty_second_cap() {
    assert_eq!(apply_backoff(1), 1_000);
    assert_eq!(apply_backoff(2), 2_000);
    assert_eq!(apply_backoff(3), 4_000);
    assert_eq!(apply_backoff(4), 8_000);
    assert_eq!(apply_backoff(5), 16_000);
    assert_eq!(apply_backoff(6), 30_000);
    assert_eq!(apply_backoff(99), 30_000);
}

// -- definitions ------------------------------------------------------------

#[test]
fn corrupt_definitions_store_keeps_daemon_up() {
    let mut handle: PlaylistSessionHandle<Snapshot> = PlaylistSessionHandle {
        runtime: SessionRuntime::new(
            config(&[], None, false),
            Err("garbage".into()),
            None,
            NameMap::new(),
            0,
        ),
    };
    let status = handle.status().unwrap();
    assert_eq!(status.definitions.store_health, "corrupt");
    assert_eq!(status.definitions.count, 0);
    assert!(matches!(
        handle.list(),
        Err(SessionError::StoreUnavailable(_))
    ));
    assert!(matches!(
        handle.put(daily_playlist(), accept, saved),
        Err(SessionError::StoreUnavailable(_))
    ));
    assert!(matches!(
        handle.remove("daily".into(), saved),
        Err(SessionError::StoreUnavailable(_))
    ));
    assert!(matches!(
        handle.activate(None, 0),
        Err(SessionError::StoreUnavailable(_))
    ));
    assert!(matches!(
        handle.import(vec![], accept, saved),
        Err(SessionError::StoreUnavailable(_))
    ));
}

#[test]
fn import_maps_legacy_titles_to_bounded_ids() {
    let mut handle = session(&[]);
    let summary = handle
        .import(vec![legacy("  First  ", "one"), legacy("First", "two")], accept, saved)
        .unwrap();
    assert_eq!(summary.imported, 2);
    assert_eq!(summary.rejected, 0);
    let playlists = handle.list().unwrap();
    let ids: Vec<&str> = playlists.iter().map(|p| p.id.as_str()).collect();
    assert_eq!(ids, vec!["First", "First-2"]);
    assert!(matches!(
        handle.import(Vec::new(), accept, saved),
        Err(SessionError::ImportBlocked)
    ));
}

#[test]
fn import_ids_never_exceed_the_identity_bound() {
    let mut handle = session(&[]);
    let long = "L".repeat(200);
    let summary = handle
        .import(vec![legacy(&long, "one"), legacy(&long, "two")], accept, saved)
        .unwrap();
    assert_eq!(
        summary.imported, 2,
        "long-titled duplicates must not be dropped"
    );
    assert_eq!(summary.rejected, 0);
    let ids: Vec<String> = handle.list().unwrap().into_iter().map(|p| p.id).collect();
    assert_eq!(ids.len(), 2);
    assert!(ids.iter().all(|id| id.len() <= 128 && !id.is_empty()));
    assert_ne!(ids[0], ids[1], "collision suffix must keep ids distinct");
}

#[test]
fn an_import_rejects_what_it_cannot_take_and_keeps_the_rest() {
    let mut handle = session(&[]);
    let mut odd = legacy("Odd", "one");
    odd.transition = "wipe".into();
    let mut faded = legacy("Faded", "two");
    faded.transition = "crossfade".into();
    let summary = handle
        .import(
            vec![odd, legacy("   ", "three"), legacy("Refused", "four"), faded],
            |playlist: &Playlist| {
                if playlist.title == "Refused" {
                    Err("refused".into())
                } else {
                    Ok(())
                }
            },
            saved,
        )
        .unwrap();
    assert_eq!(summary.imported, 2);
    assert_eq!(summary.rejected, 2);
    let playlists = handle.list().unwrap();
    assert_eq!(playlists[0].id, "-2");
    assert_eq!(playlists[1].id, "Faded");
    assert_eq!(playlists[1].transition, PlaylistTransition::Crossfade);
    let error = legacy("x", "y");
    let mut unknown = error;
    unknown.transition = "wipe".into();
    assert_eq!(
        unknown.to_playlist("x".into(), &accept).unwrap_err(),
        "unknown transition wipe"
    );
}

#[test]
fn an_import_that_is_too_long_or_cannot_be_saved_changes_nothing() {
    let mut handle = session(&[]);
    let many: Vec<ImportPlaylist> = (0..257).map(|i| legacy(&format!("p{i}"), "one")).collect();
    match handle.import(many, accept, saved) {
        Err(SessionError::Invalid(detail)) => {
            assert_eq!(detail, "playlist count exceeds safety limit")
        }
        _ => panic!("257 playlists are too many"),
    }
    assert!(handle.list().unwrap().is_empty());
    match handle.import(vec![legacy("a", "b")], accept, |_: &Vec<Playlist>| {
        Err("disk full".into())
    }) {
        Err(SessionError::Invalid(detail)) => assert_eq!(detail, "disk full"),
        _ => panic!("what is not saved is not imported"),
    }
    assert!(handle.list().unwrap().is_empty());
}

#[test]
fn numbers_keep_identities_apart_up_to_a_limit() {
    let mut taken: Vec<Playlist> = Vec::new();
    for _ in 0..256 {
        let id = derive_id("Same", &taken).unwrap();
        let mut playlist = daily_playlist();
        playlist.id = id;
        taken.push(playlist);
    }
    assert_eq!(taken[255].id, "Same-256");
    assert_eq!(derive_id("Same", &taken), None);
    assert_eq!(derive_id("Other", &taken).as_deref(), Some("Other"));
}

#[test]
fn import_defaults() {
    assert!(default_repeat());
    assert_eq!(default_duration_seconds(), 300);
    assert_eq!(default_transition(), "none");
}

#[test]
fn a_put_replaces_and_a_remove_forgets() {
    let mut handle = session(&["1", "2", "3"]);
    let mut other = daily_playlist();
    other.id = "other".into();
    handle.put(daily_playlist(), accept, saved).unwrap();
    handle.put(other, accept, saved).unwrap();
    let mut changed = daily_playlist();
    changed.title = "Changed".into();
    handle.put(changed, accept, saved).unwrap();
    let ids: Vec<String> = handle.list().unwrap().into_iter().map(|p| p.id).collect();
    assert_eq!(ids, ["other", "daily"]);
    assert_eq!(handle.list().unwrap()[1].title, "Changed");
    assert_eq!(handle.remove("other".into(), saved).unwrap(), "other");
    assert!(matches!(
        handle.remove("other".into(), saved),
        Err(SessionError::NotFound(id)) if id == "other"
    ));
    assert!(matches!(
        handle.remove("daily".into(), |_: &Vec<Playlist>| Err("full".into())),
        Err(SessionError::Invalid(detail)) if detail == "full"
    ));
    assert_eq!(handle.list().unwrap().len(), 1);
}

#[test]
fn removing_the_active_playlist_deactivates_the_session() {
    let mut rig = Rig::new(&["1", "2", "3"], None);
    rig.handle.put(daily_playlist(), accept, saved).unwrap();
    rig.activate("daily", 0);
    rig.handle.remove("daily".into(), saved).unwrap();
    let status = rig.handle.status().unwrap();
    assert!(!status.active);
    assert!(status.decision.is_none());
    assert!(!rig.handle.runtime.snapshots.contains("daily"));
    assert!(rig.handle.runtime.owes_persist);
}

#[test]
fn an_active_playlist_without_a_definition_is_dropped_at_a_tick() {
    let mut rig = Rig::new(&["1"], None);
    rig.handle.runtime.active = Some("gone".into());
    rig.tick(10, &[], idle(), |_| Ok(()));
    assert!(rig.handle.runtime.active.is_none());
    assert_eq!(rig.writes, 1);
}

// -- the session ------------------------------------------------------------

#[test]
fn corrupt_runtime_state_is_quarantined_and_session_starts_fresh() {
    let file: RuntimeStateFile<Snapshot> = RuntimeStateFile::Present {
        size: 7,
        content: Some(StateContent::ParseFailed("expected value".into())),
    };
    let (active, snapshots, quarantine) = load_runtime_state(file, |_: &Snapshot| Ok(()));
    assert_eq!(quarantine.as_deref(), Some("expected value"));
    let handle: PlaylistSessionHandle<Snapshot> = PlaylistSessionHandle {
        runtime: SessionRuntime::new(config(&[], None, false), Ok(vec![]), active, snapshots, 0),
    };
    assert!(!handle.status().unwrap().active);
}

#[test]
fn runtime_state_that_cannot_be_taken_up() {
    let valid = |_: &Snapshot| Ok(());
    let missing: RuntimeStateFile<Snapshot> = RuntimeStateFile::Missing;
    assert!(load_runtime_state(missing, valid).2.is_none());
    let failed: RuntimeStateFile<Snapshot> = RuntimeStateFile::MetadataFailed("denied".into());
    assert!(load_runtime_state(failed, valid).2.is_none());
    let huge: RuntimeStateFile<Snapshot> = RuntimeStateFile::Present {
        size: MAX_RUNTIME_STATE_BYTES + 1,
        content: None,
    };
    assert_eq!(
        load_runtime_state(huge, valid).2.as_deref(),
        Some("runtime state exceeds 4194304 bytes")
    );
    let unread: RuntimeStateFile<Snapshot> = RuntimeStateFile::Present {
        size: 1,
        content: Some(StateContent::ReadFailed("denied".into())),
    };
    assert_eq!(load_runtime_state(unread, valid).2.as_deref(), Some("denied"));
    let versioned: RuntimeStateFile<Snapshot> = RuntimeStateFile::Present {
        size: 1,
        content: Some(StateContent::Parsed(PersistedSessionState {
            schema_version: 2,
            active_playlist_id: Some("daily".into()),
            snapshots: NameMap::new(),
        })),
    };
    assert_eq!(
        load_runtime_state(versioned, valid).2.as_deref(),
        Some("unsupported or oversized runtime state")
    );
}

#[test]
fn invalid_snapshots_are_dropped_one_by_one() {
    let mut snapshots = NameMap::new();
    for (id, index) in [("a", 0), ("b", 99), ("c", 1)] {
        snapshots.insert(id, Snapshot { index, remaining_ms: 5 });
    }
    let file = RuntimeStateFile::Present {
        size: 1,
        content: Some(StateContent::Parsed(PersistedSessionState {
            schema_version: 1,
            active_playlist_id: Some("a".into()),
            snapshots,
        })),
    };
    let (active, kept, quarantine) = load_runtime_state(file, |snapshot: &Snapshot| {
        if snapshot.index < 10 {
            Ok(())
        } else {
            Err("out of range".into())
        }
    });
    assert_eq!(active.as_deref(), Some("a"));
    assert!(quarantine.is_none());
    assert_eq!(kept.len(), 2);
    assert!(kept.contains("a") && !kept.contains("b") && kept.contains("c"));
}

#[test]
fn activate_persists_and_restart_restores_session() {
    let mut rig = Rig::new(&["1", "2", "3"], None);
    rig.handle.put(daily_playlist(), accept, saved).unwrap();
    let status = rig.activate("daily", 1_000);
    assert!(status.active);
    assert_eq!(status.playlist_id.as_deref(), Some("daily"));
    assert_eq!(
        decision_wallpaper(status.decision.as_ref()),
        Some(("1".into(), 0))
    );
    assert_eq!(rig.writes, 1);
    let left = rig.clock.snapshot(4_000);
    rig.handle.runtime.keep_snapshot("daily", left);
    // The next instance starts over the same state, at another time.
    let mut snapshots = NameMap::new();
    snapshots.insert("daily", rig.handle.runtime.snapshots.get("daily").unwrap().clone());
    let runtime = SessionRuntime::new(
        config(&["1", "2", "3"], None, true),
        Ok(vec![daily_playlist()]),
        Some("daily".into()),
        snapshots,
        50,
    );
    let mut clock = Clock { index: None, until: 0 };
    let (playlist, snapshot) = runtime.rehydration().unwrap();
    clock.restore(snapshot, 50);
    match clock.tick(playlist, 250, &[]) {
        PlaylistDecision::Waiting { wallpaper_id, remaining_ms, .. } => {
            assert_eq!(wallpaper_id, "1");
            assert_eq!(remaining_ms, 6_800);
        }
        other => panic!("expected Waiting, got {other:?}"),
    }
    assert!(runtime.status().active, "active session must survive a restart");
    // A snapshot of a playlist that is gone restores nothing.
    let gone: SessionRuntime<Snapshot> = SessionRuntime::new(
        config(&[], None, true),
        Ok(vec![]),
        Some("daily".into()),
        NameMap::new(),
        0,
    );
    assert!(gone.active.is_none());
    assert!(gone.rehydration().is_none());
}

#[test]
fn unavailable_set_marks_missing_and_quarantined_ids() {
    let mut rig = Rig::new(&["1"], None);
    rig.handle.put(daily_playlist(), accept, saved).unwrap();
    let status = rig.activate("daily", 0);
    assert_eq!(status.unavailable_ids, vec!["2", "3"]);
    assert_eq!(
        decision_wallpaper(status.decision.as_ref()),
        Some(("1".into(), 0))
    );
    // The list is in order and names each entry once.
    let mut twice = daily_playlist();
    twice.entries = vec!["b".into(), "a".into(), "b".into(), "1".into()];
    assert_eq!(rig.handle.runtime.unavailable_for(&twice), ["a", "b"]);
}

#[test]
fn debug_clock_skip_preserves_remaining_time() {
    let mut rig = Rig::new(&["1", "2", "3"], None);
    rig.handle.put(daily_playlist(), accept, saved).unwrap();
    rig.activate("daily", 0);
    rig.tick(1_000, &[], idle(), |_| Ok(()));
    let before_remaining = match rig.handle.status().unwrap().decision {
        Some(PlaylistDecision::Waiting { remaining_ms, .. }) => remaining_ms,
        other => panic!("expected Waiting, got {other:?}"),
    };
    let skip = rig.handle.debug_clock_skip(60_000, 1_000).unwrap();
    assert_eq!(skip.resume_at - skip.freeze_at, 60_000);
    let (playlist, unavailable) = skip.resumed.unwrap();
    let frozen = rig.clock.snapshot(skip.freeze_at).unwrap();
    rig.clock.restore(&frozen, skip.resume_at);
    let decision = rig.clock.tick(&playlist, skip.resume_at, &unavailable);
    let after = rig.handle.clock_skipped(Some(decision));
    assert_eq!(after.clock_skipped_ms, 60_000);
    match after.decision.unwrap() {
        PlaylistDecision::Waiting { remaining_ms, .. } => {
            assert!(remaining_ms <= before_remaining);
            assert!(before_remaining - remaining_ms < 500);
        }
        other => panic!("expected Waiting, got {other:?}"),
    }
    assert_eq!(rig.handle.runtime.now_ms(1_000), 61_000);
    for ms in [0, MAX_CLOCK_SKIP_MS + 1, u64::MAX] {
        assert!(matches!(
            rig.handle.debug_clock_skip(ms, 0),
            Err(SessionError::Invalid(detail)) if detail == "clock skip is outside the safety bounds"
        ));
    }
}

#[test]
fn entry_change_applies_through_the_lane_with_the_right_params() {
    let mut rig = Rig::new(&["1", "2", "3"], Some("DP-1"));
    rig.handle.put(daily_playlist(), accept, saved).unwrap();
    rig.activate("daily", 0);
    rig.tick(50, &[], idle(), |_| Ok(()));
    assert_eq!(
        rig.calls,
        [(
            Some("DP-1".to_string()),
            "1".to_string(),
            vec!["1".to_string(), "2".to_string(), "3".to_string()]
        )]
    );
    // The old entry's renderer is the session's own; the next entry displaces
    // it once its time has come.
    rig.tick(100, &[], fabricated_status(WorkerPhase::Live, Some("1")), |_| Ok(()));
    assert_eq!(rig.calls.len(), 1);
    rig.tick(11_000, &[], fabricated_status(WorkerPhase::Live, Some("1")), |_| Ok(()));
    assert_eq!(rig.calls.len(), 2);
    assert_eq!(rig.calls[1].0.as_deref(), Some("DP-1"));
    assert_eq!(rig.calls[1].1, "2");
    assert_eq!(rig.calls[1].2, ["1", "2", "3"]);
}

#[test]
fn quarantined_entry_is_never_applied() {
    let mut rig = Rig::new(&["1", "2", "3"], None);
    rig.handle.runtime.refresh_quarantine(Ok(names(&["1"])));
    rig.handle.put(daily_playlist(), accept, saved).unwrap();
    rig.activate("daily", 0);
    for tick in 1..20 {
        rig.tick(tick * 50, &["1"], idle(), |_| Ok(()));
    }
    assert!(!rig.calls.is_empty());
    assert!(
        rig.calls.iter().all(|(_, id, _)| id == "2"),
        "quarantined entry 1 must never reach the lane: {:?}",
        rig.calls
    );
    // The last answer stands while the supervisor cannot be asked.
    rig.handle.runtime.refresh_quarantine(Err("busy".into()));
    assert_eq!(listed(&rig.handle.runtime.quarantined_ids), ["1"]);
}

fn gate_refusal() -> ApplyError {
    ApplyError::CapabilityGate {
        detail: "scene requires capabilities this build does not implement: fake.missing.capability"
            .into(),
        missing: vec!["fake.missing.capability".into()],
        inspection_reason: None,
    }
}

#[test]
fn entry_gate_refused_is_skipped_and_the_playlist_advances() {
    let mut rig = Rig::new(&["1", "2", "3"], None);
    rig.handle.put(daily_playlist(), accept, saved).unwrap();
    rig.activate("daily", 0);
    for tick in 1..20 {
        rig.tick(tick * 50, &[], idle(), |id| {
            if id == "1" {
                Err(gate_refusal())
            } else {
                Ok(())
            }
        });
    }
    assert_eq!(rig.calls[1].1, "2", "gate-refused entry 1 must be skipped");
    assert_eq!(
        rig.calls.iter().filter(|(_, id, _)| id == "1").count(),
        1,
        "gate-refused entry 1 must be attempted exactly once, never retried: {:?}",
        rig.calls
    );
    let status = rig.handle.status().unwrap();
    assert!(
        status.unavailable_ids.iter().any(|id| id == "1"),
        "a gate-refused entry must show up as unavailable: {status:?}"
    );
    assert_eq!(rig.handle.runtime.apply_failures, 0);
    // Another activation looks at it anew.
    rig.handle.activate(None, 2_000).unwrap();
    assert_eq!(rig.handle.runtime.gate_refused_ids.len(), 0);
}

#[test]
fn failing_apply_backs_off_without_storming() {
    let mut rig = Rig::new(&["1"], None);
    rig.handle.put(daily_playlist(), accept, saved).unwrap();
    rig.activate("daily", 0);
    let mut failures = 3;
    let mut now = 50;
    while now <= 3_650 {
        let fails = failures > 0;
        if rig.pending.is_some() && fails {
            failures -= 1;
        }
        rig.tick(now, &[], idle(), |_| {
            if fails {
                Err(ApplyError::Transaction("stub lane failed".into()))
            } else {
                Ok(())
            }
        });
        now += 50;
    }
    let count = rig.calls.len();
    assert!(
        (3..=4).contains(&count),
        "backoff must bound applies to 3..=4 within 3.6 s, saw {count}"
    );
    while now <= 13_000 {
        rig.tick(now, &[], idle(), |_| Ok(()));
        now += 50;
    }
    assert!(rig.calls.len() >= 4, "a retry must eventually succeed");
}

#[test]
fn busy_apply_is_a_transient_yield_that_never_arms_backoff() {
    let mut rig = Rig::new(&["1"], None);
    rig.handle.put(daily_playlist(), accept, saved).unwrap();
    rig.activate("daily", 0);
    rig.tick(50, &[], idle(), |_| Ok(()));
    assert_eq!(rig.calls.len(), 1);
    rig.tick(100, &[], idle(), |_| Err(ApplyError::Busy));
    assert_eq!(rig.calls.len(), 2, "Busy must not arm the backoff gate");
    assert_eq!(rig.handle.runtime.apply_failures, 0);
}

#[test]
fn yielded_outcome_clears_the_backoff_gate_for_prompt_reassertion() {
    let mut rig = Rig::new(&["1"], None);
    rig.handle.put(daily_playlist(), accept, saved).unwrap();
    rig.activate("daily", 0);
    let failed = |_: &str| Err(ApplyError::Transaction("stub lane failed".into()));
    rig.tick(50, &[], idle(), failed);
    rig.tick(100, &[], idle(), failed);
    assert_eq!(rig.calls.len(), 1, "the first failure closes the backoff");
    rig.tick(1_100, &[], idle(), failed);
    assert_eq!(rig.calls.len(), 2);
    rig.tick(1_150, &[], idle(), failed);
    rig.tick(3_100, &[], idle(), failed);
    assert_eq!(rig.calls.len(), 2, "the second failure waits two seconds");
    rig.tick(3_150, &[], idle(), failed);
    assert_eq!(rig.calls.len(), 3);
    rig.tick(3_200, &[], idle(), |_| {
        Err(ApplyError::Yielded("stub lane foreign renderer".into()))
    });
    assert_eq!(rig.calls.len(), 4, "a yield reopens it at once");
}

#[test]
fn yield_clears_the_apply_backoff_state() {
    let mut runtime: SessionRuntime<Snapshot> =
        SessionRuntime::new(config(&["1"], None, false), Ok(vec![]), None, NameMap::new(), 0);
    runtime.applied_wallpaper = Some("1".into());
    runtime.apply_failures = 3;
    runtime.next_apply_retry = 31_000;
    runtime.yield_to_foreign(1_000);
    assert_eq!(
        runtime.applied_wallpaper, None,
        "a yield forgets the applied identity"
    );
    assert_eq!(
        runtime.apply_failures, 0,
        "a yield clears the failure count"
    );
    assert!(
        1_000 >= runtime.next_apply_retry,
        "a yield must reopen the backoff gate for a prompt re-assert"
    );
}

#[test]
fn restart_restore_reapplies_the_entry_once() {
    let mut first = Rig::new(&["1", "2", "3"], None);
    first.handle.put(daily_playlist(), accept, saved).unwrap();
    first.activate("daily", 0);
    first.tick(50, &[], idle(), |_| Ok(()));
    assert_eq!(first.calls[0].1, "1");
    let left = first.clock.snapshot(2_000);
    let mut snapshots = NameMap::new();
    snapshots.insert("daily", left.unwrap());
    let mut second = Rig::new(&["1", "2", "3"], None);
    second.handle.runtime = SessionRuntime::new(
        config(&["1", "2", "3"], None, true),
        Ok(vec![daily_playlist()]),
        Some("daily".into()),
        snapshots,
        0,
    );
    let snapshot = second.handle.runtime.rehydration().unwrap().1.clone();
    second.clock.restore(&snapshot, 0);
    second.tick(50, &[], idle(), |_| Ok(()));
    assert_eq!(second.calls.len(), 1);
    assert_eq!(second.calls[0].1, "1", "the restored entry must be re-applied");
    let live = || fabricated_status(WorkerPhase::Live, Some("1"));
    second.tick(100, &[], live(), |_| Ok(()));
    second.tick(150, &[], live(), |_| Ok(()));
    assert_eq!(second.calls.len(), 1, "the restored session must stay on entry 1");
}

#[test]
fn user_apply_takes_precedence_and_the_playlist_reasserts_after_stop() {
    let mut rig = Rig::new(&["1", "2", "3"], None);
    rig.handle.put(daily_playlist(), accept, saved).unwrap();
    rig.activate("daily", 0);
    rig.tick(50, &[], idle(), |_| Ok(()));
    rig.tick(100, &[], fabricated_status(WorkerPhase::Live, Some("1")), |_| Ok(()));
    assert_eq!(rig.handle.runtime.applied_wallpaper.as_deref(), Some("1"));
    rig.tick(150, &[], fabricated_status(WorkerPhase::Live, Some("user")), |_| Ok(()));
    assert_eq!(rig.calls.len(), 1);
    assert_eq!(rig.handle.runtime.applied_wallpaper, None);
    rig.tick(200, &[], fabricated_status(WorkerPhase::Stopped, Some("user")), |_| Ok(()));
    assert_eq!(rig.calls.len(), 2);
    assert_eq!(rig.calls[1].1, "1");
}

#[test]
fn nothing_is_applied_while_a_request_is_under_way_or_without_an_applier() {
    let mut rig = Rig::new(&["1"], None);
    rig.handle.put(daily_playlist(), accept, saved).unwrap();
    rig.activate("daily", 0);
    rig.handle.runtime.apply_in_flight = true;
    rig.tick(50, &[], idle(), |_| Ok(()));
    assert!(rig.calls.is_empty());
    rig.handle.runtime.apply_in_flight = false;
    rig.handle.runtime.applies = false;
    rig.tick(100, &[], idle(), |_| Ok(()));
    assert!(rig.calls.is_empty());
    rig.handle.runtime.dispatched(false);
    assert!(!rig.handle.runtime.apply_in_flight);
}

#[test]
fn a_status_error_is_news_once() {
    let mut rig = Rig::new(&["1"], None);
    rig.handle.put(daily_playlist(), accept, saved).unwrap();
    rig.activate("daily", 0);
    let decision = PlaylistDecision::Waiting {
        wallpaper_id: "1".into(),
        index: 0,
        remaining_ms: 1,
    };
    let playlist = daily_playlist();
    let mut ask = |status: Option<Result<WorkerStatus, String>>| {
        rig.handle.runtime.maybe_apply(&playlist, &decision, status, 10)
    };
    assert!(matches!(ask(Some(Err("down".into()))), ApplyStep::StatusFailed { news: true }));
    assert!(matches!(ask(Some(Err("down".into()))), ApplyStep::StatusFailed { news: false }));
    assert!(matches!(ask(Some(Err("gone".into()))), ApplyStep::StatusFailed { news: true }));
    assert!(matches!(ask(Some(Ok(idle()))), ApplyStep::Dispatch(_)));
    assert!(matches!(ask(Some(Err("gone".into()))), ApplyStep::StatusFailed { news: true }));
    assert!(matches!(ask(None), ApplyStep::Nothing));
    let none = rig
        .handle
        .runtime
        .maybe_apply(&playlist, &PlaylistDecision::NoEligible, Some(Ok(idle())), 10);
    assert!(matches!(none, ApplyStep::Nothing));
}

// -- persistence ------------------------------------------------------------

#[test]
fn only_a_change_or_a_long_wait_is_owed_to_the_disk() {
    let mut rig = Rig::new(&["1"], None);
    let waiting = |remaining_ms: u64| PlaylistDecision::Waiting {
        wallpaper_id: "1".into(),
        index: 0,
        remaining_ms,
    };
    let runtime = &mut rig.handle.runtime;
    assert!(runtime.decided(&waiting(900), 100));
    assert!(runtime.owes_persist);
    runtime.owes_persist = false;
    assert!(!runtime.decided(&waiting(800), 200));
    assert!(!runtime.owes_persist);
    assert!(!runtime.decided(&waiting(700), 100 + WAITING_PERSIST_INTERVAL_MS - 1));
    assert!(!runtime.owes_persist);
    assert!(!runtime.decided(&waiting(600), 100 + WAITING_PERSIST_INTERVAL_MS));
    assert!(runtime.owes_persist);
    runtime.owes_persist = false;
    assert!(runtime.decided(&PlaylistDecision::Exhausted, 40_000));
    assert!(runtime.owes_persist);
}

#[test]
fn snapshots_are_given_up_in_order_and_the_active_one_is_kept() {
    let mut rig = Rig::new(&["1"], None);
    rig.handle.put(daily_playlist(), accept, saved).unwrap();
    rig.activate("daily", 0);
    for id in ["a", "b", "z"] {
        rig.handle.runtime.keep_snapshot(id, Some(Snapshot { index: 0, remaining_ms: 1 }));
    }
    let too_large = MAX_RUNTIME_STATE_BYTES as usize + 1;
    let written = rig.handle.runtime.persist_state(
        |_: &Option<String>, snapshots: &NameMap<Snapshot>| {
            if snapshots.len() > 2 {
                vec![0; too_large]
            } else {
                vec![0; 10]
            }
        },
        |bytes: &Vec<u8>| {
            assert_eq!(bytes.len(), 10);
            Ok(())
        },
    );
    assert!(matches!(written, Persisted::Written));
    let snapshots = &rig.handle.runtime.snapshots;
    assert!(snapshots.contains("daily") && snapshots.contains("z"));
    assert!(!snapshots.contains("a") && !snapshots.contains("b"));
    let outcome = rig.handle.runtime.persist_state(
        |_: &Option<String>, _: &NameMap<Snapshot>| vec![0; too_large],
        |_: &Vec<u8>| panic!("what is too large is not written"),
    );
    assert!(matches!(outcome, Persisted::Oversize(bytes) if bytes == too_large));
    assert!(rig.handle.runtime.snapshots.contains("daily"));
    let outcome = rig.handle.runtime.persist_state(
        |_: &Option<String>, _: &NameMap<Snapshot>| vec![],
        |_: &Vec<u8>| Err("disk full".into()),
    );
    assert!(matches!(outcome, Persisted::WriteFailed(error) if error == "disk full"));
}

#[test]
fn a_snapshot_that_cannot_be_restored_is_given_up() {
    let mut rig = Rig::new(&["1"], None);
    rig.handle.put(daily_playlist(), accept, saved).unwrap();
    rig.handle.runtime.keep_snapshot("daily", Some(Snapshot { index: 9, remaining_ms: 1 }));
    assert!(matches!(
        rig.handle.activate(Some("daily".into()), 0),
        Ok(Activation::Restore { .. })
    ));
    rig.handle.restore_failed("daily");
    let status = rig.handle.activated("daily".into(), Err("no clock".into()), None);
    assert_eq!(status.decision, Some(PlaylistDecision::NoEligible));
    assert_eq!(rig.handle.runtime.snapshots.len(), 0);
    assert!(matches!(
        rig.handle.activate(Some("daily".into()), 0),
        Ok(Activation::Unchanged(_))
    ));
}

// -- the queue --------------------------------------------------------------

#[test]
fn a_command_that_is_not_taken_is_busy() {
    type Handle = PlaylistSessionHandle<Snapshot>;
    let detail = |answer: Result<u8, SessionError>| match answer {
        Err(SessionError::Busy(detail)) => detail,
        _ => panic!("expected a busy session"),
    };
    assert_eq!(
        detail(Handle::request(Sent::Full, None)),
        "playlist command queue is full"
    );
    assert_eq!(
        detail(Handle::request(Sent::Disconnected, None)),
        "playlist session is unavailable"
    );
    assert_eq!(
        detail(Handle::request(Sent::Queued, None)),
        "playlist command timed out"
    );
    assert!(matches!(Handle::request(Sent::Queued, Some(Ok(7u8))), Ok(7)));
}

#[test]
fn availability_changes_only_when_the_queue_takes_it() {
    let mut handle = session(&["1"]);
    assert!(!handle.update_availability(Sent::Full, names(&["2"])));
    assert!(handle.runtime.valid_ids.contains("1"));
    assert!(handle.update_availability(Sent::Queued, names(&["2"])));
    assert!(!handle.runtime.valid_ids.contains("1"));
    assert!(handle.runtime.valid_ids.contains("2"));
}

#[test]
fn ticks_keep_their_pace() {
    let handle = session(&[]);
    assert_eq!(handle.runtime.tick_wait(0), 50);
    assert_eq!(handle.runtime.tick_wait(20), 30);
    assert_eq!(handle.runtime.tick_wait(51), 0);
}

#[test]
fn decisions_are_told_apart_by_state_wallpaper_and_position() {
    let started = PlaylistDecision::Started { wallpaper_id: "1".into(), index: 0, deadline_ms: 5 };
    let later = PlaylistDecision::Started { wallpaper_id: "1".into(), index: 0, deadline_ms: 9 };
    let waiting = PlaylistDecision::Waiting { wallpaper_id: "1".into(), index: 0, remaining_ms: 5 };
    assert!(same_decision(&started, &later));
    assert!(!same_decision(&started, &waiting));
    assert_eq!(decision_signature(&waiting), (1, "1".into(), 0));
    assert_eq!(decision_signature(&PlaylistDecision::NoEligible), (5, String::new(), 0));
    assert_eq!(decision_wallpaper_id(&started), Some("1"));
    assert_eq!(decision_wallpaper_id(&PlaylistDecision::Exhausted), None);
}

#[test]
fn session_errors_say_what_happened() {
    assert_eq!(SessionError::NotFound("x".into()).message(), "not found: x");
    assert_eq!(SessionError::ImportBlocked.message(), "playlist store is not empty");
    assert_eq!(SessionError::StoreUnavailable("x".into()).message(), "store: x");
    assert_eq!(SessionError::Invalid("x".into()).message(), "invalid: x");
    assert_eq!(SessionError::Busy("x".into()).message(), "session busy: x");
}

#[test]
fn playlist_entry_change_applies_through_the_real_transaction() {
    let mut rig = Rig::new(&["1", "2", "3"], None);
    rig.handle.put(daily_playlist(), accept, saved).unwrap();
    let status = rig.activate("daily", 0);
    assert_eq!(decision_wallpaper(status.decision.as_ref()), Some(("1".into(), 0)));
    let live = |id: &str| fabricated_status(WorkerPhase::Live, Some(id));
    rig.tick(50, &[], idle(), |_| Ok(()));
    rig.tick(100, &[], live("1"), |_| Ok(()));
    assert_eq!(rig.calls.len(), 1);
    rig.tick(10_850, &[], live("1"), |_| Ok(()));
    rig.tick(10_900, &[], live("2"), |_| Ok(()));
    assert_eq!(rig.calls.len(), 2);
    rig.tick(21_700, &[], live("2"), |_| Ok(()));
    rig.tick(21_750, &[], live("3"), |_| Ok(()));
    let applied: Vec<&str> = rig.calls.iter().map(|call| call.1.as_str()).collect();
    assert_eq!(applied, ["1", "2", "3"]);
    // While the entry is live nothing is applied again.
    for now in (21_800..22_500).step_by(50) {
        rig.tick(now, &[], live("3"), |_| Ok(()));
    }
    assert_eq!(rig.calls.len(), 3);
}

#[test]
fn playlist_restart_restore_reapplies_the_entry_once() {
    let mut rig = Rig::new(&["1", "2", "3"], None);
    rig.handle.put(daily_playlist(), accept, saved).unwrap();
    rig.activate("daily", 0);
    rig.tick(50, &[], idle(), |_| Ok(()));
    rig.tick(100, &[], fabricated_status(WorkerPhase::Live, Some("1")), |_| Ok(()));
    assert_eq!(rig.calls.len(), 1);
    let left = rig.clock.snapshot(100);
    rig.handle.runtime.keep_snapshot("daily", left);
    // The next instance finds the position on disk and a dead renderer.
    let mut snapshots = NameMap::new();
    snapshots.insert("daily", rig.handle.runtime.snapshots.get("daily").unwrap().clone());
    let mut next = Rig::new(&["1", "2", "3"], None);
    next.handle.runtime = SessionRuntime::new(
        config(&["1", "2", "3"], None, true),
        Ok(vec![daily_playlist()]),
        Some("daily".into()),
        snapshots,
        0,
    );
    let (_, snapshot) = next.handle.runtime.rehydration().unwrap();
    let snapshot = snapshot.clone();
    next.clock.restore(&snapshot, 0);
    next.tick(50, &[], idle(), |_| Ok(()));
    for now in (100..800).step_by(50) {
        next.tick(now, &[], fabricated_status(WorkerPhase::Live, Some("1")), |_| Ok(()));
    }
    assert_eq!(next.calls.len(), 1);
    assert_eq!(next.calls[0].1, "1");
}

fn never_saved(_: &Vec<Playlist>) -> Result<(), String> {
    panic!("saved")
}

#[test]
fn a_refused_command_saves_nothing() {
    let mut handle = session(&["1"]);
    assert!(matches!(
        handle.put(daily_playlist(), |_: &Playlist| Err("no".into()), never_saved),
        Err(SessionError::Invalid(detail)) if detail == "no"
    ));
    assert!(matches!(
        handle.remove("daily".into(), never_saved),
        Err(SessionError::NotFound(_))
    ));
    handle.put(daily_playlist(), accept, saved).unwrap();
    assert!(matches!(
        handle.import(vec![], |_: &Playlist| panic!("validated"), never_saved),
        Err(SessionError::ImportBlocked)
    ));
    let mut corrupt: PlaylistSessionHandle<Snapshot> = PlaylistSessionHandle {
        runtime: SessionRuntime::new(
            config(&[], None, true),
            Err("corrupt".into()),
            None,
            NameMap::new(),
            0,
        ),
    };
    assert!(matches!(
        corrupt.put(daily_playlist(), |_: &Playlist| panic!("validated"), never_saved),
        Err(SessionError::StoreUnavailable(_))
    ));
}

#[test]
fn closing_captures_the_active_playlist() {
    let mut rig = Rig::new(&["1", "2", "3"], None);
    assert_eq!(rig.handle.runtime.closing().map(|playlist| playlist.id), None);
    rig.handle.put(daily_playlist(), accept, saved).unwrap();
    rig.activate("daily", 0);
    rig.tick(4_000, &[], idle(), |_| Ok(()));
    let captured = rig.handle.runtime.closing().unwrap();
    assert_eq!(captured.id, "daily");
    rig.handle.runtime.keep_snapshot("daily", rig.clock.snapshot(4_000));
    let written = rig.handle.runtime.persist_state(
        |active: &Option<String>, snapshots: &NameMap<Snapshot>| {
            assert_eq!(active.as_deref(), Some("daily"));
            assert_eq!(snapshots.get("daily").unwrap().remaining_ms, 6_000);
            vec![1]
        },
        |_: &Vec<u8>| Ok(()),
    );
    assert!(matches!(written, Persisted::Written));
}

#[test]
fn identities_fit_their_bytes_whatever_the_title_holds() {
    let wide = "é".repeat(200);
    let first = derive_id(&wide, &Vec::new()).unwrap();
    assert_eq!(first, "é".repeat(62));
    let mut taken = daily_playlist();
    taken.id = first;
    let second = derive_id(&wide, &vec![taken]).unwrap();
    assert_eq!(second, format!("{}-2", "é".repeat(62)));
    // No character is cut in two: the 42nd would end past the bound.
    assert_eq!(derive_id(&"€".repeat(50), &Vec::new()).unwrap(), "€".repeat(41));
    assert_eq!(derive_id(&"L".repeat(200), &Vec::new()).unwrap(), "L".repeat(124));
}

#[test]
fn a_clock_skip_moves_nothing_but_the_clock() {
    let mut rig = Rig::new(&["1", "2", "3"], None);
    rig.handle.put(daily_playlist(), accept, saved).unwrap();
    rig.activate("daily", 0);
    let before = rig.handle.status().unwrap();
    let kept = rig.handle.runtime.snapshots.get("daily").cloned();
    let skip = rig.handle.debug_clock_skip(MAX_CLOCK_SKIP_MS, 2_000).unwrap();
    assert_eq!(skip.freeze_at, 2_000);
    assert_eq!(skip.resume_at, 2_000 + MAX_CLOCK_SKIP_MS);
    let after = rig.handle.clock_skipped(None);
    assert_eq!(after.playlist_id, before.playlist_id);
    assert_eq!(after.decision, before.decision);
    assert_eq!(after.clock_skipped_ms, MAX_CLOCK_SKIP_MS);
    assert_eq!(rig.handle.runtime.snapshots.get("daily").cloned(), kept);
    assert_eq!(rig.handle.list().unwrap().len(), 1);
}
