use std::cell::RefCell;

use kwe_daemon::apply::ApplyError;
use kwe_daemon::audio::{AudioCaptureHandle, AudioRuntime};
use kwe_daemon::grants::{Grant, GrantPatch, GrantStore};
use kwe_daemon::model::{CatalogItem, ContentSpec, ProjectKind, RendererKind, ScalingMode};
use kwe_daemon::names::NameMap;
use kwe_daemon::persist::StateFile;
use kwe_daemon::playlist::{ImportPlaylist, Playlist, PlaylistTransition};
use kwe_daemon::playlist_session::{
    PlaylistSessionConfig, PlaylistSessionHandle, Sent, SessionError, SessionRuntime,
};
use kwe_daemon::request::{
    apply_call, audio_call, classify_audio_error, compute_valid_ids, invalid_params,
    logs_audio_drop, method_named, permissions_call, playlist_call, process_request, serialized,
    supervisor_call, Answer, Call, Caller, Fault, InspectDispatch, InspectGate, Method, Params, PeerCred,
    RendererStartParams, Said, StartRequest, TestFault, TestFaultParams, NO_PROMOTED_RENDERER_DETAIL,
};
use kwe_daemon::request_line::{
    check_request_size, LineStep, RequestLine, MAX_IMPORT_REQUEST_BYTES, MAX_REQUEST_BYTES,
    REQUEST_CHUNK_BYTES,
};

// -- helpers ----------------------------------------------------------------

fn encode<T>(_: &NameMap<T>) -> Result<Vec<u8>, String> {
    Ok(vec![1])
}

fn write(_: &Vec<u8>) -> Result<(), String> {
    Ok(())
}

fn start(kind: RendererKind, content: Option<&str>) -> RendererStartParams {
    RendererStartParams {
        wallpaper_id: "x".into(),
        content_hash: "y".into(),
        width: 960,
        height: 540,
        fps: 30,
        kind,
        content: content.map(str::to_string),
        test_fault: None,
        stderr_lines: None,
        scaling: ScalingMode::Aspect,
    }
}

/// Somebody who is not the audio worker.
fn somebody() -> Caller {
    Caller { peer: PeerCred { pid: 77, uid: 1000 }, worker_pid: 0, effective_uid: 1000 }
}

fn accepted(_: &StartRequest) -> Result<(), String> {
    Ok(())
}

/// What a part that is there says to a call.
fn says<H, V>(call: &Call<H>, value: V) -> Said<V> {
    match call {
        Call::PermissionsGet { .. } | Call::PermissionsSet { .. } => {
            Said::Permissions(Some(Ok(value)))
        }
        Call::Start { .. } => Said::Supervisor(Some(Ok(value))),
        Call::Inspect { .. } => Said::Inspector(Some(value)),
        Call::Plain(method, _) => match method {
            Method::Health | Method::Catalog | Method::Rescan => Said::Daemon(value),
            Method::PlaylistList
            | Method::PlaylistPut
            | Method::PlaylistRemove
            | Method::PlaylistActivate
            | Method::PlaylistStatus
            | Method::PlaylistImport
            | Method::PlaylistDebugClockSkip => Said::Playlist(Some(Ok(value))),
            Method::AudioStatus => Said::Audio(Some(Ok(value))),
            Method::PermissionsGet | Method::PermissionsSet | Method::PermissionsList => {
                Said::Permissions(Some(Ok(value)))
            }
            Method::WallpaperOutputs
            | Method::WallpaperApply
            | Method::WallpaperRestore
            | Method::WallpaperAssignments => Said::Applier(Some(Ok(value))),
            Method::SceneInspect => Said::Inspector(Some(value)),
            _ => Said::Supervisor(Some(Ok(value))),
        },
    }
}

fn value<V>(answer: Result<Answer<V>, Fault>) -> Result<V, Fault> {
    match answer {
        Ok(Answer::Value(value)) => Ok(value),
        Ok(Answer::Dropped) => panic!("nothing is dropped here"),
        Err(fault) => Err(fault),
    }
}

/// The call that a request leads to.
fn planned(
    method: &str,
    params: Result<Params<()>, String>,
    allow_test_faults: bool,
) -> Result<Call<()>, Fault> {
    let made = RefCell::new(None);
    value(process_request(
        1,
        method,
        allow_test_faults,
        None,
        somebody(),
        move |_: Method| params,
        accepted,
        |call: Call<()>| {
            let said = says(&call, ());
            *made.borrow_mut() = Some(call);
            said
        },
    ))?;
    Ok(made.into_inner().unwrap())
}

/// What a method is answered by parts that say `said`.
fn answered<V>(method: &str, said: Said<V>) -> Result<V, Fault> {
    value(process_request(
        1,
        method,
        true,
        None,
        somebody(),
        |_: Method| Ok(Params::Held(())),
        accepted,
        |_: Call<()>| said,
    ))
}

/// The code of a request that is refused.
fn refused(method: &str, params: Result<Params<()>, String>, allow_test_faults: bool) -> String {
    planned(method, params, allow_test_faults).unwrap_err().code
}

fn permissions(wallpaper_id: &str, patch: GrantPatch) -> Result<Params<()>, String> {
    Ok(Params::Permissions { wallpaper_id: wallpaper_id.into(), patch })
}

/// Carries a permission request out on a store.
fn on_store(
    store: &mut GrantStore,
    method: &str,
    params: Result<Params<()>, String>,
) -> Result<Grant, Fault> {
    value(process_request(
        1,
        method,
        false,
        None,
        somebody(),
        move |_: Method| params,
        accepted,
        |call: Call<()>| match call {
            Call::PermissionsGet { wallpaper_id } => {
                Said::Permissions(Some(Ok(store.grant(&wallpaper_id))))
            }
            Call::PermissionsSet { wallpaper_id, patch } => {
                Said::Permissions(Some(store.set(&wallpaper_id, patch, encode, write)))
            }
            _ => panic!("no permission call"),
        },
    ))
}

fn empty_store() -> GrantStore {
    GrantStore::open(Ok(()), StateFile::Missing).unwrap().0
}

fn session() -> PlaylistSessionHandle<u8> {
    PlaylistSessionHandle {
        runtime: SessionRuntime::new(
            PlaylistSessionConfig {
                state_dir: "/state".into(),
                tick_ms: 50,
                valid_ids: NameMap::new(),
                output: None,
                applies: false,
            },
            Ok(vec![]),
            None,
            NameMap::new(),
            0,
        ),
    }
}

fn daily(duration_seconds: u32) -> Playlist {
    Playlist {
        id: "daily".into(),
        title: "Daily".into(),
        entries: vec![],
        shuffle: false,
        repeat: true,
        duration_seconds,
        transition: PlaylistTransition::HardCut,
        transition_seconds: 0,
    }
}

fn timing(playlist: &Playlist) -> Result<(), String> {
    if playlist.duration_seconds < 10 {
        Err("playlist timing is outside the safety bounds".into())
    } else {
        Ok(())
    }
}

fn saved(_: &Vec<Playlist>) -> Result<(), String> {
    Ok(())
}

/// Collects a line as the daemon does: a chunk at a time.
fn read_line(payload: &[u8]) -> Result<Vec<u8>, String> {
    let mut line = RequestLine::new();
    let mut chunks = payload.chunks(REQUEST_CHUNK_BYTES);
    loop {
        match line.poll(0, 5_000) {
            LineStep::Complete => return line.finish(false),
            LineStep::Expired => return line.finish(true),
            LineStep::Read => match chunks.next() {
                Some(chunk) => line.took(chunk)?,
                None => return line.finish(false),
            },
        }
    }
}

// -- processing -------------------------------------------------------------

#[test]
fn health_round_trip_preserves_request_id() {
    let request: serde_json::Value =
        serde_json::from_str(r#"{"version":1,"id":"test-7","method":"health"}"#).unwrap();
    let answer = process_request(
        request["version"].as_u64().unwrap() as u32,
        request["method"].as_str().unwrap(),
        false,
        None,
        somebody(),
        |_: Method| Ok(Params::Held("as parsed")),
        accepted,
        |call: Call<&str>| match call {
            Call::Plain(Method::Health, "as parsed") => Said::Daemon("ready"),
            _ => panic!("not a health call"),
        },
    );
    assert_eq!(request["id"], "test-7");
    assert_eq!(value(answer).unwrap(), "ready");
}

#[test]
fn rejects_unsupported_protocol_version() {
    let answer: Result<Answer<()>, Fault> = process_request(
        99,
        "health",
        false,
        None,
        somebody(),
        |_: Method| panic!("nothing is parsed"),
        accepted,
        |_: Call<()>| panic!("nothing is done"),
    );
    let fault = answer.unwrap_err();
    assert_eq!(fault.code, "unsupported_api_version");
    assert_eq!(fault.supported, Some(1));
}

#[test]
fn unknown_methods_are_refused() {
    let fault = planned("no.such.method", Ok(Params::Held(())), true).unwrap_err();
    assert_eq!(fault.code, "unknown_method");
    assert_eq!(fault.detail, None);
    assert_eq!(method_named("playlist.import"), Some(Method::PlaylistImport));
    assert_eq!(method_named("wallpaper.assignments"), Some(Method::WallpaperAssignments));
    assert_eq!(method_named(""), None);
}

#[test]
fn rejects_test_faults_unless_explicitly_enabled() {
    let synthetic = || {
        let mut params = start(RendererKind::Test, None);
        params.test_fault = Some(TestFaultParams { kind: "hang".into(), after: 2, mib: None });
        Ok(Params::Start(params))
    };
    assert_eq!(refused("renderer.start", synthetic(), false), "test_faults_disabled");
    match planned("renderer.start", synthetic(), true) {
        Ok(Call::Start { request, retry }) => {
            assert_eq!(request.test_fault, Some(TestFault::Hang { after: 2 }));
            assert!(!retry);
        }
        _ => panic!("a synthetic start goes through with leave"),
    }
    let mut lines = start(RendererKind::Test, None);
    lines.stderr_lines = Some(3);
    assert_eq!(refused("renderer.retry", Ok(Params::Start(lines)), false), "test_faults_disabled");
}

#[test]
fn renderer_start_rejects_the_removed_network_hook_param() {
    assert_eq!(
        refused("renderer.start", Err("unknown field `allow_network`".into()), false),
        "invalid_params"
    );
}

#[test]
fn permissions_get_returns_the_documented_defaults_without_a_record() {
    let mut store = empty_store();
    let granted = on_store(
        &mut store,
        "permissions.get",
        permissions("431960-123", GrantPatch::default()),
    )
    .unwrap();
    assert!(!granted.network);
    assert!(!granted.audio);
    assert!(granted.pointer);
}

#[test]
fn permissions_set_patches_and_round_trips_through_get_and_list() {
    let mut store = empty_store();
    let network = GrantPatch { network: Some(true), ..GrantPatch::default() };
    let audio = GrantPatch { audio: Some(true), ..GrantPatch::default() };
    let granted =
        on_store(&mut store, "permissions.set", permissions("431960-123", network)).unwrap();
    assert!(granted.network && !granted.audio && granted.pointer);
    let granted =
        on_store(&mut store, "permissions.set", permissions("431960-123", audio)).unwrap();
    assert!(granted.network && granted.audio);
    let granted = on_store(
        &mut store,
        "permissions.get",
        permissions("431960-123", GrantPatch::default()),
    )
    .unwrap();
    assert!(granted.network && granted.audio);
    assert_eq!(store.all().len(), 1);
    assert!(store.all().get("431960-123").unwrap().network);
    assert!(store.all().get("431960-123").unwrap().audio);
}

#[test]
fn permissions_reject_unknown_fields_and_invalid_wallpaper_ids() {
    let mut store = empty_store();
    let patch = GrantPatch { network: Some(true), ..GrantPatch::default() };
    for (method, params) in [
        ("permissions.set", Err("unknown field `bogus`".to_string())),
        ("permissions.set", permissions("../escape", patch)),
        ("permissions.set", Err("missing field `wallpaper_id`".to_string())),
        ("permissions.get", permissions("", GrantPatch::default())),
        ("permissions.get", permissions("../escape", GrantPatch::default())),
        ("permissions.get", Err("unknown field `bogus`".to_string())),
    ] {
        let fault = on_store(&mut store, method, params).unwrap_err();
        assert_eq!(fault.code, "invalid_params");
    }
    assert_eq!(store.all().len(), 0);
    let fault = planned("permissions.get", permissions("", patch), false).unwrap_err();
    assert_eq!(
        fault.detail.as_deref(),
        Some("wallpaper_id must be 1..=128 ASCII letters, digits, '.', '_', or '-'")
    );
}

#[test]
fn permissions_are_bounded_to_256_records() {
    let mut store = empty_store();
    let patch = GrantPatch::default();
    for index in 0..256 {
        let id = format!("wallpaper-{index:03}");
        on_store(&mut store, "permissions.set", permissions(&id, patch)).unwrap();
    }
    let fault =
        on_store(&mut store, "permissions.set", permissions("wallpaper-256", patch)).unwrap_err();
    assert_eq!(fault.code, "permissions_failed");
    assert!(fault.detail.unwrap().contains("safety limit"));
    assert_eq!(store.all().len(), 256);
}

#[test]
fn scene_inspect_rejects_relative_and_empty_paths() {
    for params in [
        Ok(Params::Inspect { path: "".into() }),
        Ok(Params::Inspect { path: "relative/scene.json".into() }),
        Err("unknown field `bogus`".to_string()),
    ] {
        assert_eq!(refused("scene.inspect", params, false), "invalid_params");
    }
    match planned("scene.inspect", Ok(Params::Inspect { path: "/w/scene.json".into() }), false) {
        Ok(Call::Inspect { path }) => assert_eq!(path, "/w/scene.json"),
        _ => panic!("an absolute path is inspected"),
    }
}

#[test]
fn concurrent_scene_inspect_calls_serialize_through_the_single_inspection_gate() {
    let mut gate = InspectGate { in_flight: false };
    let ask = |gate: &mut InspectGate| gate.dispatch(Ok("/nonexistent/scene.json".into()));
    assert!(matches!(ask(&mut gate), InspectDispatch::Run { .. }));
    assert!(matches!(ask(&mut gate), InspectDispatch::Busy));
    gate.leave();
    assert!(matches!(ask(&mut gate), InspectDispatch::Run { .. }));
    // What is refused does not wait for anything.
    assert!(matches!(
        gate.dispatch(Ok("relative".into())),
        InspectDispatch::Refused(fault) if fault.code == "invalid_params"
    ));
    assert!(matches!(
        gate.dispatch(Err("missing field `path`".into())),
        InspectDispatch::Refused(fault) if fault.detail.as_deref() == Some("missing field `path`")
    ));
    assert!(gate.in_flight);
}

// -- playlists --------------------------------------------------------------

#[test]
fn playlist_put_list_and_status_round_trip() {
    let mut handle = session();
    let put = playlist_call(Some(handle.put(daily(300), timing, saved))).unwrap();
    assert_eq!(put.id, "daily");
    let listed = playlist_call(Some(handle.list())).unwrap();
    assert_eq!(listed.len(), 1);
    let status = playlist_call(Some(handle.status())).unwrap();
    assert_eq!(status.definitions.count, 1);
    assert_eq!(status.definitions.store_health, "ok");
    assert!(!status.active);
}

#[test]
fn playlist_put_rejects_unknown_params_and_invalid_playlists() {
    assert_eq!(
        refused("playlist.put", Err("unknown field `bogus`".into()), true),
        "invalid_params"
    );
    assert_eq!(
        refused("playlist.put", Err("unknown field `entrirs`".into()), true),
        "invalid_params"
    );
    let mut handle = session();
    let fault = playlist_call(Some(handle.put(daily(5), timing, saved))).unwrap_err();
    assert_eq!(fault.code, "invalid_playlist");
}

#[test]
fn playlist_activate_rejects_unknown_playlist() {
    let mut handle = session();
    let fault = match playlist_call(Some(handle.activate(Some("nope".into()), 0))) {
        Err(fault) => fault,
        Ok(_) => panic!("there is no such playlist"),
    };
    assert_eq!(fault.code, "playlist_not_found");
    assert_eq!(fault.detail.as_deref(), Some("not found: nope"));
}

#[test]
fn playlist_import_blocked_when_store_non_empty() {
    let mut handle = session();
    handle.put(daily(300), timing, saved).unwrap();
    let legacy = ImportPlaylist {
        title: "Legacy".into(),
        entries: vec![],
        shuffle: false,
        repeat: true,
        duration_seconds: 300,
        transition: "none".into(),
        transition_seconds: 0,
    };
    let fault = playlist_call(Some(handle.import(vec![legacy], timing, saved))).unwrap_err();
    assert_eq!(fault.code, "playlist_import_blocked");
}

#[test]
fn playlist_debug_clock_skip_rejected_without_test_faults() {
    let fault = planned("playlist.debug-clock-skip", Ok(Params::Held(())), false).unwrap_err();
    assert_eq!(fault.code, "test_faults_disabled");
    assert_eq!(fault.detail, None);
    assert!(matches!(
        planned("playlist.debug-clock-skip", Ok(Params::Held(())), true),
        Ok(Call::Plain(Method::PlaylistDebugClockSkip, ()))
    ));
}

#[test]
fn playlist_methods_fail_closed_without_session() {
    let answer: Result<u8, Fault> = playlist_call(None);
    assert_eq!(answer.unwrap_err().code, "playlist_unavailable");
}

#[test]
fn every_session_error_has_its_code() {
    let code = |error: SessionError| playlist_call::<u8>(Some(Err(error))).unwrap_err().code;
    assert_eq!(code(SessionError::NotFound("x".into())), "playlist_not_found");
    assert_eq!(code(SessionError::ImportBlocked), "playlist_import_blocked");
    assert_eq!(
        code(SessionError::StoreUnavailable("x".into())),
        "playlist_store_unavailable"
    );
    assert_eq!(code(SessionError::Invalid("x".into())), "invalid_playlist");
    assert_eq!(code(SessionError::Busy("x".into())), "playlist_busy");
}

// -- the parts --------------------------------------------------------------

#[test]
fn wallpaper_methods_fail_closed_without_an_apply_handle() {
    for method in [
        "wallpaper.outputs",
        "wallpaper.apply",
        "wallpaper.restore",
        "wallpaper.assignments",
    ] {
        let answer: Result<u8, Fault> = answered(method, Said::Applier(None));
        assert_eq!(answer.unwrap_err().code, "apply_unavailable");
    }
}

#[test]
fn an_apply_refusal_carries_what_is_missing() {
    let refusal = ApplyError::CapabilityGate {
        detail: "no".into(),
        missing: vec!["a".into(), "b".into()],
        inspection_reason: Some("because".into()),
    };
    let fault = apply_call::<u8>(Some(Err(refusal))).unwrap_err();
    assert_eq!(fault.code, "apply_incompatible");
    assert_eq!(fault.detail.as_deref(), Some("no"));
    let said = fault.refusal.unwrap();
    assert_eq!(said.missing, ["a", "b"]);
    assert_eq!(said.inspection_reason.as_deref(), Some("because"));
    let fault = apply_call::<u8>(Some(Err(ApplyError::Busy))).unwrap_err();
    assert_eq!(fault.code, "apply_busy");
    assert_eq!(fault.detail, None);
    assert!(fault.refusal.is_none());
    assert_eq!(apply_call(Some(Ok(7u8))).unwrap(), 7);
}

#[test]
fn a_stale_daemon_refuses_to_apply_and_nothing_else() {
    let stale = || Some(("service_stale".to_string(), "restart it".to_string()));
    let ask = |method: &str| -> Result<u8, Fault> {
        value(process_request(
            1,
            method,
            false,
            stale(),
            somebody(),
            |_: Method| Ok(Params::Held(())),
            accepted,
            |_: Call<()>| Said::Applier(Some(Ok(1))),
        ))
    };
    let fault = ask("wallpaper.apply").unwrap_err();
    assert_eq!(fault.code, "service_stale");
    assert_eq!(fault.detail.as_deref(), Some("restart it"));
    assert_eq!(ask("wallpaper.restore").unwrap(), 1);
}

#[test]
fn a_part_answers_under_its_own_code() {
    let failed = || Some(Err::<u8, String>("broken".into()));
    assert_eq!(audio_call(failed()).unwrap_err().code, "audio_failed");
    assert_eq!(audio_call::<u8>(None).unwrap_err().code, "audio_unavailable");
    assert_eq!(permissions_call::<u8>(None).unwrap_err().code, "permissions_unavailable");
    assert_eq!(supervisor_call(failed()).unwrap_err().code, "supervisor_failed");
    assert_eq!(supervisor_call::<u8>(None).unwrap_err().code, "supervisor_unavailable");
    assert_eq!(
        supervisor_call(failed()).unwrap_err().detail.as_deref(),
        Some("broken")
    );
    assert_eq!(supervisor_call(Some(Ok(3u8))).unwrap(), 3);
    assert_eq!(
        serialized::<u8>(Err("not a map".into())).unwrap_err().code,
        "serialization_failed"
    );
}

#[test]
fn renderer_start_rejects_unknown_kind_and_kind_content_mismatches() {
    assert_eq!(
        refused("renderer.start", Err("unknown variant `bogus`".into()), true),
        "invalid_params"
    );
    let fault = planned(
        "renderer.start",
        Ok(Params::Start(start(RendererKind::Video, None))),
        true,
    )
    .unwrap_err();
    assert_eq!(fault.code, "invalid_params");
    assert_eq!(
        fault.detail.as_deref(),
        Some("renderer kind video requires a content path (test takes none)")
    );
    assert_eq!(
        refused(
            "renderer.start",
            Ok(Params::Start(start(RendererKind::Test, Some("/tmp/kwe-any.mp4")))),
            true,
        ),
        "invalid_params"
    );
    // Content that fails its preflight is refused by whoever looks at it.
    for (kind, content) in [
        (RendererKind::Video, "/nonexistent/kwe-m1a-video.mp4"),
        (RendererKind::Web, "/nonexistent/kwe-m1a-web"),
    ] {
        let params: Result<Params<()>, String> = Ok(Params::Start(start(kind, Some(content))));
        let answer: Result<Answer<u8>, Fault> = process_request(
            1,
            "renderer.start",
            true,
            None,
            somebody(),
            move |_: Method| params,
            |_: &StartRequest| Err("content is not there".to_string()),
            |_: Call<()>| panic!("nothing is started"),
        );
        assert_eq!(answer.unwrap_err().code, "invalid_params");
    }
}

#[test]
fn a_start_maps_its_fields() {
    let mut params = start(RendererKind::Web, Some("/w/3"));
    params.stderr_lines = Some(9);
    params.scaling = ScalingMode::Fill;
    let request = StartRequest::try_from(params).unwrap();
    assert_eq!(request.spec.wallpaper_id, "x");
    assert_eq!(request.spec.content_hash, "y");
    assert_eq!(request.spec.content, Some(ContentSpec::Web { root: "/w/3".into() }));
    assert_eq!(request.spec.scaling, ScalingMode::Fill);
    assert_eq!(request.stderr_lines, Some(9));
    assert_eq!(request.test_fault, None);
    assert!(request.spec.capability_limitations.is_empty());
    match planned("renderer.retry", Ok(Params::Start(start(RendererKind::Test, None))), false) {
        Ok(Call::Start { retry, .. }) => assert!(retry),
        _ => panic!("a retry is a start"),
    }
}

#[test]
fn faults_are_asked_for_by_name() {
    let ask = |kind: &str, mib: Option<u64>| {
        let mut params = start(RendererKind::Test, None);
        params.test_fault = Some(TestFaultParams { kind: kind.into(), after: 4, mib });
        StartRequest::try_from(params).map(|request| request.test_fault.unwrap())
    };
    assert_eq!(ask("startup_hang", None), Ok(TestFault::StartupHang));
    assert_eq!(ask("corrupt", None), Ok(TestFault::Corrupt { after: 4 }));
    assert_eq!(ask("exit", None), Ok(TestFault::Exit { after: 4 }));
    assert_eq!(ask("ignore_term_hang", None), Ok(TestFault::IgnoreTermHang { after: 4 }));
    assert_eq!(
        ask("memory_pressure", Some(8)),
        Ok(TestFault::MemoryPressure { after: 4, mib: 8 })
    );
    assert_eq!(ask("memory_pressure", None), Err("memory_pressure requires mib".into()));
    assert_eq!(ask("bogus", None), Err("unknown synthetic fault kind".into()));
}

#[test]
fn audio_and_media_rpc_validate_via_the_protocol_types() {
    // What the protocol's types refuse never gets to the supervisor.
    assert_eq!(
        refused("audio.forward", Err("expected 16, 32, or 64 bands".into()), true),
        "invalid_params"
    );
    assert_eq!(
        refused("media.state", Err("timeline is out of range".into()), true),
        "invalid_params"
    );
    for method in ["audio.forward", "media.state"] {
        let answer: Result<u8, Fault> = answered(method, Said::Supervisor(None));
        assert_eq!(answer.unwrap_err().code, "supervisor_unavailable");
    }
}

fn supervisor_failure(detail: &str) -> Fault {
    supervisor_call::<u8>(Some(Err(detail.into()))).unwrap_err()
}

#[test]
fn only_the_daemons_own_worker_no_renderer_rejection_is_dropped_silently() {
    let user = 1000;
    let no_renderer =
        supervisor_failure("no promoted renderer is available for audio forwarding");
    let own_worker = PeerCred { pid: 4321, uid: user };
    assert!(classify_audio_error(own_worker, 4321, user, &no_renderer));
    let stale = supervisor_failure("audio frame display generation is stale or invalid");
    assert!(!classify_audio_error(own_worker, 4321, user, &stale));
    let recycled_pid_other_user = PeerCred { pid: 4321, uid: user + 1 };
    assert!(!classify_audio_error(recycled_pid_other_user, 4321, user, &no_renderer));
    let other_pid = PeerCred { pid: 9999, uid: user };
    assert!(!classify_audio_error(other_pid, 4321, user, &no_renderer));
    assert!(!classify_audio_error(PeerCred::default(), 4321, user, &no_renderer));
    assert!(!classify_audio_error(own_worker, 0, user, &no_renderer));
    assert!(!classify_audio_error(own_worker, 4321, user, &invalid_params("x".into())));
    assert_eq!(
        NO_PROMOTED_RENDERER_DETAIL,
        "no promoted renderer is available for audio forwarding"
    );
}

#[test]
fn a_dropped_frame_is_no_failure_for_the_worker_alone() {
    let forward = |method: &str, worker_pid: u32| {
        let caller = Caller {
            peer: PeerCred { pid: 4321, uid: 1000 },
            worker_pid,
            effective_uid: 1000,
        };
        process_request(
            1,
            method,
            false,
            None,
            caller,
            |_: Method| Ok(Params::Held(())),
            accepted,
            |_: Call<()>| -> Said<u8> {
                Said::Supervisor(Some(Err(NO_PROMOTED_RENDERER_DETAIL.to_string())))
            },
        )
    };
    assert!(matches!(forward("audio.forward", 4321), Ok(Answer::Dropped)));
    assert_eq!(forward("audio.forward", 9).unwrap_err().code, "supervisor_failed");
    assert_eq!(forward("media.state", 4321).unwrap_err().code, "supervisor_failed");
}

#[test]
fn a_part_that_is_not_there_has_its_own_code() {
    assert_eq!(answered::<u8>("playlist.list", Said::Playlist(None)).unwrap_err().code, "playlist_unavailable");
    assert_eq!(answered::<u8>("audio.status", Said::Audio(None)).unwrap_err().code, "audio_unavailable");
    assert_eq!(
        answered::<u8>("permissions.list", Said::Permissions(None)).unwrap_err().code,
        "permissions_unavailable"
    );
    let params: Result<Params<()>, String> = Ok(Params::Inspect { path: "/w".into() });
    let fault = process_request(
        1,
        "scene.inspect",
        false,
        None,
        somebody(),
        move |_: Method| params,
        accepted,
        |_: Call<()>| Said::<u8>::Inspector(None),
    )
    .unwrap_err();
    assert_eq!(fault.code, "inspect_unavailable");
    assert_eq!(answered("health", Said::Daemon(4)).unwrap(), 4);
    let gone = SessionError::NotFound("daily".into());
    let fault = answered::<u8>("playlist.activate", Said::Playlist(Some(Err(gone)))).unwrap_err();
    assert_eq!(fault.code, "playlist_not_found");
}

#[test]
fn drops_are_logged_now_and_then() {
    let logged: Vec<u64> = (0..3001).filter(|drops| logs_audio_drop(*drops)).collect();
    assert_eq!(logged, [0, 1, 2, 3, 4, 1000, 2000, 3000]);
}

#[test]
fn audio_status_reports_the_capture_service_state_and_fails_closed() {
    let handle = AudioCaptureHandle { runtime: AudioRuntime::new(false) };
    let status = audio_call(Some(handle.status(Sent::Queued, true))).unwrap();
    assert!(!status.enabled);
    assert_eq!(status.pid, None);
    assert_eq!(status.restarts, 0);
    assert_eq!(status.disabled_reason, None);
    assert_eq!(audio_call::<u8>(None).unwrap_err().code, "audio_unavailable");
    let fault = audio_call(Some(handle.status(Sent::Full, false))).unwrap_err();
    assert_eq!(fault.detail.as_deref(), Some("audio capture command queue is full"));
}

// -- the line ---------------------------------------------------------------

#[test]
fn oversized_non_import_request_is_rejected_early() {
    let mut payload = Vec::with_capacity(MAX_REQUEST_BYTES + 2048);
    payload.extend_from_slice(b"{\"version\":1,\"id\":\"big\",\"method\":\"health\",\"pad\":\"");
    payload.resize(MAX_REQUEST_BYTES + 1024, b'a');
    payload.extend_from_slice(b"\"}\n");
    let error = read_line(&payload).unwrap_err();
    assert!(
        error.contains(&format!("{MAX_REQUEST_BYTES}")),
        "unexpected error: {error}"
    );
}

#[test]
fn import_marker_allows_requests_beyond_the_normal_cap() {
    let mut payload = Vec::with_capacity(MAX_REQUEST_BYTES + 2048);
    payload.extend_from_slice(
        b"{\"version\":1,\"id\":\"i\",\"method\":\"playlist.import\",\"pad\":\"",
    );
    payload.resize(MAX_REQUEST_BYTES + 1024, b'a');
    payload.extend_from_slice(b"\"}\n");
    let line = read_line(&payload).unwrap();
    assert_eq!(line.len(), payload.len());
}

#[test]
fn import_marker_spanning_a_chunk_boundary_is_detected() {
    let mut payload = vec![b'x'; 8190];
    payload.extend_from_slice(b"playlist.import");
    payload.resize(MAX_REQUEST_BYTES + 1024, b'y');
    payload.push(b'\n');
    let line = read_line(&payload).unwrap();
    assert_eq!(line.len(), payload.len());
}

#[test]
fn import_requests_are_capped_at_the_import_limit() {
    let mut payload = Vec::with_capacity(MAX_IMPORT_REQUEST_BYTES + 2048);
    payload.extend_from_slice(b"{\"method\":\"playlist.import\",\"pad\":\"");
    payload.resize(MAX_IMPORT_REQUEST_BYTES + 1024, b'a');
    payload.extend_from_slice(b"\"}\n");
    let error = read_line(&payload).unwrap_err();
    assert!(
        error.contains(&format!("{MAX_IMPORT_REQUEST_BYTES}")),
        "unexpected error: {error}"
    );
}

#[test]
fn request_without_trailing_newline_is_rejected() {
    let error = read_line(br#"{"version":1,"id":"x","method":"health"}"#).unwrap_err();
    assert!(
        error.contains("without a newline"),
        "unexpected error: {error}"
    );
}

#[test]
fn a_peer_that_trickles_is_given_up() {
    let mut line = RequestLine::new();
    line.took(b"{").unwrap();
    assert_eq!(line.poll(4_999, 5_000), LineStep::Read);
    assert_eq!(line.poll(5_000, 5_000), LineStep::Expired);
    assert_eq!(line.finish(true).unwrap_err(), "request deadline exceeded");
    let mut whole = RequestLine::new();
    whole.took(b"{}\n").unwrap();
    assert_eq!(whole.poll(9_000, 5_000), LineStep::Complete);
    assert_eq!(whole.finish(false).unwrap(), b"{}\n");
}

#[test]
fn a_long_request_has_to_be_an_import_by_its_method() {
    assert!(check_request_size(MAX_REQUEST_BYTES, "health").is_ok());
    assert!(check_request_size(MAX_REQUEST_BYTES + 1, "playlist.import").is_ok());
    assert_eq!(
        check_request_size(MAX_REQUEST_BYTES + 1, "health").unwrap_err(),
        "request exceeded 65536 bytes"
    );
}

// -- the catalog ------------------------------------------------------------

#[test]
fn only_installed_and_valid_projects_are_available() {
    let item = |id: &str, state: &str, kind: ProjectKind| CatalogItem {
        workshop_id: id.into(),
        kind,
        content_root: "/w".into(),
        entry_file: None,
        metadata_hash: None,
        workshop_state: state.into(),
    };
    let ids = compute_valid_ids(&vec![
        item("3", "subscribed_installed", ProjectKind::Scene),
        item("1", "local", ProjectKind::Video),
        item("2", "local", ProjectKind::Invalid),
        item("4", "subscribed_missing", ProjectKind::Web),
        item("5", "downloading", ProjectKind::Web),
        item("6", "local", ProjectKind::Unknown),
        item("1", "local", ProjectKind::Video),
    ]);
    let listed: Vec<&String> = (0..ids.len()).map(|i| ids.name_at(i)).collect();
    assert_eq!(listed, ["1", "3", "6"]);
}

/// A request that goes no further than its refusal.
fn goes_no_further(version: u32, method: &str, stale: Option<(String, String)>) -> Fault {
    let answer: Result<Answer<()>, Fault> = process_request(
        version,
        method,
        false,
        stale,
        somebody(),
        |_: Method| -> Result<Params<()>, String> { panic!("read") },
        |_: &StartRequest| panic!("looked at"),
        |_: Call<()>| panic!("executed"),
    );
    answer.unwrap_err()
}

#[test]
fn a_refused_request_goes_no_further() {
    assert_eq!(goes_no_further(2, "health", None).code, "unsupported_api_version");
    assert_eq!(goes_no_further(1, "no.such", None).code, "unknown_method");
    assert_eq!(goes_no_further(1, "playlist.debug-clock-skip", None).code, "test_faults_disabled");
    let stale = Some(("daemon_stale".to_string(), "replaced".to_string()));
    assert_eq!(goes_no_further(1, "wallpaper.apply", stale).code, "daemon_stale");
}

#[test]
fn a_start_that_is_not_let_through_is_not_made() {
    let refused: Result<Answer<()>, Fault> = process_request(
        1,
        "renderer.start",
        false,
        None,
        somebody(),
        |_: Method| Ok(Params::<()>::Start(start(RendererKind::Video, Some("/v.mp4")))),
        |_: &StartRequest| Err("gone".into()),
        |_: Call<()>| panic!("executed"),
    );
    assert_eq!(refused.unwrap_err().detail.as_deref(), Some("gone"));
    let mut synthetic = start(RendererKind::Test, None);
    synthetic.stderr_lines = Some(3);
    let refused: Result<Answer<()>, Fault> = process_request(
        1,
        "renderer.start",
        false,
        None,
        somebody(),
        move |_: Method| Ok(Params::<()>::Start(synthetic)),
        |_: &StartRequest| panic!("looked at"),
        |_: Call<()>| panic!("executed"),
    );
    assert_eq!(refused.unwrap_err().code, "test_faults_disabled");
}
