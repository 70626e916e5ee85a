use kwe_daemon::audio::{
    asked_to_stop, begin_stop, exit_detail, prune_restart_window, stop_polled, worker_arguments,
    AudioCaptureConfig, AudioCaptureHandle, AudioRuntime, StopStage, MAX_RESTARTS,
    RESTART_DELAY_MS, RESTART_WINDOW_MS,
};
use kwe_daemon::model::RendererKind;
use kwe_daemon::playlist_session::Sent;
use kwe_daemon::selfcheck::{
    init, is_stale, stale_detail, stale_error, Installed, InstalledBinary,
};
use kwe_daemon::settings::{
    choose_assets_dir, claim_socket, default_audio_worker_path, default_fps, default_height,
    default_inspector_path, default_kind, default_renderer_path, default_socket_path,
    default_state_dir, default_width, resource_limits_for_kinds, validate_socket_parent,
    RendererResourceLimits, RendererSettings, SocketPlace,
};

// -- audio ------------------------------------------------------------------

#[test]
fn restart_window_prunes_old_entries() {
    let now = 10_000_000;
    let mut history = vec![now - RESTART_WINDOW_MS - 1, now - RESTART_WINDOW_MS + 1, now];
    prune_restart_window(&mut history, now, RESTART_WINDOW_MS);
    assert_eq!(history.len(), 2);
}

#[test]
fn nothing_is_out_of_a_window_that_has_not_passed() {
    let mut history = vec![0, 10, 200];
    prune_restart_window(&mut history, 300, RESTART_WINDOW_MS);
    assert_eq!(history, [0, 10, 200]);
    // The edge of the window still counts.
    let mut history = vec![5];
    prune_restart_window(&mut history, 5 + RESTART_WINDOW_MS, RESTART_WINDOW_MS);
    assert_eq!(history, [5]);
    prune_restart_window(&mut history, 6 + RESTART_WINDOW_MS, RESTART_WINDOW_MS);
    assert!(history.is_empty());
}

#[test]
fn budget_disables_after_three_restarts_within_the_window() {
    let mut runtime = AudioRuntime::new(true);
    let mut now = 1_000;
    let mut restarts = 0;
    runtime.spawned(77);
    while runtime.worker_down(now) {
        restarts += 1;
        now += RESTART_DELAY_MS;
        runtime.spawned(77 + restarts);
    }
    let handle = AudioCaptureHandle { runtime };
    let status = handle.status(Sent::Queued, true).unwrap();
    assert_eq!(status.disabled_reason.as_deref(), Some("too_many_restarts"));
    assert_eq!(status.restarts, MAX_RESTARTS as u64);
    assert_eq!(status.pid, None);
    // Disabled is for good.
    let mut runtime = handle.runtime;
    assert!(!runtime.worker_down(now + 10 * RESTART_WINDOW_MS));
}

#[test]
fn restarts_that_lie_far_apart_never_disable() {
    let mut runtime = AudioRuntime::new(true);
    for round in 0..20 {
        assert!(runtime.worker_down(round * (RESTART_WINDOW_MS / 2)));
    }
    assert_eq!(runtime.status().restarts, 20);
}

#[test]
fn disabled_service_reports_enabled_false_without_pid() {
    let handle = AudioCaptureHandle { runtime: AudioRuntime::new(false) };
    let status = handle.status(Sent::Queued, true).unwrap();
    assert!(!status.enabled);
    assert_eq!(status.pid, None);
    assert_eq!(status.restarts, 0);
    assert_eq!(status.disabled_reason, None);
    assert_eq!(
        handle.status(Sent::Disconnected, false).unwrap_err(),
        "audio capture is unavailable"
    );
    assert_eq!(
        handle.status(Sent::Queued, false).unwrap_err(),
        "audio capture command timed out"
    );
}

#[test]
fn exit_detail_names_code_and_signal() {
    assert_eq!(exit_detail(Some(1), None), "exit_code_1");
    assert_eq!(exit_detail(Some(-2147483648), None), "exit_code_-2147483648");
    assert_eq!(exit_detail(None, Some(9)), "signal_9");
    assert_eq!(exit_detail(None, None), "unknown_exit");
}

#[test]
fn shutdown_terminates_the_worker_and_reaps_it() {
    assert_eq!(begin_stop(true), StopStage::Gone);
    assert_eq!(begin_stop(false), StopStage::Terminate);
    let deadline = match asked_to_stop(500) {
        StopStage::Grace { deadline } => deadline,
        other => panic!("expected a grace period, got {other:?}"),
    };
    assert_eq!(deadline, 1_500);
    assert_eq!(stop_polled(deadline, false, 1_000), StopStage::Grace { deadline });
    assert_eq!(stop_polled(deadline, true, 1_000), StopStage::Gone);
    assert_eq!(stop_polled(deadline, false, 1_500), StopStage::Kill);
}

#[test]
fn the_worker_is_told_the_socket_and_its_node() {
    let mut config = AudioCaptureConfig {
        enabled: true,
        worker_path: "/usr/bin/kwe-audio-worker".into(),
        socket: "/run/kwe.sock".into(),
        capture_node: None,
    };
    assert_eq!(worker_arguments(&config), ["--socket", "/run/kwe.sock"]);
    config.capture_node = Some("sink".into());
    assert_eq!(
        worker_arguments(&config),
        ["--socket", "/run/kwe.sock", "--capture-node", "sink"]
    );
}

// -- the installed binary ---------------------------------------------------

const DAEMON: &str = "/usr/bin/kwe-daemon";

fn installed(file: (u64, u64)) -> InstalledBinary {
    InstalledBinary::for_path(DAEMON, |path: &str| {
        assert_eq!(path, DAEMON);
        Some(file)
    })
    .unwrap()
}

#[test]
fn unchanged_file_is_not_stale() {
    let binary = installed((8, 100));
    assert!(!binary.is_stale(Some((8, 100))));
}

#[test]
fn replaced_or_removed_file_is_stale() {
    let binary = installed((8, 100));
    assert!(binary.is_stale(Some((8, 101))));
    assert!(binary.is_stale(Some((9, 100))));
    assert!(binary.is_stale(None));
}

#[test]
fn deleted_suffix_is_stripped_before_stat() {
    let binary = InstalledBinary::for_path("/usr/bin/kwe-daemon (deleted)", |path: &str| {
        if path == DAEMON {
            Some((8, 100))
        } else {
            None
        }
    })
    .unwrap();
    assert_eq!(binary.path(), DAEMON);
    assert!(!binary.is_stale(Some((8, 100))));
    assert!(InstalledBinary::for_path(DAEMON, |_: &str| None).is_none());
}

#[test]
fn capture_sees_the_running_test_binary() {
    let binary = installed((8, 100));
    assert!(!binary.is_stale(Some((8, 100))));
    assert!(stale_detail(&binary).contains("systemctl --user daemon-reload"));
    assert!(stale_detail(&binary).starts_with("the wallpaper service binary /usr/bin/kwe-daemon was"));
}

#[test]
fn the_first_look_counts() {
    let mut known = Installed { captured: None };
    assert!(!is_stale(&known, None));
    assert!(stale_error(&known, None).is_none());
    init(&mut known, Some(installed((8, 100))));
    init(&mut known, Some(installed((8, 200))));
    assert!(!is_stale(&known, Some((8, 100))));
    assert!(stale_error(&known, Some((8, 100))).is_none());
    assert!(is_stale(&known, Some((8, 200))));
    let (code, detail) = stale_error(&known, Some((8, 200))).unwrap();
    assert_eq!(code, "service_stale");
    assert!(detail.contains("systemctl --user restart kwe-daemon"));
    let mut blind = Installed { captured: None };
    init(&mut blind, None);
    init(&mut blind, Some(installed((8, 100))));
    assert!(!is_stale(&blind, None));
}

// -- settings ---------------------------------------------------------------

fn sample_limits(processes: u64) -> RendererResourceLimits {
    RendererResourceLimits {
        address_space_mib: 4096,
        file_size_mib: 160,
        open_files: 256,
        processes,
        core_dump_bytes: 0,
    }
}

#[test]
fn video_nproc_default_sits_above_the_desktop_thread_ceiling() {
    let arguments = RendererSettings::default();
    assert_eq!(arguments.renderer_processes, 1024);
    assert_eq!(arguments.renderer_video_processes, 32768);
    assert_eq!(arguments.renderer_web_processes, 32768);
    assert_eq!(arguments.renderer_scene_processes, 32768);
    assert_eq!(arguments.renderer_scene_startup_timeout_ms, 6000);
    assert_eq!(arguments.renderer_web_address_space_mib, 131072);
    assert_eq!(arguments.renderer_web_heartbeat_ms, 5000);
    assert_eq!(arguments.renderer_web_heartbeat_max_failures, 3);
}

#[test]
fn per_kind_process_ceiling_applies_to_video_web_and_scene() {
    let global = sample_limits(1024);
    let video = sample_limits(32768);
    let web = RendererResourceLimits {
        address_space_mib: 131_072,
        open_files: 1024,
        processes: 32768,
        ..global
    };
    let scene = sample_limits(32768);
    let map = resource_limits_for_kinds(global, video, web, scene);
    assert_eq!(map.of(RendererKind::Video).processes, 32768);
    assert_eq!(map.of(RendererKind::Web).processes, 32768);
    assert_eq!(map.of(RendererKind::Test).processes, 1024);
    assert_eq!(map.of(RendererKind::Web).address_space_mib, 131_072);
    assert_eq!(map.of(RendererKind::Web).open_files, 1024);
    let overridden = sample_limits(4096);
    let web_overridden = RendererResourceLimits {
        processes: 8192,
        ..web
    };
    let scene_overridden = RendererResourceLimits {
        processes: 16384,
        ..scene
    };
    let map = resource_limits_for_kinds(global, overridden, web_overridden, scene_overridden);
    assert_eq!(map.of(RendererKind::Video).processes, 4096);
    assert_eq!(map.of(RendererKind::Web).processes, 8192);
    assert_eq!(map.of(RendererKind::Test).processes, 1024);
    assert_eq!(map.of(RendererKind::Scene).processes, 16384);
}

#[test]
fn settings_become_limits_and_timeouts() {
    let mut settings = RendererSettings::default();
    assert!(settings.is_within_bounds());
    let limits = settings.resource_limits();
    assert_eq!(limits.of(RendererKind::Test), sample_limits(1024));
    assert_eq!(limits.of(RendererKind::Video), sample_limits(32768));
    assert_eq!(limits.of(RendererKind::Scene), sample_limits(32768));
    assert_eq!(limits.of(RendererKind::Web).address_space_mib, 131_072);
    assert_eq!(limits.of(RendererKind::Web).open_files, 1024);
    let timeouts = settings.startup_timeouts();
    assert_eq!(timeouts.of(RendererKind::Test), 3000);
    assert_eq!(timeouts.of(RendererKind::Video), 6000);
    assert_eq!(timeouts.of(RendererKind::Web), 10000);
    assert_eq!(timeouts.of(RendererKind::Scene), 6000);
    settings.renderer_max_failures = 11;
    assert!(!settings.is_within_bounds());
    assert_eq!((default_width(), default_height(), default_fps()), (960, 540, 30));
    assert_eq!(default_kind(), RendererKind::Test);
}

#[test]
fn places_are_found_from_the_environment() {
    assert_eq!(
        default_socket_path(Some("/run/user/1000".into())).unwrap(),
        "/run/user/1000/kwe/daemon-v1.sock"
    );
    assert_eq!(
        default_socket_path(None).unwrap_err(),
        "XDG_RUNTIME_DIR is not set; pass --socket"
    );
    assert_eq!(
        default_state_dir(Some("/state".into()), Some("/home/u".into())).unwrap(),
        "/state/kwe"
    );
    assert_eq!(
        default_state_dir(None, Some("/home/u".into())).unwrap(),
        "/home/u/.local/state/kwe"
    );
    assert_eq!(
        default_state_dir(None, None).unwrap_err(),
        "HOME is not set; pass --state-dir"
    );
    assert_eq!(
        default_renderer_path("/usr/bin", RendererKind::Scene),
        "/usr/bin/kwe-scene-renderer"
    );
    assert_eq!(
        default_renderer_path("/usr/bin/", RendererKind::Video),
        "/usr/bin/kwe-video-renderer"
    );
    assert_eq!(default_audio_worker_path("/usr/bin"), "/usr/bin/kwe-audio-worker");
    assert_eq!(
        default_inspector_path(Some("/usr/bin")).as_deref(),
        Some("/usr/bin/kwe-scene-inspector")
    );
    assert_eq!(default_inspector_path(None), None);
}

#[test]
fn named_assets_have_to_be_a_directory() {
    assert_eq!(
        choose_assets_dir(Some("/a".into()), true, Some("/b".into())),
        Some("/a".into())
    );
    assert_eq!(choose_assets_dir(Some("/a".into()), false, Some("/b".into())), None);
    assert_eq!(choose_assets_dir(None, false, Some("/b".into())), Some("/b".into()));
}

#[test]
fn a_socket_is_only_taken_over_when_nobody_answers() {
    assert_eq!(claim_socket(SocketPlace::Free, "/s"), Ok(false));
    assert_eq!(claim_socket(SocketPlace::Abandoned, "/s"), Ok(true));
    assert_eq!(
        claim_socket(SocketPlace::Occupied, "/s").unwrap_err(),
        "refusing to replace non-socket path /s"
    );
    assert_eq!(
        claim_socket(SocketPlace::InUse, "/s").unwrap_err(),
        "another daemon is already listening at /s"
    );
    assert!(validate_socket_parent(false, true).is_ok());
    assert_eq!(
        validate_socket_parent(true, true).unwrap_err(),
        "socket parent must be a real directory"
    );
    assert!(validate_socket_parent(false, false).is_err());
}
