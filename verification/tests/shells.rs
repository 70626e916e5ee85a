use kwe_daemon::child::{absorb, BoundedRun, Poll, RunStep, MAX_DRAIN_WAITS};
use kwe_daemon::macos_desktop::{
    load_state, DesktopRecord, Display, DisplayLister, Evaluated, MacDesktopProbe, DEFAULT_PLUGIN,
    MAX_STATE_BYTES,
};
use kwe_daemon::names::NameMap;
use kwe_daemon::probe::{ProbeError, ProbeReply, SystemOutput, DISPLAY_UNAVAILABLE_HINT};
use kwe_daemon::script::{apply_script, probe_script, restore_script};
use kwe_daemon::shell::{
    evaluated, find_in_path, split_path, ChildOutcome, DisplaySource, QdbusShellProbe, ShellProbe,
    StubProbe, RECOVERY_TIMEOUT_MS,
};

fn strings(items: &[&str]) -> Vec<String> {
    items.iter().map(|item| item.to_string()).collect()
}

fn exited(success: bool, status: &str, stdout: &str, stderr: &str) -> ChildOutcome {
    ChildOutcome::Exited {
        success,
        status: status.into(),
        stdout: stdout.into(),
        stderr: stderr.into(),
    }
}

fn probe_with(systemctl: Option<&str>, switch_command: Option<&str>, timeout_ms: u64) -> QdbusShellProbe {
    QdbusShellProbe::new(
        "org.kde.plasmashell".into(),
        None,
        switch_command.map(str::to_string),
        "kscreen-doctor".into(),
        systemctl.map(str::to_string),
        timeout_ms,
    )
}

/// The display environment for a child, the way a caller obtains it: `manager`
/// is what the user manager would answer, and each question to it is counted.
fn display_env(
    probe: &mut QdbusShellProbe,
    ambient: bool,
    manager: &dyn Fn() -> ChildOutcome,
    calls: &mut u32,
) -> Result<Vec<(String, String)>, ProbeError> {
    match probe.display_env(ambient) {
        DisplaySource::Inherited => Ok(Vec::new()),
        DisplaySource::Cached(entries) => Ok(entries),
        DisplaySource::Recover => {
            probe.recovery(None)?;
            *calls += 1;
            probe.recovered(manager())
        }
    }
}

// -- the display environment ------------------------------------------------

#[test]
fn display_env_inherits_when_the_daemon_already_has_one() {
    let mut probe = probe_with(Some("/stub/systemctl.sh"), None, 5000);
    let mut calls = 0;
    let manager = || exited(false, "exit status: 9", "", "");
    assert!(display_env(&mut probe, true, &manager, &mut calls).unwrap().is_empty());
    assert_eq!(calls, 0);
}

#[test]
fn display_env_recovers_from_the_manager_and_caches_only_success() {
    let mut probe = probe_with(Some("/stub/systemctl.sh"), None, 5000);
    let mut calls = 0;
    let manager = || exited(true, "exit status: 0", "WAYLAND_DISPLAY=wayland-7\n", "");
    let recovered = display_env(&mut probe, false, &manager, &mut calls).unwrap();
    assert_eq!(recovered, vec![("WAYLAND_DISPLAY".to_string(), "wayland-7".to_string())]);
    // The second call is served from the cache.
    assert_eq!(display_env(&mut probe, false, &manager, &mut calls).unwrap(), recovered);
    assert_eq!(calls, 1);
    // Forgetting sends the next call back to the manager.
    probe.forget_display_env();
    assert_eq!(display_env(&mut probe, false, &manager, &mut calls).unwrap(), recovered);
    assert_eq!(calls, 2);
}

#[test]
fn display_env_failure_is_actionable_and_never_cached() {
    let mut probe = probe_with(Some("/stub/empty.sh"), None, 5000);
    let mut calls = 0;
    let manager = || exited(true, "exit status: 0", "LANG=en_US.UTF-8\n", "");
    for _ in 0..2 {
        let error = display_env(&mut probe, false, &manager, &mut calls).unwrap_err();
        assert!(
            matches!(error, ProbeError::DisplayUnavailable(ref detail)
                if detail.contains("systemctl --user restart kwe-daemon")),
            "{error:?}"
        );
    }
    assert_eq!(calls, 2);
    let mut probe = probe_with(Some("/bin/false"), None, 5000);
    let failing = || exited(false, "exit status: 1", "", "");
    let error = display_env(&mut probe, false, &failing, &mut calls).unwrap_err();
    assert!(
        matches!(error, ProbeError::DisplayUnavailable(ref detail)
            if detail.contains("exited") && detail.contains("restart kwe-daemon")),
        "{error:?}"
    );
}

#[test]
fn display_recovery_stays_inside_the_probe_budget() {
    let mut probe = probe_with(Some("/stub/slow.sh"), None, 120);
    // The configured probe timeout wins when it is the smaller of the two.
    assert_eq!(probe.recovery_budget(), 120);
    let mut run = BoundedRun::start(1_000, probe.recovery_budget());
    let mut now: u64 = 1_000;
    let waiting = |now_ms| Poll { exited: false, stdout_eof: false, stderr_eof: false, now_ms };
    while run.step(waiting(now)) == RunStep::WaitMs(5) {
        now += 5;
    }
    assert_eq!(now, 1_120);
    let message = run.timeout_message();
    let mut calls = 0;
    let manager = || ChildOutcome::NotRun(message.clone());
    let error = display_env(&mut probe, false, &manager, &mut calls).unwrap_err();
    assert!(
        matches!(error, ProbeError::DisplayUnavailable(ref detail)
            if detail.contains("timed out") && detail.contains("restart kwe-daemon")),
        "{error:?}"
    );
    assert!(RECOVERY_TIMEOUT_MS < 5000);
    assert_eq!(probe_with(None, None, 5000).recovery_budget(), RECOVERY_TIMEOUT_MS);
}

#[test]
fn recovered_display_reaches_the_enumeration_child() {
    let mut probe = probe_with(Some("/stub/systemctl.sh"), None, 5000);
    let mut calls = 0;
    let manager = || exited(true, "exit status: 0", "WAYLAND_DISPLAY=wayland-9\n", "");
    let entries = display_env(&mut probe, false, &manager, &mut calls).unwrap();
    assert_eq!(entries, vec![("WAYLAND_DISPLAY".to_string(), "wayland-9".to_string())]);
    let command = probe.enumeration();
    assert_eq!(command.program, "kscreen-doctor");
    assert_eq!(command.arguments, strings(&["-o"]));
    let listing = "Output: 1 DP-1 uuid\n\tenabled\n\tconnected\n";
    let outputs = probe
        .enumerated(!entries.is_empty(), exited(true, "exit status: 0", listing, ""))
        .unwrap();
    assert_eq!(outputs.len(), 1);
    assert_eq!(outputs[0].name, "DP-1");
    assert!(matches!(probe.display_env(false), DisplaySource::Cached(kept) if kept == entries));
}

#[test]
fn a_failing_enumeration_forgets_a_recovered_display() {
    let mut probe = probe_with(Some("/stub/systemctl.sh"), None, 5000);
    let mut calls = 0;
    let manager = || exited(true, "exit status: 0", "WAYLAND_DISPLAY=wayland-0\n", "");
    for _ in 0..2 {
        let entries = display_env(&mut probe, false, &manager, &mut calls).unwrap();
        let error = probe
            .enumerated(!entries.is_empty(), exited(false, "exit status: 1", "", "boom\n"))
            .unwrap_err();
        assert!(matches!(error, ProbeError::Rejected(_)));
    }
    assert_eq!(calls, 2);
}

#[test]
fn a_failing_enumeration_keeps_what_was_inherited() {
    let mut probe = probe_with(None, None, 5000);
    let error = probe
        .enumerated(false, ChildOutcome::NotRun("No such file or directory (os error 2)".into()))
        .unwrap_err();
    assert!(matches!(error, ProbeError::Unreachable(_)), "{error:?}");
    assert!(matches!(probe.display_env(true), DisplaySource::Inherited));
}

// -- the search path --------------------------------------------------------

#[test]
fn resolve_systemctl_prefers_the_explicit_path() {
    let explicit = probe_with(Some("/somewhere/systemctl"), None, 5000);
    let command = explicit.recovery(Some("/usr/bin/systemctl".into())).unwrap();
    assert_eq!(command.program, "/somewhere/systemctl");
    assert_eq!(command.arguments, strings(&["--user", "show-environment"]));
    let names = strings(&["systemctl"]);
    assert!(find_in_path(Some("/root"), &names, |_: &str| false).is_none());
    let found = find_in_path(Some("/root"), &names, |path: &str| path == "/root/systemctl").unwrap();
    assert_eq!(found, "/root/systemctl");
    let command = probe_with(None, None, 5000).recovery(Some(found)).unwrap();
    assert_eq!(command.program, "/root/systemctl");
    let error = probe_with(None, None, 5000).recovery(None).unwrap_err();
    assert!(matches!(error, ProbeError::DisplayUnavailable(_)));
    assert!(DISPLAY_UNAVAILABLE_HINT.contains("systemctl --user restart kwe-daemon"));
}

#[test]
fn find_in_path_resolves_qdbus_then_qdbus6() {
    let names = strings(&["qdbus", "qdbus6"]);
    let present = |path: &str| {
        ["/first/qdbus", "/second/qdbus", "/second/qdbus6", "/third/qdbus6"].contains(&path)
    };
    assert_eq!(find_in_path(Some("/first:/second"), &names, present).unwrap(), "/first/qdbus");
    assert_eq!(find_in_path(Some("/third"), &names, present).unwrap(), "/third/qdbus6");
    // The name that comes first wins over a directory that comes first.
    assert_eq!(find_in_path(Some("/third:/second"), &names, present).unwrap(), "/second/qdbus");
    assert!(find_in_path(None, &strings(&["qdbus"]), present).is_none());
    assert!(find_in_path(Some("/first:/second"), &strings(&["nope"]), present).is_none());
    assert_eq!(split_path("/a:/b:/c"), strings(&["/a", "/b", "/c"]));
}

// -- evaluation -------------------------------------------------------------

#[test]
fn external_evaluator_runs_the_script_as_its_single_argument() {
    let probe = probe_with(None, Some("/stub/plasma-stub.sh"), 5000);
    for script in [
        "var d = desktops(); print(1);",
        "var d = desktops()[1]; d.wallpaperPlugin = \"org.kde.kwe.wallpaper\";",
    ] {
        let command = probe.evaluation(script, None).unwrap();
        assert_eq!(command.program, "/stub/plasma-stub.sh");
        assert_eq!(command.arguments, strings(&[script]));
        let printed = exited(true, "exit status: 0", &command.arguments[0], "");
        assert_eq!(evaluated(printed).unwrap(), script);
    }
    let error = evaluated(exited(false, "exit status: 3", "", "nope\n")).unwrap_err();
    assert!(matches!(error, ProbeError::Rejected(ref detail) if detail == "nope"), "{error:?}");
}

#[test]
fn the_shell_is_asked_over_the_session_bus() {
    let probe = probe_with(None, None, 5000);
    let command = probe.evaluation("print(1);", Some("/usr/bin/qdbus6".into())).unwrap();
    assert_eq!(command.program, "/usr/bin/qdbus6");
    assert_eq!(
        command.arguments,
        strings(&["org.kde.plasmashell", "/PlasmaShell", "evaluateScript", "print(1);"])
    );
    let error = probe.evaluation("print(1);", None).unwrap_err();
    assert!(matches!(error, ProbeError::Unreachable(ref detail) if detail.contains("PATH")));
    let explicit = QdbusShellProbe::new(
        "org.kde.plasmashell".into(),
        Some("/opt/qdbus".into()),
        None,
        "kscreen-doctor".into(),
        None,
        5000,
    );
    let command = explicit.evaluation("print(1);", Some("/usr/bin/qdbus".into())).unwrap();
    assert_eq!(command.program, "/opt/qdbus");
    // What the shell prints is trimmed; a child that did not answer says why.
    assert_eq!(evaluated(exited(true, "exit status: 0", " {} \n", "")).unwrap(), "{}");
    let error = evaluated(exited(false, "exit status: 4", "", "")).unwrap_err();
    assert!(matches!(error, ProbeError::Rejected(ref detail) if detail.contains("exit status: 4")));
    let late = BoundedRun::start(0, 70).timeout_message();
    assert!(matches!(evaluated(ChildOutcome::NotRun(late)).unwrap_err(), ProbeError::TimedOut(_)));
}

#[test]
fn the_stand_in_notes_every_script() {
    let output = SystemOutput { name: "DP-1".into(), enabled: true, connected: true, geometry: None };
    let mut stub = StubProbe::new(vec![output], Some("before".into())).after_switch("after".into());
    assert_eq!(stub.system_outputs().unwrap()[0].name, "DP-1");
    let probe = probe_script(&strings(&["DP-1"])).unwrap();
    let switch = apply_script(1, "org.kde.kwe.wallpaper").unwrap();
    assert_eq!(stub.evaluate_script(&probe).unwrap(), "before");
    assert_eq!(stub.evaluate_script(&switch).unwrap(), "");
    assert_eq!(stub.evaluate_script(&probe).unwrap(), "after");
    assert_eq!(stub.scripts(), vec![probe.clone(), switch.clone(), probe.clone()]);
    stub.reject_scripts = true;
    assert!(matches!(stub.evaluate_script(&switch).unwrap_err(), ProbeError::Unreachable(_)));
    stub.reject_scripts = false;
    // An image that reads like the enumeration does not make a script one.
    let group = strings(&["Wallpaper"]);
    let restore =
        restore_script(1, "org.kde.image", &group, Some("var d = desktops();")).unwrap();
    assert_eq!(stub.evaluate_script(&restore).unwrap(), "");
    let mut silent = StubProbe::new(Vec::new(), None);
    assert!(matches!(silent.evaluate_script(&probe).unwrap_err(), ProbeError::Rejected(_)));
}

// -- bounded children -------------------------------------------------------

#[test]
fn output_past_the_cap_is_discarded() {
    let mut buffer: Vec<u8> = Vec::new();
    absorb(&mut buffer, b"abc", 5);
    absorb(&mut buffer, b"defg", 5);
    assert_eq!(buffer, b"abcde");
    absorb(&mut buffer, b"h", 5);
    assert_eq!(buffer, b"abcde");
}

#[test]
fn a_bounded_run_ends() {
    let look = |exited, eof, now_ms| Poll { exited, stdout_eof: eof, stderr_eof: eof, now_ms };
    let mut run = BoundedRun::start(0, 100);
    assert_eq!(run.step(look(false, false, 99)), RunStep::WaitMs(5));
    assert_eq!(run.step(look(true, true, 100)), RunStep::Done);
    let mut overdue = BoundedRun::start(0, 100);
    assert_eq!(overdue.step(look(false, false, 100)), RunStep::Kill);
    assert!(overdue.timeout_message().contains("timed out"));
    assert!(overdue.timeout_message().contains("100"));
    // A pipe that another process holds open is not waited for forever.
    let mut held = BoundedRun::start(0, 100);
    assert_eq!(held.step(look(true, false, 10)), RunStep::DrainAgain);
    for _ in 0..MAX_DRAIN_WAITS {
        assert_eq!(held.step(look(true, false, 10)), RunStep::WaitMs(1));
    }
    assert_eq!(held.step(look(true, false, 10)), RunStep::Stalled);
}

// -- desktops without a shell -----------------------------------------------

struct FixedDisplays(Vec<Display>);

impl DisplayLister for FixedDisplays {
    fn active_displays(&self) -> Result<Vec<Display>, ProbeError> {
        Ok(copy_displays(&self.0))
    }
}

struct NoDisplays;

impl DisplayLister for NoDisplays {
    fn active_displays(&self) -> Result<Vec<Display>, ProbeError> {
        Err(ProbeError::DisplayUnavailable("none".into()))
    }
}

fn copy_displays(displays: &[Display]) -> Vec<Display> {
    displays
        .iter()
        .map(|display| Display { name: display.name.clone(), geometry: display.geometry })
        .collect()
}

fn two_displays() -> Vec<Display> {
    vec![
        Display {
            name: "37D8832A-2D66-02CA-B9F7-8F30A301B230".into(),
            geometry: [0, 0, 3456, 2234],
        },
        Display {
            name: "1C8B7D2E-0000-4A7E-9F31-1111AAAA2222".into(),
            geometry: [3456, 0, 2560, 1440],
        },
    ]
}

fn reply(result: Result<Evaluated, ProbeError>) -> ProbeReply {
    match result.unwrap() {
        Evaluated::Reply(reply) => reply,
        Evaluated::Switched => panic!("a switch is no reply"),
    }
}

#[test]
fn enumeration_reports_one_desktop_per_display_with_the_image_plugin_by_default() {
    let mut probe = MacDesktopProbe::with_lister(FixedDisplays(two_displays()), NameMap::new());
    let outputs = probe.system_outputs().unwrap();
    assert_eq!(outputs.len(), 2);
    assert_eq!(outputs[1].geometry, Some([3456, 0, 2560, 1440]));
    let names: Vec<String> = outputs.iter().map(|output| output.name.clone()).collect();
    let reply = reply(probe.evaluate_script(&probe_script(&names).unwrap()));
    assert_eq!(reply.desktops.len(), 2);
    assert_eq!(reply.desktops[0].wp, DEFAULT_PLUGIN);
    assert_eq!(reply.desktops[1].screen, 1);
    assert_eq!(reply.connectors.get(&names[1]), Some(&1));
}

#[test]
fn apply_and_restore_scripts_flip_the_recorded_plugin_and_persist() {
    let displays = two_displays();
    let names: Vec<String> = displays.iter().map(|display| display.name.clone()).collect();
    let enumeration = probe_script(&names).unwrap();
    let mut probe = MacDesktopProbe::with_lister(FixedDisplays(displays), NameMap::new());
    probe.evaluate_script(&apply_script(1, "org.kde.kwe.wallpaper").unwrap()).unwrap();
    let first = reply(probe.evaluate_script(&enumeration));
    assert_eq!(first.desktops[0].wp, DEFAULT_PLUGIN);
    assert_eq!(first.desktops[1].wp, "org.kde.kwe.wallpaper");
    // A fresh probe reloads the record.
    let saved = load_state(Some((true, 200)), Some((1, probe.desktops)));
    let mut probe = MacDesktopProbe::with_lister(FixedDisplays(two_displays()), saved);
    let second = reply(probe.evaluate_script(&enumeration));
    assert_eq!(second.desktops[1].wp, "org.kde.kwe.wallpaper");
    let restore = restore_script(
        1,
        "org.kde.image",
        &strings(&["Wallpaper", "org.kde.image", "General"]),
        Some("/Users/me/Pictures/a \"quoted\" name.jpg"),
    )
    .unwrap();
    probe.evaluate_script(&restore).unwrap();
    let third = reply(probe.evaluate_script(&enumeration));
    assert_eq!(third.desktops[1].wp, "org.kde.image");
    assert_eq!(
        third.desktops[1].image.as_deref(),
        Some("/Users/me/Pictures/a \"quoted\" name.jpg")
    );
}

#[test]
fn stale_desktop_index_and_unknown_scripts_are_rejected() {
    let mut probe = MacDesktopProbe::with_lister(FixedDisplays(two_displays()), NameMap::new());
    let error = probe
        .evaluate_script(&apply_script(7, "org.kde.kwe.wallpaper").unwrap())
        .err()
        .unwrap();
    assert!(matches!(error, ProbeError::Rejected(detail) if detail.contains("no desktop 7")));
    assert!(matches!(probe.evaluate_script("print(1);").err().unwrap(), ProbeError::Rejected(_)));
}

#[test]
fn no_window_session_is_display_unavailable_not_unreachable() {
    let mut probe = MacDesktopProbe::with_lister(NoDisplays, NameMap::new());
    assert!(matches!(probe.system_outputs().unwrap_err(), ProbeError::DisplayUnavailable(_)));
    let error = probe.evaluate_script("var d = desktops();").err().unwrap();
    assert!(matches!(error, ProbeError::DisplayUnavailable(_)));
}

#[test]
fn corrupt_or_oversized_state_is_ignored_not_fatal() {
    let record = || {
        let mut saved = NameMap::new();
        saved.insert("DP-1", DesktopRecord { plugin: "org.kde.image".into(), image: None });
        saved
    };
    assert_eq!(load_state(Some((true, 9)), None).len(), 0);
    assert_eq!(load_state(None, None).len(), 0);
    assert_eq!(load_state(Some((true, MAX_STATE_BYTES + 1)), Some((1, record()))).len(), 0);
    assert_eq!(load_state(Some((false, 9)), Some((1, record()))).len(), 0);
    assert_eq!(load_state(Some((true, 9)), Some((2, record()))).len(), 0);
    assert_eq!(load_state(Some((true, MAX_STATE_BYTES)), Some((1, record()))).len(), 1);
}

#[test]
fn the_display_desktop_serves_macos_without_a_switch_command() {
    let on = |macos, command: Option<&str>| {
        MacDesktopProbe::from_config(macos, NoDisplays, command, NameMap::new()).is_some()
    };
    assert!(on(true, None));
    assert!(!on(true, Some("/stub/plasma-stub.sh")));
    assert!(!on(false, None));
}

#[test]
fn a_switch_shows_only_on_its_display() {
    let mut probe = MacDesktopProbe::with_lister(FixedDisplays(two_displays()), NameMap::new());
    let displays = two_displays();
    probe.apply_switch(&displays, &apply_script(0, "org.kde.kwe.wallpaper").unwrap()).unwrap();
    let shown = probe.probe_reply(&displays);
    assert_eq!(shown.desktops[0].wp, "org.kde.kwe.wallpaper");
    assert_eq!(shown.desktops[1].wp, DEFAULT_PLUGIN);
}
