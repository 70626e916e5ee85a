use kwe_daemon::websandbox::{
    chromium_command, display_binds, sandbox_root, web_preview_command, web_renderer_command,
    x11_display_number,
};

fn has(arguments: &[String], flag: &str) -> bool {
    arguments.iter().any(|argument| argument == flag)
}

fn has_pair(arguments: &[String], pair: [&str; 2]) -> bool {
    arguments.windows(2).any(|window| window == pair)
}

fn has_triple(arguments: &[String], triple: [&str; 3]) -> bool {
    arguments.windows(3).any(|window| window == triple)
}

#[test]
fn defaults_to_network_isolation_and_read_only_content() {
    let command = chromium_command("/tmp/wallpaper", false);
    assert_eq!(command.program, "bwrap");
    assert!(command.arguments.contains(&"--unshare-net".into()));
    assert!(has_pair(&command.arguments, ["--ro-bind", "/tmp/wallpaper"]));
    assert!(
        chromium_command("/tmp/wallpaper", true)
            .arguments
            .iter()
            .all(|arg| arg != "--unshare-net")
    );
}

#[test]
fn web_renderer_command_carries_the_pinned_flags() {
    let command = web_renderer_command("/tmp/wallpaper", false, 160, 90);
    assert_eq!(command.program, "bwrap");
    let arguments = &command.arguments;
    for flag in [
        "--die-with-parent",
        "--new-session",
        "--unshare-net",
        "--remote-debugging-pipe",
        "--headless=new",
        "--no-sandbox",
        "--disable-dev-shm-usage",
        "--disable-gpu",
        "--no-first-run",
        "--no-default-browser-check",
        "--disable-extensions",
        "--user-data-dir=/tmp/kwe-profile",
        "file:///wallpaper/index.html",
    ] {
        assert!(has(arguments, flag), "missing flag {flag}");
    }
    for pair in [
        ["--ro-bind", "/usr"],
        ["--ro-bind", "/etc"],
        ["--ro-bind", "/lib"],
        ["--ro-bind", "/lib64"],
        ["--ro-bind", "/bin"],
        ["--ro-bind", "/sbin"],
        ["--ro-bind", "/tmp/wallpaper"],
    ] {
        assert!(has_pair(arguments, pair), "missing {pair:?}");
    }
    assert!(has_triple(arguments, ["--ro-bind", "/tmp/wallpaper", "/wallpaper"]));
}

#[test]
fn web_renderer_command_formats_window_size_and_toggles_network() {
    let command = web_renderer_command("/tmp/wallpaper", false, 960, 540);
    assert!(command.arguments.contains(&"--window-size=960,540".into()));
    assert!(command.arguments.contains(&"--unshare-net".into()));
    let open = web_renderer_command("/tmp/wallpaper", true, 160, 90);
    assert!(open.arguments.contains(&"--window-size=160,90".into()));
    assert!(open.arguments.iter().all(|arg| arg != "--unshare-net"));
}

#[test]
fn web_preview_command_is_windowed_with_the_m2b_isolation() {
    let command = web_preview_command("/tmp/wallpaper", false, None, None, None, |_: &str| false);
    assert_eq!(command.program, "bwrap");
    let arguments = &command.arguments;
    for flag in [
        "--die-with-parent",
        "--new-session",
        "--unshare-net",
        "--no-sandbox",
        "--disable-dev-shm-usage",
        "--no-first-run",
        "--no-default-browser-check",
        "--disable-extensions",
        "--user-data-dir=/tmp/kwe-preview-profile",
        "file:///wallpaper/index.html",
    ] {
        assert!(has(arguments, flag), "missing flag {flag}");
    }
    for prefix in ["--headless=new", "--remote-debugging-pipe", "--window-size="] {
        assert!(
            arguments.iter().all(|arg| !arg.starts_with(prefix)),
            "unexpected flag {prefix}"
        );
    }
    for pair in [
        ["--ro-bind", "/usr"],
        ["--ro-bind", "/etc"],
        ["--ro-bind", "/lib"],
        ["--ro-bind", "/lib64"],
        ["--ro-bind", "/bin"],
        ["--ro-bind", "/sbin"],
        ["--ro-bind", "/tmp/wallpaper"],
    ] {
        assert!(has_pair(arguments, pair), "missing {pair:?}");
    }
    assert!(has_triple(arguments, ["--ro-bind", "/tmp/wallpaper", "/wallpaper"]));
    let open = web_preview_command("/tmp/wallpaper", true, None, None, None, |_: &str| false);
    assert!(open.arguments.iter().all(|arg| arg != "--unshare-net"));
}

#[test]
fn x11_local_displays_parse_and_remote_displays_do_not() {
    assert_eq!(x11_display_number(":0"), Some(0));
    assert_eq!(x11_display_number(":10"), Some(10));
    assert_eq!(x11_display_number(":0.0"), Some(0));
    assert_eq!(x11_display_number(":99.15"), Some(99));
    assert_eq!(x11_display_number("workstation:10.0"), None);
    assert_eq!(x11_display_number(":abc"), None);
    assert_eq!(x11_display_number(":"), None);
    assert_eq!(x11_display_number(""), None);
    // A sign is no digit, and a number has to fit.
    assert_eq!(x11_display_number(":+1"), None);
    assert_eq!(x11_display_number(":4294967295"), Some(4294967295));
    assert_eq!(x11_display_number(":4294967296"), None);
}

#[test]
fn display_binds_binds_the_x11_socket_dir_for_a_local_display() {
    assert_eq!(
        display_binds(Some(":0"), None, None),
        ["--ro-bind", "/tmp/.X11-unix", "/tmp/.X11-unix"]
    );
    assert!(display_binds(Some("workstation:10.0"), None, None).is_empty());
}

#[test]
fn display_binds_binds_only_the_wayland_socket_file() {
    assert_eq!(
        display_binds(None, Some("wayland-0"), Some("/run/user/1000")),
        [
            "--ro-bind",
            "/run/user/1000/wayland-0",
            "/run/user/1000/wayland-0",
        ]
    );
    assert!(
        display_binds(None, Some("wayland-0"), Some("/run/user/1000"))
            .iter()
            .all(|arg| arg != "/run/user/1000")
    );
}

#[test]
fn display_binds_binds_both_displays_and_nothing_without_them() {
    assert_eq!(
        display_binds(Some(":0"), Some("wayland-0"), Some("/run/user/1000")),
        [
            "--ro-bind",
            "/tmp/.X11-unix",
            "/tmp/.X11-unix",
            "--ro-bind",
            "/run/user/1000/wayland-0",
            "/run/user/1000/wayland-0",
        ]
    );
    assert!(display_binds(None, None, None).is_empty());
    assert!(display_binds(None, Some("none"), Some("/run/user/1000")).is_empty());
    assert!(display_binds(None, Some("wayland-0"), None).is_empty());
}

#[test]
fn a_runtime_directory_with_slashes_at_its_end_names_the_same_socket() {
    assert_eq!(
        display_binds(None, Some("wayland-0"), Some("/run/user/1000//")),
        display_binds(None, Some("wayland-0"), Some("/run/user/1000"))
    );
    assert!(display_binds(None, Some(""), Some("/run/user/1000")).is_empty());
}

#[test]
fn web_preview_command_binds_a_present_wayland_socket_and_skips_a_missing_one() {
    let socket = "/tmp/kwe-wp-probe/wayland-probe";
    let present = |path: &str| path == "/tmp/kwe-wp-probe/wayland-probe";
    let command = web_preview_command(
        "/tmp/wallpaper",
        false,
        None,
        Some("wayland-probe"),
        Some("/tmp/kwe-wp-probe"),
        present,
    );
    assert!(
        has_triple(&command.arguments, ["--ro-bind", socket, socket]),
        "present wayland socket must be bound"
    );
    let command = web_preview_command(
        "/tmp/wallpaper",
        false,
        None,
        Some("missing-socket"),
        Some("/tmp/kwe-wp-probe"),
        present,
    );
    let missing = "/tmp/kwe-wp-probe/missing-socket";
    assert!(
        !has_triple(&command.arguments, ["--ro-bind", missing, missing]),
        "missing wayland socket must not be bound"
    );
}

#[test]
fn the_preview_binds_its_sockets_before_the_browser() {
    let command = web_preview_command(
        "/w",
        false,
        Some(":0"),
        Some("wayland-0"),
        Some("/run/user/1000"),
        |_: &str| true,
    );
    let separator = command
        .arguments
        .iter()
        .position(|argument| argument == "--")
        .unwrap();
    assert_eq!(command.arguments[separator + 1], "chromium");
    assert_eq!(command.arguments[separator - 1], "/run/user/1000/wayland-0");
    assert_eq!(command.arguments[separator - 6], "--ro-bind");
    assert_eq!(command.arguments[separator - 5], "/tmp/.X11-unix");
    assert_eq!(command.arguments[0], "--unshare-net");
}

#[test]
fn a_content_root_is_a_directory_with_an_index() {
    assert_eq!(
        sandbox_root(Some("/w/1".into()), true, true),
        Some("/w/1".into())
    );
    assert_eq!(sandbox_root(Some("/w/1".into()), true, false), None);
    assert_eq!(sandbox_root(Some("/w/1".into()), false, true), None);
    assert_eq!(sandbox_root(None, true, true), None);
}
