use kwe_daemon::apply::KWE_PLUGIN;
use kwe_daemon::macos_desktop::{parse_switch_script, unescape_js};
use kwe_daemon::probe::{
    assemble_outputs, classify_probe_failure, parse_display_env, parse_geometry,
    parse_kscreen_doctor, strip_ansi, valid_display_value, OutputCache, OutputInfo, ProbeDesktop,
    ProbeError, SystemOutput, MAX_DISPLAY_VALUE_BYTES, OUTPUT_CACHE_TTL_MS,
};
use kwe_daemon::names::NameMap;
use kwe_daemon::script::{
    apply_script, escape_js_string, probe_script, restore_script, MAX_IMAGE_BYTES,
};

fn connectors(entries: &[(&str, i32)]) -> NameMap<i32> {
    let mut map = NameMap::new();
    for (name, screen) in entries {
        map.insert(name, *screen);
    }
    map
}

#[test]
fn apply_and_restore_scripts_are_exact_strings() {
    assert_eq!(
        apply_script(1, "org.kde.kwe.wallpaper").unwrap(),
        "var d = desktops()[1]; if (!d) throw \"no desktop 1\"; d.wallpaperPlugin = \"org.kde.kwe.wallpaper\";"
    );
    assert_eq!(
        restore_script(
            1,
            "org.kde.image",
            &["Wallpaper".into(), "org.kde.image".into(), "General".into()],
            Some("file:///usr/share/wallpapers/cachy.png"),
        )
        .unwrap(),
        "var d = desktops()[1];\n\
         if (!d) throw \"no desktop 1\";\n\
         d.currentConfigGroup = [\"Wallpaper\", \"org.kde.image\", \"General\"];\n\
         d.writeConfig(\"Image\", \"file:///usr/share/wallpapers/cachy.png\");\n\
         d.wallpaperPlugin = \"org.kde.image\";"
    );
    let script = restore_script(
        0,
        "org.kde.image",
        &["Wallpaper".into(), "org.kde.image".into(), "General".into()],
        None,
    )
    .unwrap();
    assert_eq!(
        script,
        "var d = desktops()[0];\n\
         if (!d) throw \"no desktop 0\";\n\
         d.currentConfigGroup = [\"Wallpaper\", \"org.kde.image\", \"General\"];\n\
         d.wallpaperPlugin = \"org.kde.image\";"
    );
    assert!(!script.contains("writeConfig"));
}

#[test]
fn scripts_guard_against_a_stale_desktop_index() {
    let apply = apply_script(7, "org.kde.kwe.wallpaper").unwrap();
    assert!(apply.starts_with(
        "var d = desktops()[7]; if (!d) throw \"no desktop 7\"; d.wallpaperPlugin"
    ));
    let restore = restore_script(7, "org.kde.image", &["Wallpaper".into()], None).unwrap();
    assert!(restore.contains("if (!d) throw \"no desktop 7\";\n"));
}

#[test]
fn scripts_reject_hostile_plugins_groups_and_images() {
    let long = "x".repeat(129);
    for plugin in [
        "",
        "org.kde.image\"}; exploit(); {",
        "a\\b",
        "a b",
        "a;b",
        long.as_str(),
    ] {
        let error = apply_script(0, plugin).unwrap_err();
        assert!(
            error.contains("wallpaper_plugin must be 1..=128"),
            "unexpected error for {plugin:?}: {error}"
        );
        let error = restore_script(0, plugin, &["Wallpaper".into()], None).unwrap_err();
        assert!(
            error.contains("wallpaper_plugin must be 1..=128"),
            "unexpected error for {plugin:?}: {error}"
        );
    }
    let error = restore_script(0, "org.kde.image", &[], None).unwrap_err();
    assert!(error.contains("bounded config group"), "{error}");
    let error = restore_script(
        0,
        "org.kde.image",
        &["Wallpaper".into(), "\"}; exploit();".into()],
        None,
    )
    .unwrap_err();
    assert!(error.contains("config_group must be 1..=128"), "{error}");
    let error = restore_script(
        0,
        "org.kde.image",
        &["Wallpaper".into()],
        Some(&"x".repeat(MAX_IMAGE_BYTES + 1)),
    )
    .unwrap_err();
    assert!(error.contains("bounded image path"), "{error}");
}

#[test]
fn restore_script_escapes_hostile_image_values() {
    let hostile = "file:///x\"; process.exit(1); // \\ and \n and \u{2028}";
    let script = restore_script(
        0,
        "org.kde.image",
        &["Wallpaper".into(), "org.kde.image".into(), "General".into()],
        Some(hostile),
    )
    .unwrap();
    let expected = "var d = desktops()[0];\n\
                    if (!d) throw \"no desktop 0\";\n\
                    d.currentConfigGroup = [\"Wallpaper\", \"org.kde.image\", \"General\"];\n\
                    d.writeConfig(\"Image\", \"file:///x\\\"; process.exit(1); // \\\\ and \\n and \\u2028\");\n\
                    d.wallpaperPlugin = \"org.kde.image\";";
    assert_eq!(script, expected);
    assert!(!script.contains("x\";"));
    assert!(!script.contains('\u{2028}'));
    assert!(script.contains("x\\\";"));
}

#[test]
fn probe_script_embeds_only_validated_connectors() {
    let script = probe_script(&["DP-1".into(), "HDMI-A-1".into()]).unwrap();
    assert!(script.starts_with("var d = desktops();"));
    assert!(script.ends_with("print(JSON.stringify({desktops: out, connectors: c}));"));
    assert!(script.contains("var c = {\"DP-1\": screenForConnector(\"DP-1\"), \"HDMI-A-1\": screenForConnector(\"HDMI-A-1\")};"));
    assert_eq!(script.matches("wallpaperPlugin").count(), 1);
    let empty = probe_script(&[]).unwrap();
    assert!(empty.contains("var c = {};"));
    assert!(empty.contains("print(JSON.stringify({desktops: out, connectors: c}));"));
    for hostile in ["DP\"}; exploit();", "a\\b", "DP-1\"; process.exit(1);"] {
        assert!(probe_script(&[hostile.into()]).is_err());
    }
}

#[test]
fn kscreen_doctor_output_parses() {
    let sample = "Output: 1 DP-1 62b8c814-6503-41cf-a04d-8743a967c99b\n\
                  \tenabled\n\
                  \tconnected\n\
                  \tpriority 1\n\
                  \tGeometry: 0,0 2926x823\n\
                  Output: 2 HDMI-A-1 6e8f4047-91a0-4ba2-9622-4d1f1a24b7e4\n\
                  \tdisabled\n\
                  \tdisconnected\n\
                  \tGeometry: 0,0 1920x1080\n\
                  Output: 3 eDP-1 12345678-1234-1234-1234-123456789012\n\
                  \tenabled\n\
                  \tconnected\n\
                  \tMode: 1920x1080@60.00*\n";
    let outputs = parse_kscreen_doctor(sample);
    assert_eq!(outputs.len(), 3);
    assert_eq!(outputs[0].name, "DP-1");
    assert!(outputs[0].enabled && outputs[0].connected);
    assert_eq!(outputs[0].geometry, Some([0, 0, 2926, 823]));
    assert_eq!(outputs[1].name, "HDMI-A-1");
    assert!(!outputs[1].enabled && !outputs[1].connected);
    assert_eq!(outputs[1].geometry, Some([0, 0, 1920, 1080]));
    assert_eq!(outputs[2].name, "eDP-1");
    assert_eq!(outputs[2].geometry, None);
    let colored = "\u{1b}[1mOutput: 1 DP-1 62b8c814-6503-41cf-a04d-8743a967c99b\u{1b}[0m\n\t\u{1b}[32menabled\u{1b}[0m\n";
    let outputs = parse_kscreen_doctor(colored);
    assert_eq!(outputs.len(), 1);
    assert!(outputs[0].enabled);
    assert!(parse_kscreen_doctor("hello\nworld\n").is_empty());
}

#[test]
fn assemble_outputs_maps_connectors_to_desktops_and_skips_orphans() {
    let system = vec![
        SystemOutput {
            name: "DP-1".into(),
            enabled: true,
            connected: true,
            geometry: Some([0, 0, 2926, 823]),
        },
        SystemOutput {
            name: "HDMI-A-1".into(),
            enabled: true,
            connected: true,
            geometry: None,
        },
    ];
    let desktops = vec![
        ProbeDesktop {
            index: 1,
            id: 111,
            screen: 0,
            wp: "org.kde.kwe.wallpaper".into(),
            image: None,
        },
        ProbeDesktop {
            index: 0,
            id: 105,
            screen: -1,
            wp: "org.kde.image".into(),
            image: Some("file:///old.png".into()),
        },
    ];
    let outputs = assemble_outputs(
        system,
        desktops,
        connectors(&[("DP-1", 0), ("HDMI-A-1", 2)]),
    );
    assert_eq!(outputs.len(), 2);
    assert_eq!(outputs[0].desktop_id, Some(111));
    assert_eq!(outputs[0].desktop_index, Some(1));
    assert_eq!(
        outputs[0].wallpaper_plugin.as_deref(),
        Some("org.kde.kwe.wallpaper")
    );
    assert_eq!(
        outputs[0].config_group,
        vec![
            "Wallpaper".to_string(),
            "org.kde.kwe.wallpaper".to_string(),
            "General".to_string()
        ]
    );
    assert_eq!(outputs[1].desktop_id, None);
    assert_eq!(outputs[1].desktop_index, None);
    assert_eq!(outputs[1].image, None);
}

#[test]
fn connector_mapping_to_negative_screen_never_binds_an_orphan() {
    let system = vec![SystemOutput {
        name: "DP-2".into(),
        enabled: true,
        connected: true,
        geometry: None,
    }];
    let desktops = vec![ProbeDesktop {
        index: 3,
        id: 105,
        screen: -1,
        wp: "org.kde.image".into(),
        image: Some("file:///old.png".into()),
    }];
    let outputs = assemble_outputs(system, desktops, connectors(&[("DP-2", -1)]));
    assert_eq!(outputs.len(), 1);
    assert_eq!(outputs[0].screen, -1);
    assert_eq!(outputs[0].desktop_id, None);
    assert_eq!(outputs[0].desktop_index, None);
    assert_eq!(outputs[0].wallpaper_plugin, None);
    assert_eq!(outputs[0].image, None);
}

#[test]
fn output_cache_is_fresh_for_five_seconds_never_longer() {
    let mut cache = OutputCache::stale();
    let now = 1_000_000;
    assert!(!cache.fresh(now));
    cache.entries.push(OutputInfo {
        name: "DP-1".into(),
        screen: 0,
        desktop_id: Some(111),
        desktop_index: Some(1),
        geometry: None,
        enabled: true,
        connected: true,
        wallpaper_plugin: Some("org.kde.image".into()),
        config_group: vec!["Wallpaper".into(), "org.kde.image".into(), "General".into()],
        image: None,
    });
    cache.cached_at = Some(now);
    assert!(cache.fresh(now + OUTPUT_CACHE_TTL_MS - 1));
    assert!(!cache.fresh(now + OUTPUT_CACHE_TTL_MS + 1));
    assert!(!cache.fresh(now + 3_600_000));
}

#[test]
fn display_env_parse_keeps_display_keys_and_drops_everything_else() {
    let text = "DBUS_SESSION_BUS_ADDRESS=unix:path=/run/user/1000/bus\n\
                LANG=en_US.UTF-8\n\
                WAYLAND_DISPLAY=wayland-0\n\
                DISPLAY=:0\n\
                XDG_SESSION_TYPE=wayland\n";
    assert_eq!(
        parse_display_env(text),
        vec![
            ("WAYLAND_DISPLAY".to_string(), "wayland-0".to_string()),
            ("DISPLAY".to_string(), ":0".to_string()),
        ]
    );
    assert_eq!(
        parse_display_env("WAYLAND_DISPLAY=\"wayland-1\"\n"),
        vec![("WAYLAND_DISPLAY".to_string(), "wayland-1".to_string())]
    );
    assert_eq!(
        parse_display_env("WAYLAND_DISPLAY=/run/user/1000/wayland-0\n"),
        vec![(
            "WAYLAND_DISPLAY".to_string(),
            "/run/user/1000/wayland-0".to_string()
        )]
    );
    for hostile in [
        "WAYLAND_DISPLAY=\n",
        "WAYLAND_DISPLAY=wayland 0\n",
        "WAYLAND_DISPLAY=way\"land\n",
        "WAYLAND_DISPLAY=way'land\n",
        "WAYLAND_DISPLAY=way`land`\n",
        "WAYLAND_DISPLAY=$(id)\n",
        "WAYLAND_DISPLAY=way\\land\n",
    ] {
        assert!(
            parse_display_env(hostile).is_empty(),
            "accepted hostile value: {hostile:?}"
        );
    }
    let long = format!(
        "WAYLAND_DISPLAY={}\n",
        "w".repeat(MAX_DISPLAY_VALUE_BYTES + 1)
    );
    assert!(parse_display_env(&long).is_empty());
    let at_bound = format!("WAYLAND_DISPLAY={}\n", "w".repeat(MAX_DISPLAY_VALUE_BYTES));
    assert_eq!(parse_display_env(&at_bound).len(), 1);
    assert!(parse_display_env("no equals sign here\nPATH=/usr/bin\n").is_empty());
}

#[test]
fn js_unescape_reverses_the_apply_escaper() {
    assert_eq!(
        unescape_js("a\\\\b\\\"c\\nd\u{2028}e".into()),
        "a\\b\"c\nd\u{2028}e"
    );
}

#[test]
fn what_was_escaped_reads_back() {
    for value in ["", "plain", "a\\b\"c\nd\re\u{2028}f\u{2029}g", "\\u2028", "\\\\n"] {
        assert_eq!(unescape_js(escape_js_string(value)), value);
    }
}

#[test]
fn a_script_says_what_it_was_made_of() {
    let command = parse_switch_script(&apply_script(3, KWE_PLUGIN).unwrap()).unwrap();
    assert_eq!(command.desktop_index, 3);
    assert_eq!(command.plugin, KWE_PLUGIN);
    assert!(!command.touches_image);
    let image = "file:///x\"; // \\ and \n";
    let script = restore_script(4, "org.kde.image", &["Wallpaper".into()], Some(image)).unwrap();
    let command = parse_switch_script(&script).unwrap();
    assert_eq!(command.desktop_index, 4);
    assert_eq!(command.plugin, "org.kde.image");
    assert!(command.touches_image);
    assert_eq!(command.image.as_deref(), Some(image));
    assert!(parse_switch_script("print(1);").is_err());
}

#[test]
fn geometry_takes_four_numbers() {
    assert_eq!(parse_geometry("0,0 1920x1080"), Some([0, 0, 1920, 1080]));
    assert_eq!(parse_geometry("-1920,+40 800x600"), Some([-1920, 40, 800, 600]));
    assert_eq!(parse_geometry("0,0 1920"), None);
    assert_eq!(parse_geometry("0 1920x1080"), None);
    assert_eq!(parse_geometry("2147483648,0 1x1"), None);
}

#[test]
fn escapes_are_stripped_and_text_is_kept() {
    assert_eq!(strip_ansi("\u{1b}[1mOutput\u{1b}[0m: 1"), "Output: 1");
    assert_eq!(strip_ansi("plain"), "plain");
}

#[test]
fn display_values_are_plain() {
    assert!(valid_display_value(":0"));
    assert!(valid_display_value("/run/user/1000/wayland-0"));
    assert!(!valid_display_value(""));
    assert!(!valid_display_value("a b"));
    assert!(!valid_display_value("$(id)"));
}

#[test]
fn a_killed_child_is_a_timeout() {
    assert!(matches!(
        classify_probe_failure("probe timed out after 5000 ms"),
        ProbeError::TimedOut(_)
    ));
    assert!(matches!(
        classify_probe_failure("launch qdbus: not found"),
        ProbeError::Unreachable(_)
    ));
}

#[test]
fn an_image_may_say_anything() {
    for image in [
        "wallpaperPlugin = ",
        "/pictures/d.wallpaperPlugin = ",
        "wallpaperPlugin = \"org.other\";",
        "writeConfig(\"Image\", \"",
        "currentConfigGroup = [",
        "desktops()[9]",
    ] {
        let script =
            restore_script(4, "org.kde.image", &["Wallpaper".into()], Some(image)).unwrap();
        let command = parse_switch_script(&script).unwrap();
        assert_eq!(command.desktop_index, 4);
        assert_eq!(command.plugin, "org.kde.image", "{image}");
        assert_eq!(command.image.as_deref(), Some(image));
    }
}
