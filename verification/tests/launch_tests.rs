use jollypad_core::launch::{
    build_launch_command, parse_dispatch, prepare_game_launch, DispatchCommand, GameLaunchInfo,
    LaunchError,
};

fn lookup<'a>(envs: &'a [(String, String)], key: &str) -> Option<&'a str> {
    envs.iter().find(|(k, _)| k == key).map(|(_, v)| v.as_str())
}

#[test]
fn game_launch_runs_through_compatibility_launcher() {
    let info = prepare_game_launch(
        "/home/u/.jolly",
        "doom",
        Some("[Game]\nName=Doom\nExec=doom.exe"),
        None,
        false,
    )
    .unwrap();
    assert_eq!(info.program, "/home/u/.jolly/tools/umu-run");
    assert_eq!(info.args, vec!["doom.exe".to_string()]);
    assert_eq!(lookup(&info.envs, "WINEPREFIX"), Some("/home/u/.jolly/prefixes/doom"));
    assert_eq!(
        lookup(&info.envs, "PROTON_EAC_RUNTIME"),
        Some("/home/u/.jolly/components/eac")
    );
}

#[test]
fn plain_app_runs_through_command_shell() {
    let info = prepare_game_launch(
        "/home/u/.jolly",
        "chess",
        Some("[App]\nName=Chess\nExec=/usr/bin/chess"),
        None,
        false,
    )
    .unwrap();
    assert_eq!(info.program, "sh");
    assert_eq!(info.args, vec!["-c".to_string(), "/usr/bin/chess".to_string()]);
}

#[test]
fn missing_manifest_aborts_the_launch() {
    let err = prepare_game_launch("/r", "ghost", None, None, false).unwrap_err();
    assert_eq!(err, LaunchError::ManifestMissing);
    assert_eq!(err.describe(), "application manifest not found");
}

#[test]
fn invalid_manifest_aborts_the_launch() {
    let err = prepare_game_launch("/r", "x", Some("[App]\nName=NoExec"), None, false)
        .unwrap_err();
    assert_eq!(err, LaunchError::ManifestInvalid);
    assert_eq!(
        err.describe(),
        "application manifest is missing a name or an exec target"
    );
}

#[test]
fn launch_configuration_reaches_the_environment() {
    let info = prepare_game_launch(
        "/r",
        "g",
        Some("[Game]\nName=G\nExec=g.exe"),
        Some("wayland-driver=True\nenable-hdr=True"),
        false,
    )
    .unwrap();
    assert_eq!(lookup(&info.envs, "PROTON_ENABLE_WAYLAND"), Some("1"));
    assert_eq!(lookup(&info.envs, "PROTON_ENABLE_HDR"), Some("1"));
}

#[test]
fn command_rendering_quotes_where_needed() {
    let info = GameLaunchInfo {
        program: "sh".to_string(),
        args: vec!["-c".to_string(), "echo hi".to_string()],
        envs: vec![("A".to_string(), "x y".to_string())],
    };
    assert_eq!(build_launch_command(&info), "A='x y' sh -c 'echo hi'");
}

#[test]
fn command_rendering_keeps_plain_words() {
    let info = GameLaunchInfo {
        program: "/usr/bin/game".to_string(),
        args: vec!["--level".to_string(), "3".to_string()],
        envs: vec![("K".to_string(), "v".to_string())],
    };
    assert_eq!(build_launch_command(&info), "K=v /usr/bin/game --level 3");
}

#[test]
fn empty_command_is_dropped() {
    assert!(parse_dispatch("").is_none());
}

#[test]
fn game_launcher_prefix_dispatches_a_game() {
    match parse_dispatch("  game-launcher doom  ").unwrap() {
        DispatchCommand::GameLaunch { app_id } => assert_eq!(app_id, "doom"),
        other => panic!("expected a game launch, got {:?}", other),
    }
}

#[test]
fn other_commands_pass_through_unchanged() {
    match parse_dispatch("firefox --new-window").unwrap() {
        DispatchCommand::External { command, app_id_hint } => {
            assert_eq!(command, "firefox --new-window");
            assert_eq!(app_id_hint, None);
        }
        other => panic!("expected an external command, got {:?}", other),
    }
}

#[test]
fn flatpak_run_yields_identifier_hint() {
    match parse_dispatch("flatpak run --branch=stable org.gnome.Maps").unwrap() {
        DispatchCommand::External { app_id_hint, .. } => {
            assert_eq!(app_id_hint.as_deref(), Some("org.gnome.Maps"));
        }
        other => panic!("expected an external command, got {:?}", other),
    }
}

#[test]
fn absolute_flatpak_path_yields_identifier_hint() {
    match parse_dispatch("/usr/bin/flatpak run org.videolan.VLC").unwrap() {
        DispatchCommand::External { app_id_hint, .. } => {
            assert_eq!(app_id_hint.as_deref(), Some("org.videolan.VLC"));
        }
        other => panic!("expected an external command, got {:?}", other),
    }
}

#[test]
fn flatpak_without_dotted_token_falls_back_to_last() {
    match parse_dispatch("flatpak run --user gimp").unwrap() {
        DispatchCommand::External { app_id_hint, .. } => {
            assert_eq!(app_id_hint.as_deref(), Some("gimp"));
        }
        other => panic!("expected an external command, got {:?}", other),
    }
}
