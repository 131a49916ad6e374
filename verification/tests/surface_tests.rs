use jollypad_core::clients::{get_clients, get_running_game, show_desktop, ClientInfo};
use jollypad_core::events::{parse_event, HyprEvent};
use jollypad_core::icons::{IconLoader, ImageType};
use jollypad_core::listing::get_default_items;

#[test]
fn client_list_is_shaped_for_display() {
    let infos = vec![
        ClientInfo { app_id: "org.app.One".to_string(), title: "One".to_string() },
        ClientInfo { app_id: "two".to_string(), title: "Two".to_string() },
    ];
    let clients = get_clients(infos);
    assert_eq!(clients.len(), 2);
    assert_eq!(clients[0].address, "org.app.One");
    assert_eq!(clients[0].class, "org.app.One");
    assert_eq!(clients[0].title, "One");
    assert_eq!(clients[0].workspace.id, 1);
    assert_eq!(clients[0].workspace.name, "1");
}

#[test]
fn running_game_is_the_first_nonempty_game_window() {
    let candidates = vec![
        ("".to_string(), true),
        ("browser".to_string(), false),
        ("doom".to_string(), true),
        ("quake".to_string(), true),
    ];
    assert_eq!(get_running_game(&candidates).as_deref(), Some("doom"));
    assert_eq!(get_running_game(&vec![("app".to_string(), false)]), None);
}

#[test]
fn desktop_focus_pattern_names_the_desktop_surfaces() {
    assert_eq!(show_desktop(), "^(JollyPad-Desktop|jolly-home|JollyPad-Launcher)$");
}

#[test]
fn icon_lookup_prefers_scalable_then_larger_bitmaps() {
    let loader = IconLoader::new(vec![
        (
            "game".to_string(),
            vec![
                (ImageType::SizedBitmap(48), "/i/48/game.png".to_string()),
                (ImageType::SizedBitmap(256), "/i/256/game.png".to_string()),
                (ImageType::Symbolic, "/i/sym/game.svg".to_string()),
            ],
        ),
        (
            "browser".to_string(),
            vec![
                (ImageType::Bitmap, "/i/browser.png".to_string()),
                (ImageType::Scalable, "/i/browser.svg".to_string()),
            ],
        ),
    ]);
    assert_eq!(loader.icon_path("game").as_deref(), Some("/i/256/game.png"));
    assert_eq!(loader.icon_path("browser").as_deref(), Some("/i/browser.svg"));
    assert_eq!(loader.icon_path("missing"), None);
    assert_eq!(loader.icon_path(""), None);
}

#[test]
fn active_window_event_splits_class_and_title() {
    match parse_event("activewindow>>firefox,Mozilla Firefox, nightly").unwrap() {
        HyprEvent::ActiveWindow { class, title } => {
            assert_eq!(class, "firefox");
            assert_eq!(title, "Mozilla Firefox, nightly");
        }
        other => panic!("unexpected event {:?}", other),
    }
}

#[test]
fn active_window_event_without_fields_is_the_empty_window() {
    match parse_event("activewindow>>").unwrap() {
        HyprEvent::ActiveWindow { class, title } => {
            assert_eq!(class, "");
            assert_eq!(title, "");
        }
        other => panic!("unexpected event {:?}", other),
    }
}

#[test]
fn open_window_event_needs_four_fields() {
    match parse_event("openwindow>>0xab,1,cls,My Title").unwrap() {
        HyprEvent::OpenWindow { address, workspace, class, title } => {
            assert_eq!(address, "0xab");
            assert_eq!(workspace, "1");
            assert_eq!(class, "cls");
            assert_eq!(title, "My Title");
        }
        other => panic!("unexpected event {:?}", other),
    }
    assert!(parse_event("openwindow>>0xab,1,cls").is_none());
}

#[test]
fn close_and_workspace_events_carry_their_datum() {
    match parse_event("closewindow>>0xab").unwrap() {
        HyprEvent::CloseWindow { address } => assert_eq!(address, "0xab"),
        other => panic!("unexpected event {:?}", other),
    }
    match parse_event("workspace>>3").unwrap() {
        HyprEvent::Workspace { id } => assert_eq!(id, "3"),
        other => panic!("unexpected event {:?}", other),
    }
}

#[test]
fn unrecognized_events_are_kept_whole_and_separatorless_lines_dropped() {
    match parse_event("fullscreen>>1").unwrap() {
        HyprEvent::Unknown(raw) => assert_eq!(raw, "fullscreen>>1"),
        other => panic!("unexpected event {:?}", other),
    }
    assert!(parse_event("no separator here").is_none());
}

#[test]
fn event_data_stops_at_the_second_separator() {
    match parse_event("closewindow>>abc>>tail").unwrap() {
        HyprEvent::CloseWindow { address } => assert_eq!(address, "abc"),
        other => panic!("unexpected event {:?}", other),
    }
}

#[test]
fn listing_collects_valid_manifests_and_sorts_without_case() {
    let files = vec![
        ("b1".to_string(), "[App]\nName=beta\nExec=b".to_string()),
        ("a1".to_string(), "[App]\nName=Alpha\nExec=a".to_string()),
        ("bad".to_string(), "[App]\nName=NoExec".to_string()),
        ("c1".to_string(), "[Game]\nName=carmageddon\nExec=c".to_string()),
    ];
    let items = get_default_items(files);
    let names: Vec<&str> = items.iter().map(|i| i.name.as_str()).collect();
    assert_eq!(names, vec!["Alpha", "beta", "carmageddon"]);
    assert_eq!(items[2].exec_cmd, "game-launcher c1");
}

#[test]
fn listing_order_is_not_byte_order() {
    let files = vec![
        ("x".to_string(), "[App]\nName=alpha\nExec=a".to_string()),
        ("y".to_string(), "[App]\nName=Beta\nExec=b".to_string()),
    ];
    let items = get_default_items(files);
    let names: Vec<&str> = items.iter().map(|i| i.name.as_str()).collect();
    assert_eq!(names, vec!["alpha", "Beta"]);
}
