use jollypad_core::manifest::{is_game_app, parse_ini_app, parse_manifest};

#[test]
fn test_parse_loose_ini() {
    let content = r#"
        [App]
        Name=Test App
        Icon=test.png
        Exec=test_exec
        "#;
    let app = parse_ini_app(content, "test.app").unwrap();
    assert_eq!(app.name, "Test App");
    assert_eq!(app.icon, "test.png");
    assert_eq!(app.exec_cmd, "test_exec");
}

#[test]
fn test_bom_header() {
    let content = "\u{FEFF}[Game]\nName=Test Game\nType=Game\nIcon=test.png\nExec=test";
    let app = parse_ini_app(content, "com.test").unwrap();
    assert_eq!(app.name, "Test Game");
}

#[test]
fn game_section_alone_classifies_as_game() {
    let m = parse_manifest("[Game]\nName=G\nExec=run", "g").unwrap();
    assert!(m.is_game);
}

#[test]
fn type_key_alone_classifies_as_game() {
    let m = parse_manifest("[App]\nName=G\nType=Game\nExec=run", "g").unwrap();
    assert!(m.is_game);
}

#[test]
fn game_section_and_type_key_classify_as_game() {
    let m = parse_manifest("[Game]\nName=G\nType=Game\nExec=run", "g").unwrap();
    assert!(m.is_game);
}

#[test]
fn neither_marker_classifies_as_app() {
    let m = parse_manifest("[App]\nName=A\nExec=run", "a").unwrap();
    assert!(!m.is_game);
}

#[test]
fn app_manifest_round_trip() {
    let item = parse_ini_app("[App]\nName=Chess\nExec=/usr/bin/chess\nIcon=chess", "chess")
        .unwrap();
    assert_eq!(item.name, "Chess");
    assert_eq!(item.exec_cmd, "/usr/bin/chess");
    assert_eq!(item.icon, "chess");
    assert_eq!(item.category, "App");
    let m = parse_manifest("[App]\nName=Chess\nExec=/usr/bin/chess\nIcon=chess", "chess")
        .unwrap();
    assert!(!m.is_game);
}

#[test]
fn game_manifest_wraps_exec() {
    let item = parse_ini_app("[Game]\nName=Doom\nExec=doom.exe", "doom").unwrap();
    assert_eq!(item.exec_cmd, "game-launcher doom");
    assert_eq!(item.category, "Game");
    let m = parse_manifest("[Game]\nName=Doom\nExec=doom.exe", "doom").unwrap();
    assert!(m.is_game);
    assert_eq!(m.raw_exec, "doom.exe");
}

#[test]
fn empty_name_is_rejected() {
    assert!(parse_ini_app("[App]\nName=\nExec=run", "x").is_none());
}

#[test]
fn missing_exec_is_rejected() {
    assert!(parse_ini_app("[App]\nName=Some App\nIcon=i", "x").is_none());
}

#[test]
fn keys_outside_any_section_are_ignored() {
    assert!(parse_ini_app("Name=Loose\nExec=run", "x").is_none());
}

#[test]
fn env_section_contents_are_not_consumed() {
    let item = parse_ini_app("[App]\nName=A\nExec=run\n[Env]\nName=Shadow", "x").unwrap();
    assert_eq!(item.name, "A");
}

#[test]
fn unknown_section_suspends_key_collection() {
    let item = parse_ini_app("[App]\nName=A\nExec=run\n[Other]\nName=Shadow", "x").unwrap();
    assert_eq!(item.name, "A");
}

#[test]
fn section_names_ignore_ascii_case() {
    let m = parse_manifest("[gAmE]\nName=G\nExec=run", "g").unwrap();
    assert!(m.is_game);
}

#[test]
fn type_value_ignores_ascii_case() {
    let m = parse_manifest("[App]\nName=G\nType=gAME\nExec=run", "g").unwrap();
    assert!(m.is_game);
}

#[test]
fn explicit_category_is_kept() {
    let item = parse_ini_app("[Game]\nName=G\nExec=run\nCategory=Arcade", "g").unwrap();
    assert_eq!(item.category, "Arcade");
}

#[test]
fn app_id_defaults_to_file_stem() {
    let item = parse_ini_app("[App]\nName=A\nExec=run", "org.example.app").unwrap();
    assert_eq!(item.app_id, "org.example.app");
}

#[test]
fn bom_around_keys_and_values_is_stripped() {
    let content = "[App]\n\u{FEFF}Name\u{FEFF}=\u{FEFF}Clean\u{FEFF}\nExec=run";
    let item = parse_ini_app(content, "x").unwrap();
    assert_eq!(item.name, "Clean");
}

#[test]
fn game_without_exec_key_still_wraps() {
    let item = parse_ini_app("[Game]\nName=G", "g").unwrap();
    assert_eq!(item.exec_cmd, "game-launcher g");
}

#[test]
fn is_game_app_reads_classification() {
    assert!(is_game_app(Some("[Game]\nName=G\nExec=run"), "g"));
    assert!(!is_game_app(Some("[App]\nName=A\nExec=run"), "a"));
    assert!(!is_game_app(Some("[Game]\nName=\nExec=run"), "g"));
    assert!(!is_game_app(None, "g"));
}
