use jollypad_core::update::{
    check_component, component_asset_names, component_download_url, default_vdf,
    plan_archive_install, select_archive_asset, select_extracted_dir, state_after_install,
    umu_download_url, Asset, ComponentState, UpdateDecision, UpdateError,
};

#[test]
fn absent_marker_triggers_install_and_marker_records_tag() {
    let state = ComponentState { marker: None, target_present: true };
    assert_eq!(check_component(&state, "v2"), UpdateDecision::Install);
    let after = state_after_install("v2");
    assert_eq!(after.marker.as_deref(), Some("v2"));
    assert!(after.target_present);
    assert_eq!(check_component(&after, "v2"), UpdateDecision::AlreadyCurrent);
}

#[test]
fn matching_marker_is_already_current() {
    let state = ComponentState { marker: Some("v5".to_string()), target_present: true };
    assert_eq!(check_component(&state, "v5"), UpdateDecision::AlreadyCurrent);
}

#[test]
fn stale_marker_triggers_install() {
    let state = ComponentState { marker: Some("v1".to_string()), target_present: true };
    assert_eq!(check_component(&state, "v2"), UpdateDecision::Install);
}

#[test]
fn missing_install_path_triggers_install_despite_marker() {
    let state = ComponentState { marker: Some("v2".to_string()), target_present: false };
    assert_eq!(check_component(&state, "v2"), UpdateDecision::Install);
}

fn asset(name: &str) -> Asset {
    Asset { name: name.to_string(), url: format!("https://example.invalid/{name}") }
}

#[test]
fn archive_selection_skips_checksums() {
    let assets = vec![
        asset("GE-Proton9-5.sha512sum"),
        asset("GE-Proton9-5.tar.gz"),
        asset("GE-Proton9-5.tar.xz"),
    ];
    assert_eq!(select_archive_asset(&assets), Some(1));
}

#[test]
fn archive_selection_fails_without_matching_asset() {
    let assets = vec![asset("notes.txt"), asset("build.sha512")];
    assert_eq!(select_archive_asset(&assets), None);
}

#[test]
fn extracted_dir_selection_skips_canonical_name() {
    let names = vec![
        "Proton-GE Latest".to_string(),
        "files".to_string(),
        "GE-Proton9-5".to_string(),
    ];
    assert_eq!(select_extracted_dir(&names), Some(2));
    assert_eq!(select_extracted_dir(&vec!["Proton-GE Latest".to_string()]), None);
}

#[test]
fn download_urls_are_formed_from_the_tag() {
    assert_eq!(
        umu_download_url("v1.2"),
        "https://github.com/Faugus/umu-launcher/releases/download/v1.2/umu-run"
    );
    assert_eq!(
        component_download_url("v3", "eac.tar.gz"),
        "https://github.com/Faugus/components/releases/download/v3/eac.tar.gz"
    );
}

#[test]
fn both_anti_cheat_archives_are_always_fetched() {
    let names = component_asset_names();
    assert_eq!(names, vec!["eac.tar.gz".to_string(), "be.tar.gz".to_string()]);
}

#[test]
fn vdf_descriptor_names_the_canonical_runner() {
    let vdf = default_vdf();
    assert!(vdf.starts_with("\"compatibilitytools\""));
    assert!(vdf.contains("\"Proton-GE Latest\""));
    assert!(vdf.contains("\"from_oslist\"  \"windows\""));
}

#[test]
fn archive_install_plan_reports_the_missing_asset() {
    let assets = vec![asset("notes.txt")];
    let err = plan_archive_install(&assets).unwrap_err();
    assert_eq!(err, UpdateError::NoMatchingAsset);
    assert_eq!(err.describe(), "no matching release asset");
    assert_eq!(
        UpdateError::ExtractionFailed.describe(),
        "archive extraction failed"
    );
    assert_eq!(
        UpdateError::ExtractedDirMissing.describe(),
        "extracted runtime directory not found"
    );
    let good = vec![asset("GE-Proton9-5.tar.gz")];
    assert_eq!(plan_archive_install(&good), Ok(0));
}
