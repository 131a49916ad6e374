use jollypad_core::config::{convert_runner, load_config, Config};
use jollypad_core::environment::{build_environment, prefix_dir};

fn lookup<'a>(envs: &'a [(String, String)], key: &str) -> Option<&'a str> {
    envs.iter().find(|(k, _)| k == key).map(|(_, v)| v.as_str())
}

#[test]
fn defaults_when_file_absent() {
    let c = load_config(None);
    assert_eq!(c.discrete_gpu, "False");
    assert_eq!(c.wayland_driver, "False");
    assert_eq!(c.enable_hdr, "False");
    assert_eq!(c.enable_wow64, "False");
    assert_eq!(c.default_runner, "Proton-GE Latest");
}

#[test]
fn settings_override_defaults_and_strip_quotes() {
    let c = load_config(Some("discrete-gpu=True\ndefault-runner=\"GE-Proton9-5\"\n"));
    assert_eq!(c.discrete_gpu, "True");
    assert_eq!(c.default_runner, "GE-Proton9-5");
    assert_eq!(c.wayland_driver, "False");
}

#[test]
fn unknown_keys_and_blank_lines_are_ignored() {
    let c = load_config(Some("\nsomething-else=True\n\nenable-hdr = True \n"));
    assert_eq!(c.enable_hdr, "True");
    assert_eq!(c.discrete_gpu, "False");
}

#[test]
fn runner_alias_table() {
    assert_eq!(convert_runner("UMU-Proton Latest"), "");
    assert_eq!(convert_runner(""), "UMU-Proton Latest");
    assert_eq!(convert_runner("GE-Proton9-5"), "GE-Proton9-5");
}

#[test]
fn wayland_and_hdr_hints_present_when_both_enabled() {
    let c = load_config(Some("wayland-driver=True\nenable-hdr=True"));
    let envs = build_environment(&c, "/r/components", "/r", "app", false);
    assert_eq!(lookup(&envs, "PROTON_ENABLE_WAYLAND"), Some("1"));
    assert_eq!(lookup(&envs, "PROTON_ENABLE_HDR"), Some("1"));
}

#[test]
fn hdr_hint_absent_when_wayland_disabled() {
    let c = load_config(Some("wayland-driver=False\nenable-hdr=True"));
    let envs = build_environment(&c, "/r/components", "/r", "app", false);
    assert_eq!(lookup(&envs, "PROTON_ENABLE_WAYLAND"), None);
    assert_eq!(lookup(&envs, "PROTON_ENABLE_HDR"), None);
}

#[test]
fn hdr_hint_absent_when_only_wayland_enabled() {
    let c = load_config(Some("wayland-driver=True"));
    let envs = build_environment(&c, "/r/components", "/r", "app", false);
    assert_eq!(lookup(&envs, "PROTON_ENABLE_WAYLAND"), Some("1"));
    assert_eq!(lookup(&envs, "PROTON_ENABLE_HDR"), None);
}

#[test]
fn base_environment_is_always_present() {
    let c = Config::default();
    let envs = build_environment(&c, "/root/components", "/root", "game1", false);
    assert_eq!(lookup(&envs, "PROTON_EAC_RUNTIME"), Some("/root/components/eac"));
    assert_eq!(lookup(&envs, "PROTON_BATTLEYE_RUNTIME"), Some("/root/components/be"));
    assert_eq!(lookup(&envs, "STEAM_COMPAT_TOOLS_PATHS"), Some("/root/runners"));
    assert_eq!(lookup(&envs, "PULSE_LATENCY_MSEC"), Some("60"));
    assert_eq!(lookup(&envs, "SDL_AUDIODRIVER"), Some("pulseaudio"));
    assert_eq!(lookup(&envs, "WINE_FULLSCREEN_FSR"), Some("0"));
    assert_eq!(lookup(&envs, "WINEPREFIX"), Some("/root/prefixes/game1"));
    assert_eq!(lookup(&envs, "DRI_PRIME"), None);
    assert_eq!(lookup(&envs, "PROTON_USE_WOW64"), None);
}

#[test]
fn discrete_gpu_and_wow64_gates() {
    let c = load_config(Some("discrete-gpu=True\nenable-wow64=True"));
    let envs = build_environment(&c, "/r/components", "/r", "app", false);
    assert_eq!(lookup(&envs, "DRI_PRIME"), Some("1"));
    assert_eq!(lookup(&envs, "PROTON_USE_WOW64"), Some("1"));
}

#[test]
fn ambient_runner_path_wins() {
    let c = Config::default();
    let with_preset = build_environment(&c, "/r/components", "/r", "app", true);
    assert_eq!(lookup(&with_preset, "PROTONPATH"), None);
    let without = build_environment(&c, "/r/components", "/r", "app", false);
    assert_eq!(lookup(&without, "PROTONPATH"), Some("Proton-GE Latest"));
}

#[test]
fn aliased_runner_is_not_exported() {
    let c = load_config(Some("default-runner=UMU-Proton Latest"));
    let envs = build_environment(&c, "/r/components", "/r", "app", false);
    assert_eq!(lookup(&envs, "PROTONPATH"), None);
}

#[test]
fn prefix_dir_is_under_install_root() {
    assert_eq!(prefix_dir("/home/u/.jolly", "doom"), "/home/u/.jolly/prefixes/doom");
}
