//! The environment builder: the variable set a compatibility-runner
//! launch needs, derived from the configuration and the application's
//! identity. Boolean configuration values are the literal strings
//! `"True"` / `"False"`. The caller's own environment is consulted only
//! through the explicit `protonpath_preset` snapshot: an ambient runner
//! path wins over the configured one.
use vstd::prelude::*;
use vstd::string::StringExecFns;

use crate::config::Config;
use crate::config::ConfigModel;
use crate::config::convert_runner;
use crate::config::spec_convert_runner;
use crate::strutil::str_eq;

verus! {

/// The views of a list of environment entries.
pub open spec fn pairs_view(v: Seq<(String, String)>) -> Seq<(Seq<char>, Seq<char>)> {
    Seq::new(v.len(), |i: int| (v[i].0@, v[i].1@))
}

/// Whether some entry binds the key `k`.
pub open spec fn env_has_key(s: Seq<(Seq<char>, Seq<char>)>, k: Seq<char>) -> bool {
    exists|i: int| 0 <= i < s.len() && (#[trigger] s[i]).0 == k
}

/// The exact environment a launch receives, in order: the anti-cheat
/// runtime paths and the runner search path; the rendering hints, each
/// gated by its configuration flag (the HDR hint further gated by the
/// windowing hint); the audio tuning values and the scaling disable flag;
/// the per-application state directory; and the resolved runner path,
/// unless the ambient environment already carries one.
pub open spec fn spec_environment(
    c: ConfigModel,
    components_dir: Seq<char>,
    jolly_dir: Seq<char>,
    app_id: Seq<char>,
    protonpath_preset: bool,
) -> Seq<(Seq<char>, Seq<char>)> {
    let base = seq![
        ("PROTON_EAC_RUNTIME"@, components_dir + "/eac"@),
        ("PROTON_BATTLEYE_RUNTIME"@, components_dir + "/be"@),
        ("STEAM_COMPAT_TOOLS_PATHS"@, jolly_dir + "/runners"@),
    ];
    let gpu = if c.discrete_gpu == "True"@ {
        seq![("DRI_PRIME"@, "1"@)]
    } else {
        Seq::empty()
    };
    let wayland = if c.wayland_driver == "True"@ {
        seq![("PROTON_ENABLE_WAYLAND"@, "1"@)] + (if c.enable_hdr == "True"@ {
            seq![("PROTON_ENABLE_HDR"@, "1"@)]
        } else {
            Seq::empty()
        })
    } else {
        Seq::empty()
    };
    let wow = if c.enable_wow64 == "True"@ {
        seq![("PROTON_USE_WOW64"@, "1"@)]
    } else {
        Seq::empty()
    };
    let fixed = seq![
        ("PULSE_LATENCY_MSEC"@, "60"@),
        ("SDL_AUDIODRIVER"@, "pulseaudio"@),
        ("WINE_FULLSCREEN_FSR"@, "0"@),
        ("WINEPREFIX"@, jolly_dir + "/prefixes/"@ + app_id),
    ];
    let runner = spec_convert_runner(c.default_runner);
    let runner_path = if !protonpath_preset && runner.len() > 0 {
        seq![("PROTONPATH"@, runner)]
    } else {
        Seq::empty()
    };
    base + gpu + wayland + wow + fixed + runner_path
}

/// Concatenation of two string slices.
pub fn join2(a: &str, b: &str) -> (r: String)
    ensures
        r@ == a@ + b@,
{
    let mut s = a.to_owned();
    s.append(b);
    s
}

/// The per-application isolated state directory under the install root.
pub fn prefix_dir(jolly_dir: &str, app_id: &str) -> (r: String)
    ensures
        r@ == jolly_dir@ + "/prefixes/"@ + app_id@,
{
    let mut s = jolly_dir.to_owned();
    s.append("/prefixes/");
    s.append(app_id);
    s
}

/// Builds the launch environment. `protonpath_preset` is the ambient
/// snapshot: whether the calling process already exports a runner path.
pub fn build_environment(
    config: &Config,
    components_dir: &str,
    jolly_dir: &str,
    app_id: &str,
    protonpath_preset: bool,
) -> (r: Vec<(String, String)>)
    ensures
        pairs_view(r@) == spec_environment(
            config@,
            components_dir@,
            jolly_dir@,
            app_id@,
            protonpath_preset,
        ),
{
    let mut envs: Vec<(String, String)> = Vec::new();
    envs.push(("PROTON_EAC_RUNTIME".to_owned(), join2(components_dir, "/eac")));
    envs.push(("PROTON_BATTLEYE_RUNTIME".to_owned(), join2(components_dir, "/be")));
    envs.push(("STEAM_COMPAT_TOOLS_PATHS".to_owned(), join2(jolly_dir, "/runners")));
    if str_eq(config.discrete_gpu.as_str(), "True") {
        envs.push(("DRI_PRIME".to_owned(), "1".to_owned()));
    }
    if str_eq(config.wayland_driver.as_str(), "True") {
        envs.push(("PROTON_ENABLE_WAYLAND".to_owned(), "1".to_owned()));
        if str_eq(config.enable_hdr.as_str(), "True") {
            envs.push(("PROTON_ENABLE_HDR".to_owned(), "1".to_owned()));
        }
    }
    if str_eq(config.enable_wow64.as_str(), "True") {
        envs.push(("PROTON_USE_WOW64".to_owned(), "1".to_owned()));
    }
    envs.push(("PULSE_LATENCY_MSEC".to_owned(), "60".to_owned()));
    envs.push(("SDL_AUDIODRIVER".to_owned(), "pulseaudio".to_owned()));
    envs.push(("WINE_FULLSCREEN_FSR".to_owned(), "0".to_owned()));
    envs.push(("WINEPREFIX".to_owned(), prefix_dir(jolly_dir, app_id)));
    if !protonpath_preset {
        let runner = convert_runner(config.default_runner.as_str());
        if !runner.as_str().is_empty() {
            envs.push(("PROTONPATH".to_owned(), runner));
        }
    }
    proof {
        assert(pairs_view(envs@) =~= spec_environment(
            config@,
            components_dir@,
            jolly_dir@,
            app_id@,
            protonpath_preset,
        ));
    }
    envs
}

/// Splitting `env_has_key` over concatenation.
pub proof fn lemma_env_has_key_concat(
    a: Seq<(Seq<char>, Seq<char>)>,
    b: Seq<(Seq<char>, Seq<char>)>,
    k: Seq<char>,
)
    ensures
        env_has_key(a + b, k) == (env_has_key(a, k) || env_has_key(b, k)),
{
    if env_has_key(a, k) {
        let i = choose|i: int| 0 <= i < a.len() && (#[trigger] a[i]).0 == k;
        assert((a + b)[i] == a[i]);
    }
    if env_has_key(b, k) {
        let i = choose|i: int| 0 <= i < b.len() && (#[trigger] b[i]).0 == k;
        assert((a + b)[i + a.len()] == b[i]);
    }
    if env_has_key(a + b, k) {
        let i = choose|i: int| 0 <= i < (a + b).len() && (#[trigger] (a + b)[i]).0 == k;
        if i < a.len() {
            assert(a[i] == (a + b)[i]);
        } else {
            assert(b[i - a.len()] == (a + b)[i]);
        }
    }
}

/// `env_has_key` on a one-entry list.
pub proof fn lemma_env_has_key_singleton(p: (Seq<char>, Seq<char>), k: Seq<char>)
    ensures
        env_has_key(seq![p], k) == (p.0 == k),
{
    if p.0 == k {
        assert(seq![p][0] == p);
    }
    if env_has_key(seq![p], k) {
        let i = choose|i: int| 0 <= i < seq![p].len() && (#[trigger] seq![p][i]).0 == k;
        assert(seq![p][i] == p);
    }
}

/// Exactly which keys the built environment binds: the three search
/// paths, the three audio/scaling constants and the state directory are
/// always bound; each hint key is bound exactly when its gate holds; the
/// runner-path key is bound exactly when no ambient runner path is set
/// and the alias table resolves the configured runner to a non-empty
/// name. No other key is bound.
pub proof fn lemma_env_keys(
    c: ConfigModel,
    components_dir: Seq<char>,
    jolly_dir: Seq<char>,
    app_id: Seq<char>,
    protonpath_preset: bool,
    k: Seq<char>,
)
    ensures
        env_has_key(spec_environment(c, components_dir, jolly_dir, app_id, protonpath_preset), k)
            == (k == "PROTON_EAC_RUNTIME"@ || k == "PROTON_BATTLEYE_RUNTIME"@ || k
            == "STEAM_COMPAT_TOOLS_PATHS"@ || k == "PULSE_LATENCY_MSEC"@ || k == "SDL_AUDIODRIVER"@
            || k == "WINE_FULLSCREEN_FSR"@ || k == "WINEPREFIX"@ || (c.discrete_gpu == "True"@ && k
            == "DRI_PRIME"@) || (c.wayland_driver == "True"@ && k == "PROTON_ENABLE_WAYLAND"@) || (
        c.wayland_driver == "True"@ && c.enable_hdr == "True"@ && k == "PROTON_ENABLE_HDR"@) || (
        c.enable_wow64 == "True"@ && k == "PROTON_USE_WOW64"@) || (!protonpath_preset
            && spec_convert_runner(c.default_runner).len() > 0 && k == "PROTONPATH"@)),
{
    let base = seq![
        ("PROTON_EAC_RUNTIME"@, components_dir + "/eac"@),
        ("PROTON_BATTLEYE_RUNTIME"@, components_dir + "/be"@),
        ("STEAM_COMPAT_TOOLS_PATHS"@, jolly_dir + "/runners"@),
    ];
    let gpu = if c.discrete_gpu == "True"@ {
        seq![("DRI_PRIME"@, "1"@)]
    } else {
        Seq::empty()
    };
    let hdr = if c.enable_hdr == "True"@ {
        seq![("PROTON_ENABLE_HDR"@, "1"@)]
    } else {
        Seq::empty()
    };
    let wayland = if c.wayland_driver == "True"@ {
        seq![("PROTON_ENABLE_WAYLAND"@, "1"@)] + hdr
    } else {
        Seq::empty()
    };
    let wow = if c.enable_wow64 == "True"@ {
        seq![("PROTON_USE_WOW64"@, "1"@)]
    } else {
        Seq::empty()
    };
    let fixed = seq![
        ("PULSE_LATENCY_MSEC"@, "60"@),
        ("SDL_AUDIODRIVER"@, "pulseaudio"@),
        ("WINE_FULLSCREEN_FSR"@, "0"@),
        ("WINEPREFIX"@, jolly_dir + "/prefixes/"@ + app_id),
    ];
    let runner = spec_convert_runner(c.default_runner);
    let runner_path = if !protonpath_preset && runner.len() > 0 {
        seq![("PROTONPATH"@, runner)]
    } else {
        Seq::empty()
    };
    let s = spec_environment(c, components_dir, jolly_dir, app_id, protonpath_preset);
    assert(s == base + gpu + wayland + wow + fixed + runner_path);
    assert(base =~= seq![base[0]] + seq![base[1]] + seq![base[2]]);
    assert(fixed =~= seq![fixed[0]] + seq![fixed[1]] + seq![fixed[2]] + seq![fixed[3]]);
    lemma_env_has_key_concat(seq![base[0]], seq![base[1]], k);
    lemma_env_has_key_concat(seq![base[0]] + seq![base[1]], seq![base[2]], k);
    lemma_env_has_key_singleton(base[0], k);
    lemma_env_has_key_singleton(base[1], k);
    lemma_env_has_key_singleton(base[2], k);
    lemma_env_has_key_concat(seq![fixed[0]], seq![fixed[1]], k);
    lemma_env_has_key_concat(seq![fixed[0]] + seq![fixed[1]], seq![fixed[2]], k);
    lemma_env_has_key_concat(seq![fixed[0]] + seq![fixed[1]] + seq![fixed[2]], seq![fixed[3]], k);
    lemma_env_has_key_singleton(fixed[0], k);
    lemma_env_has_key_singleton(fixed[1], k);
    lemma_env_has_key_singleton(fixed[2], k);
    lemma_env_has_key_singleton(fixed[3], k);
    if c.discrete_gpu == "True"@ {
        lemma_env_has_key_singleton(("DRI_PRIME"@, "1"@), k);
    }
    if c.wayland_driver == "True"@ {
        lemma_env_has_key_concat(seq![("PROTON_ENABLE_WAYLAND"@, "1"@)], hdr, k);
        lemma_env_has_key_singleton(("PROTON_ENABLE_WAYLAND"@, "1"@), k);
        if c.enable_hdr == "True"@ {
            lemma_env_has_key_singleton(("PROTON_ENABLE_HDR"@, "1"@), k);
        }
    }
    if c.enable_wow64 == "True"@ {
        lemma_env_has_key_singleton(("PROTON_USE_WOW64"@, "1"@), k);
    }
    if !protonpath_preset && runner.len() > 0 {
        lemma_env_has_key_singleton(("PROTONPATH"@, runner), k);
    }
    lemma_env_has_key_concat(base, gpu, k);
    lemma_env_has_key_concat(base + gpu, wayland, k);
    lemma_env_has_key_concat(base + gpu + wayland, wow, k);
    lemma_env_has_key_concat(base + gpu + wayland + wow, fixed, k);
    lemma_env_has_key_concat(base + gpu + wayland + wow + fixed, runner_path, k);
}

/// The windowing and HDR hints are gated as the configuration says: the
/// windowing hint appears exactly when its flag is `"True"`, and the HDR
/// hint appears exactly when both its own flag and the windowing flag are
/// `"True"` — never when the windowing hint is disabled.
pub proof fn lemma_hdr_gating(
    c: ConfigModel,
    components_dir: Seq<char>,
    jolly_dir: Seq<char>,
    app_id: Seq<char>,
    protonpath_preset: bool,
)
    ensures
        env_has_key(
            spec_environment(c, components_dir, jolly_dir, app_id, protonpath_preset),
            "PROTON_ENABLE_WAYLAND"@,
        ) == (c.wayland_driver == "True"@),
        env_has_key(
            spec_environment(c, components_dir, jolly_dir, app_id, protonpath_preset),
            "PROTON_ENABLE_HDR"@,
        ) == (c.wayland_driver == "True"@ && c.enable_hdr == "True"@),
{
    reveal_strlit("PROTON_EAC_RUNTIME");
    reveal_strlit("PROTON_BATTLEYE_RUNTIME");
    reveal_strlit("STEAM_COMPAT_TOOLS_PATHS");
    reveal_strlit("DRI_PRIME");
    reveal_strlit("PROTON_ENABLE_WAYLAND");
    reveal_strlit("PROTON_ENABLE_HDR");
    reveal_strlit("PROTON_USE_WOW64");
    reveal_strlit("PULSE_LATENCY_MSEC");
    reveal_strlit("SDL_AUDIODRIVER");
    reveal_strlit("WINE_FULLSCREEN_FSR");
    reveal_strlit("WINEPREFIX");
    reveal_strlit("PROTONPATH");
    assert("PROTON_ENABLE_WAYLAND"@.len() == 21);
    assert("PROTON_ENABLE_HDR"@.len() == 17);
    lemma_env_keys(
        c,
        components_dir,
        jolly_dir,
        app_id,
        protonpath_preset,
        "PROTON_ENABLE_WAYLAND"@,
    );
    lemma_env_keys(c, components_dir, jolly_dir, app_id, protonpath_preset, "PROTON_ENABLE_HDR"@);
}

} // verus!
