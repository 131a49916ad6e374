//! The configuration store: a flat `key=value` settings file over
//! documented defaults. Values may be surrounded by double quotes.
//! Only the keys this subsystem consumes are retained.
use vstd::prelude::*;

use crate::strutil::count_leading;
use crate::strutil::find_char_from;
use crate::strutil::lemma_count_leading_unique;
use crate::strutil::neq_pred;
use crate::strutil::spec_trim_char;
use crate::strutil::spec_trim_ws;
use crate::strutil::str_eq;
use crate::strutil::trim_char_ends;
use crate::strutil::trim_ws;

verus! {

/// The mathematical content of a configuration.
pub struct ConfigModel {
    pub discrete_gpu: Seq<char>,
    pub wayland_driver: Seq<char>,
    pub enable_hdr: Seq<char>,
    pub enable_wow64: Seq<char>,
    pub default_runner: Seq<char>,
}

/// The documented defaults, used when the settings file is absent or
/// leaves a key unset.
pub open spec fn default_config() -> ConfigModel {
    ConfigModel {
        discrete_gpu: "False"@,
        wayland_driver: "False"@,
        enable_hdr: "False"@,
        enable_wow64: "False"@,
        default_runner: "Proton-GE Latest"@,
    }
}

/// One settings line: `key=value`, key trimmed, value trimmed and
/// unquoted. Lines without `=` and unknown keys change nothing.
pub open spec fn step_config(st: ConfigModel, line: Seq<char>) -> ConfigModel {
    let i = count_leading(line, neq_pred('='));
    if i == line.len() {
        st
    } else {
        let key = spec_trim_ws(line.subrange(0, i));
        let val = spec_trim_char(spec_trim_ws(line.subrange(i + 1, line.len() as int)), '"');
        if key == "discrete-gpu"@ {
            ConfigModel { discrete_gpu: val, ..st }
        } else if key == "wayland-driver"@ {
            ConfigModel { wayland_driver: val, ..st }
        } else if key == "enable-hdr"@ {
            ConfigModel { enable_hdr: val, ..st }
        } else if key == "enable-wow64"@ {
            ConfigModel { enable_wow64: val, ..st }
        } else if key == "default-runner"@ {
            ConfigModel { default_runner: val, ..st }
        } else {
            st
        }
    }
}

/// Folds `step_config` over the newline-separated lines of `s`.
pub open spec fn run_config(st: ConfigModel, s: Seq<char>) -> ConfigModel
    decreases s.len(),
{
    let i = count_leading(s, neq_pred('\n'));
    if 0 <= i < s.len() {
        run_config(step_config(st, s.subrange(0, i)), s.subrange(i + 1, s.len() as int))
    } else {
        step_config(st, s)
    }
}

pub proof fn lemma_run_config_step(st: ConfigModel, s: Seq<char>, i: int)
    requires
        0 <= i <= s.len(),
        forall|j: int| 0 <= j < i ==> s[j] != '\n',
        i < s.len() ==> s[i] == '\n',
    ensures
        i < s.len() ==> run_config(st, s) == run_config(
            step_config(st, s.subrange(0, i)),
            s.subrange(i + 1, s.len() as int),
        ),
        i == s.len() ==> run_config(st, s) == step_config(st, s),
{
    lemma_count_leading_unique(s, neq_pred('\n'), i);
}

/// The configuration a settings file's content denotes.
pub open spec fn spec_config_of(content: Seq<char>) -> ConfigModel {
    run_config(default_config(), content)
}

/// The loaded configuration. Keys not listed here are read by nobody in
/// this subsystem and are dropped at load time.
#[derive(Debug, Clone)]
pub struct Config {
    pub discrete_gpu: String,
    pub wayland_driver: String,
    pub enable_hdr: String,
    pub enable_wow64: String,
    pub default_runner: String,
}

impl View for Config {
    type V = ConfigModel;

    open spec fn view(&self) -> ConfigModel {
        ConfigModel {
            discrete_gpu: self.discrete_gpu@,
            wayland_driver: self.wayland_driver@,
            enable_hdr: self.enable_hdr@,
            enable_wow64: self.enable_wow64@,
            default_runner: self.default_runner@,
        }
    }
}

impl Default for Config {
    /// The documented default configuration.
    fn default() -> (c: Config)
        ensures
            c@ == default_config(),
    {
        Config {
            discrete_gpu: "False".to_owned(),
            wayland_driver: "False".to_owned(),
            enable_hdr: "False".to_owned(),
            enable_wow64: "False".to_owned(),
            default_runner: "Proton-GE Latest".to_owned(),
        }
    }
}

/// Applies one settings line to the configuration.
fn apply_config_line(cfg: Config, line: &str) -> (r: Config)
    ensures
        r@ == step_config(cfg@, line@),
{
    let n = line.unicode_len();
    match find_char_from(line, '=', 0) {
        None => {
            proof {
                lemma_count_leading_unique(line@, neq_pred('='), n as int);
            }
            cfg
        },
        Some(i) => {
            proof {
                lemma_count_leading_unique(line@, neq_pred('='), i as int);
            }
            let key = trim_ws(line.substring_char(0, i));
            let val_str = trim_char_ends(trim_ws(line.substring_char(i + 1, n)), '"');
            if str_eq(key, "discrete-gpu") {
                Config { discrete_gpu: val_str.to_owned(), ..cfg }
            } else if str_eq(key, "wayland-driver") {
                Config { wayland_driver: val_str.to_owned(), ..cfg }
            } else if str_eq(key, "enable-hdr") {
                Config { enable_hdr: val_str.to_owned(), ..cfg }
            } else if str_eq(key, "enable-wow64") {
                Config { enable_wow64: val_str.to_owned(), ..cfg }
            } else if str_eq(key, "default-runner") {
                Config { default_runner: val_str.to_owned(), ..cfg }
            } else {
                cfg
            }
        },
    }
}

/// Loads the configuration from a settings file's content; `None` stands
/// for an absent file and yields the defaults.
pub fn load_config(content: Option<&str>) -> (c: Config)
    ensures
        content matches Some(s) ==> c@ == spec_config_of(s@),
        content is None ==> c@ == default_config(),
{
    let mut cfg = Config::default();
    let text = match content {
        None => {
            return cfg;
        },
        Some(s) => s,
    };
    let n = text.unicode_len();
    let mut pos: usize = 0;
    proof {
        assert(text@.subrange(0, n as int) =~= text@);
    }
    loop
        invariant_except_break
            n == text@.len(),
            pos <= n,
            spec_config_of(text@) == run_config(cfg@, text@.subrange(pos as int, n as int)),
        ensures
            cfg@ == spec_config_of(text@),
        decreases n + 1 - pos,
    {
        let ghost rem = text@.subrange(pos as int, n as int);
        match find_char_from(text, '\n', pos) {
            Some(j) => {
                let line = text.substring_char(pos, j);
                proof {
                    assert(rem[j - pos] == '\n');
                    assert(forall|k: int| 0 <= k < j - pos ==> rem[k] != '\n');
                    lemma_run_config_step(cfg@, rem, j - pos);
                    assert(rem.subrange(0, j - pos) =~= line@);
                    assert(rem.subrange(j + 1 - pos, rem.len() as int) =~= text@.subrange(
                        j + 1,
                        n as int,
                    ));
                }
                cfg = apply_config_line(cfg, line);
                pos = j + 1;
            },
            None => {
                let line = text.substring_char(pos, n);
                proof {
                    assert(forall|k: int| 0 <= k < rem.len() ==> rem[k] != '\n');
                    lemma_run_config_step(cfg@, rem, rem.len() as int);
                    assert(rem =~= line@);
                }
                cfg = apply_config_line(cfg, line);
                break ;
            },
        }
    }
    cfg
}

/// The runner-name alias table: the bundled runner name and the empty
/// string stand for one another, every other name passes through.
pub open spec fn spec_convert_runner(s: Seq<char>) -> Seq<char> {
    if s == "UMU-Proton Latest"@ {
        Seq::empty()
    } else if s.len() == 0 {
        "UMU-Proton Latest"@
    } else {
        s
    }
}

/// Maps a configured runner name through the alias table.
pub fn convert_runner(runner: &str) -> (r: String)
    ensures
        r@ == spec_convert_runner(runner@),
{
    proof {
        reveal_strlit("");
    }
    if str_eq(runner, "UMU-Proton Latest") {
        String::new()
    } else if str_eq(runner, "") {
        "UMU-Proton Latest".to_owned()
    } else {
        proof {
            if runner@.len() == 0 {
                assert(runner@ =~= ""@);
            }
        }
        runner.to_owned()
    }
}

} // verus!
