//! The launch planner and command dispatch: assembles the program,
//! argument list and environment for one launch request, classifies a
//! dispatched command line, and renders a launch plan as a single shell
//! command for the compositor's execute-or-focus operation.
use vstd::prelude::*;
use vstd::string::StringExecFns;

use crate::config::Config;
use crate::config::default_config;
use crate::config::load_config;
use crate::config::spec_config_of;
use crate::environment::build_environment;
use crate::environment::join2;
use crate::environment::pairs_view;
use crate::environment::spec_environment;
use crate::manifest::parse_manifest;
use crate::manifest::spec_parse_manifest;
use crate::strutil::contains_char;
use crate::strutil::spec_tokens;
use crate::strutil::spec_trim_ws;
use crate::strutil::split_tokens;
use crate::strutil::str_contains_char;
use crate::strutil::str_eq;
use crate::strutil::str_starts_with;
use crate::strutil::strings_view;
use crate::strutil::trim_ws;

verus! {

/// What `shell_words::quote` returns for a word: a form that a Unix shell
/// parses back to exactly that word. The result depends on the characters
/// of the word alone.
pub uninterp spec fn quoted_of(s: Seq<char>) -> Seq<char>;

/// The characters that make a word need quoting in a Unix shell.
pub open spec fn is_shell_special(c: char) -> bool {
    c == '\n' || c == '\'' || c == '|' || c == '&' || c == ';' || c == '<' || c == '>' || c == '('
        || c == ')' || c == '$' || c == '`' || c == '\\' || c == '"' || c == ' ' || c == '\t' || c
        == '*' || c == '?' || c == '[' || c == '#' || c == '~' || c == '=' || c == '%'
}

/// Relies on shell_words::quote: escapes a word so it keeps its literal
/// meaning in a Unix shell command. Its source returns the word unchanged
/// when the word is non-empty and has no special character, and `''` for
/// the empty word.
#[verifier::external_body]
fn quote_word(s: &str) -> (r: String)
    ensures
        r@ == quoted_of(s@),
        s@.len() == 0 ==> r@ == "''"@,
        s@.len() > 0 && (forall|i: int| 0 <= i < s@.len() ==> !is_shell_special(s@[i])) ==> r@
            == s@,
{
    shell_words::quote(s).into_owned()
}

/// `acc` extended with `KEY=quoted-value ` for each environment entry.
pub open spec fn env_part_acc(acc: Seq<char>, pairs: Seq<(Seq<char>, Seq<char>)>) -> Seq<char>
    decreases pairs.len(),
{
    if pairs.len() == 0 {
        acc
    } else {
        env_part_acc(
            acc + pairs[0].0 + "="@ + quoted_of(pairs[0].1) + " "@,
            pairs.drop_first(),
        )
    }
}

/// `acc` extended with ` quoted-argument` for each argument.
pub open spec fn args_part_acc(acc: Seq<char>, args: Seq<Seq<char>>) -> Seq<char>
    decreases args.len(),
{
    if args.len() == 0 {
        acc
    } else {
        args_part_acc(acc + " "@ + quoted_of(args[0]), args.drop_first())
    }
}

/// The full command line for a launch plan: the environment bindings,
/// the quoted program, the quoted arguments.
pub open spec fn spec_command_of(
    envs: Seq<(Seq<char>, Seq<char>)>,
    program: Seq<char>,
    args: Seq<Seq<char>>,
) -> Seq<char> {
    args_part_acc(env_part_acc(Seq::empty(), envs) + quoted_of(program), args)
}

/// A launch plan: program, arguments and environment, handed once to the
/// external process spawner.
#[derive(Debug)]
pub struct GameLaunchInfo {
    pub program: String,
    pub args: Vec<String>,
    pub envs: Vec<(String, String)>,
}

/// Why a launch request was aborted.
#[derive(Debug, Clone, Copy, PartialEq, Eq, Structural)]
pub enum LaunchError {
    /// The application's manifest file does not exist.
    ManifestMissing,
    /// The manifest exists but the parser rejects it.
    ManifestInvalid,
}

impl LaunchError {
    /// A diagnostic naming the step that failed.
    pub fn describe(&self) -> (r: String)
        ensures
            *self == LaunchError::ManifestMissing ==> r@ == "application manifest not found"@,
            *self == LaunchError::ManifestInvalid ==> r@
                == "application manifest is missing a name or an exec target"@,
    {
        match self {
            LaunchError::ManifestMissing => "application manifest not found".to_owned(),
            LaunchError::ManifestInvalid => (
            "application manifest is missing a name or an exec target").to_owned(),
        }
    }
}

/// Assembles the launch plan for one application. `manifest_content` and
/// `config_content` are the texts of the on-disk files (`None` where the
/// file does not exist); `protonpath_preset` is the ambient-environment
/// snapshot. A missing or rejected manifest aborts the request. Games run
/// through the single-binary compatibility launcher with the raw exec
/// target as the sole argument; plain apps run through a command shell.
pub fn prepare_game_launch(
    jolly_dir: &str,
    app_id: &str,
    manifest_content: Option<&str>,
    config_content: Option<&str>,
    protonpath_preset: bool,
) -> (r: Result<GameLaunchInfo, LaunchError>)
    ensures
        match manifest_content {
            None => r matches Err(e) && e == LaunchError::ManifestMissing,
            Some(c) => match spec_parse_manifest(c@, app_id@) {
                None => r matches Err(e) && e == LaunchError::ManifestInvalid,
                Some(m) => r matches Ok(info) && pairs_view(info.envs@) == spec_environment(
                    match config_content {
                        Some(s) => spec_config_of(s@),
                        None => default_config(),
                    },
                    jolly_dir@ + "/components"@,
                    jolly_dir@,
                    app_id@,
                    protonpath_preset,
                ) && (m.is_game ==> info.program@ == jolly_dir@ + "/tools/umu-run"@
                    && strings_view(info.args@) == seq![m.raw_exec]) && (!m.is_game
                    ==> info.program@ == "sh"@ && strings_view(info.args@) == seq![
                    "-c"@,
                    m.raw_exec,
                ]),
            },
        },
{
    let config: Config = load_config(config_content);
    let components_dir = join2(jolly_dir, "/components");
    let envs = build_environment(
        &config,
        components_dir.as_str(),
        jolly_dir,
        app_id,
        protonpath_preset,
    );
    let content = match manifest_content {
        None => {
            return Err(LaunchError::ManifestMissing);
        },
        Some(c) => c,
    };
    let m = match parse_manifest(content, app_id) {
        None => {
            return Err(LaunchError::ManifestInvalid);
        },
        Some(m) => m,
    };
    if m.is_game {
        let program = join2(jolly_dir, "/tools/umu-run");
        let mut args: Vec<String> = Vec::new();
        args.push(m.raw_exec);
        proof {
            assert(strings_view(args@) =~= seq![m@.raw_exec]);
        }
        Ok(GameLaunchInfo { program, args, envs })
    } else {
        let program = "sh".to_owned();
        let mut args: Vec<String> = Vec::new();
        args.push("-c".to_owned());
        args.push(m.raw_exec);
        proof {
            assert(strings_view(args@) =~= seq!["-c"@, m@.raw_exec]);
        }
        Ok(GameLaunchInfo { program, args, envs })
    }
}

/// Renders a launch plan as one shell command: each environment binding
/// as `KEY=value`, then the program, then the arguments, every value
/// shell-quoted. The external spawner receives this single string.
pub fn build_launch_command(info: &GameLaunchInfo) -> (r: String)
    ensures
        r@ == spec_command_of(pairs_view(info.envs@), info.program@, strings_view(info.args@)),
{
    let ghost pv = pairs_view(info.envs@);
    let ghost av = strings_view(info.args@);
    let mut out = String::new();
    let mut i: usize = 0;
    proof {
        assert(pv.subrange(0, pv.len() as int) =~= pv);
    }
    while i < info.envs.len()
        invariant
            pv == pairs_view(info.envs@),
            i <= info.envs@.len(),
            pv.len() == info.envs@.len(),
            env_part_acc(Seq::empty(), pv) == env_part_acc(
                out@,
                pv.subrange(i as int, pv.len() as int),
            ),
        decreases info.envs@.len() - i,
    {
        let ghost rem = pv.subrange(i as int, pv.len() as int);
        let k = &info.envs[i].0;
        let v = &info.envs[i].1;
        proof {
            assert(rem[0] == (k@, v@));
            assert(rem.drop_first() =~= pv.subrange(i + 1, pv.len() as int));
        }
        out.append(k.as_str());
        out.append("=");
        let q = quote_word(v.as_str());
        out.append(q.as_str());
        out.append(" ");
        i = i + 1;
    }
    let qp = quote_word(info.program.as_str());
    out.append(qp.as_str());
    let mut j: usize = 0;
    proof {
        assert(pv.subrange(pv.len() as int, pv.len() as int).len() == 0);
        assert(av.subrange(0, av.len() as int) =~= av);
    }
    while j < info.args.len()
        invariant
            pv == pairs_view(info.envs@),
            av == strings_view(info.args@),
            j <= info.args@.len(),
            av.len() == info.args@.len(),
            spec_command_of(pv, info.program@, av) == args_part_acc(
                out@,
                av.subrange(j as int, av.len() as int),
            ),
        decreases info.args@.len() - j,
    {
        let ghost rem = av.subrange(j as int, av.len() as int);
        let a = &info.args[j];
        proof {
            assert(rem[0] == a@);
            assert(rem.drop_first() =~= av.subrange(j + 1, av.len() as int));
        }
        out.append(" ");
        let q = quote_word(a.as_str());
        out.append(q.as_str());
        j = j + 1;
    }
    proof {
        assert(av.subrange(av.len() as int, av.len() as int).len() == 0);
    }
    out
}

/// A token names a packaged-application identifier when it is not an
/// option and carries a dot.
pub open spec fn is_flatpak_id_token(t: Seq<char>) -> bool {
    !(t.len() >= 1 && t[0] == '-') && contains_char(t, '.')
}

/// The first identifier-shaped token at or after position `i`.
pub open spec fn first_id_from(toks: Seq<Seq<char>>, i: int) -> Option<Seq<char>>
    decreases toks.len() - i,
{
    if i < 0 || i >= toks.len() {
        None
    } else if is_flatpak_id_token(toks[i]) {
        Some(toks[i])
    } else {
        first_id_from(toks, i + 1)
    }
}

/// The application-identifier hint a packaged-application command line
/// carries: for `flatpak run ...` (bare or by absolute path), the first
/// identifier-shaped token after `run`, or failing that the last token.
pub open spec fn spec_flatpak_hint(t: Seq<char>) -> Option<Seq<char>> {
    let toks = spec_tokens(t);
    if toks.len() >= 2 && toks[0] == "flatpak"@ && toks[1] == "run"@ {
        match first_id_from(toks, 2) {
            Some(x) => Some(x),
            None => Some(toks.last()),
        }
    } else if toks.len() >= 3 && toks[0] == "/usr/bin/flatpak"@ && toks[1] == "run"@ {
        match first_id_from(toks, 2) {
            Some(x) => Some(x),
            None => Some(toks.last()),
        }
    } else {
        None
    }
}

proof fn lemma_first_id_from(toks: Seq<Seq<char>>, from: int, i: int)
    requires
        0 <= from <= i <= toks.len(),
        forall|j: int| from <= j < i ==> !is_flatpak_id_token(toks[j]),
        i < toks.len() ==> is_flatpak_id_token(toks[i]),
    ensures
        first_id_from(toks, from) == if i < toks.len() {
            Some(toks[i])
        } else {
            None::<Seq<char>>
        },
    decreases i - from,
{
    if from < i {
        lemma_first_id_from(toks, from + 1, i);
    }
}

/// Scans a token list for the identifier hint.
fn scan_flatpak_id(toks: &Vec<String>) -> (r: Option<String>)
    requires
        toks@.len() >= 2,
    ensures
        r is Some,
        r matches Some(x) ==> Some(x@) == (match first_id_from(strings_view(toks@), 2) {
            Some(y) => Some(y),
            None => Some(strings_view(toks@).last()),
        }),
{
    let ghost tv = strings_view(toks@);
    let mut i: usize = 2;
    while i < toks.len()
        invariant
            tv == strings_view(toks@),
            tv.len() == toks@.len(),
            2 <= i,
            i <= toks@.len() || toks@.len() < 2,
            toks@.len() >= 2,
            i <= toks@.len(),
            forall|j: int| 2 <= j < i ==> !is_flatpak_id_token(tv[j]),
        decreases toks@.len() - i,
    {
        let t = &toks[i];
        let not_option = if t.as_str().is_empty() {
            true
        } else {
            t.as_str().get_char(0) != '-'
        };
        if not_option && str_contains_char(t.as_str(), '.') {
            proof {
                lemma_first_id_from(tv, 2, i as int);
            }
            return Some(t.clone());
        }
        i = i + 1;
    }
    proof {
        lemma_first_id_from(tv, 2, tv.len() as int);
    }
    let last = toks[toks.len() - 1].clone();
    proof {
        assert(last@ == tv.last());
    }
    Some(last)
}

/// A dispatched command, classified.
#[derive(Debug, Clone)]
pub enum DispatchCommand {
    /// A managed game launch: resolve the launch plan for this
    /// application, then hand the rendered command to the compositor.
    GameLaunch { app_id: String },
    /// Anything else: hand the command itself to the compositor, with an
    /// application-identifier hint where one can be read off.
    External { command: String, app_id_hint: Option<String> },
}

/// The spec-level classification of a dispatched command.
pub enum DispatchModel {
    GameLaunch { app_id: Seq<char> },
    External { command: Seq<char>, app_id_hint: Option<Seq<char>> },
}

impl View for DispatchCommand {
    type V = DispatchModel;

    open spec fn view(&self) -> DispatchModel {
        match self {
            DispatchCommand::GameLaunch { app_id } => DispatchModel::GameLaunch {
                app_id: app_id@,
            },
            DispatchCommand::External { command, app_id_hint } => DispatchModel::External {
                command: command@,
                app_id_hint: match app_id_hint {
                    Some(h) => Some(h@),
                    None => None,
                },
            },
        }
    }
}

/// How a raw dispatched command line is classified: the empty command is
/// dropped; a command whose trimmed form starts with `game-launcher ` is
/// a managed game launch of the named application; anything else goes to
/// the compositor as it stands, with a packaged-application hint.
pub open spec fn spec_parse_dispatch(cmd: Seq<char>) -> Option<DispatchModel> {
    if cmd.len() == 0 {
        None
    } else {
        let t = spec_trim_ws(cmd);
        if "game-launcher "@.is_prefix_of(t) {
            Some(
                DispatchModel::GameLaunch {
                    app_id: spec_trim_ws(t.subrange("game-launcher "@.len() as int, t.len() as int)),
                },
            )
        } else {
            Some(DispatchModel::External { command: cmd, app_id_hint: spec_flatpak_hint(t) })
        }
    }
}

/// Classifies a dispatched command line.
pub fn parse_dispatch(cmd: &str) -> (r: Option<DispatchCommand>)
    ensures
        (r is Some) == (spec_parse_dispatch(cmd@) is Some),
        r matches Some(d) ==> spec_parse_dispatch(cmd@) == Some(d@),
{
    if cmd.is_empty() {
        return None;
    }
    let t = trim_ws(cmd);
    if str_starts_with(t, "game-launcher ") {
        let p = "game-launcher ".unicode_len();
        let app_id = trim_ws(t.substring_char(p, t.unicode_len()));
        Some(DispatchCommand::GameLaunch { app_id: app_id.to_owned() })
    } else {
        let toks = split_tokens(t);
        let ghost tv = strings_view(toks@);
        let hint: Option<String> = if toks.len() >= 2 && str_eq(toks[0].as_str(), "flatpak")
            && str_eq(toks[1].as_str(), "run") {
            proof {
                assert(tv[0] == toks@[0]@);
                assert(tv[1] == toks@[1]@);
            }
            scan_flatpak_id(&toks)
        } else if toks.len() >= 3 && str_eq(toks[0].as_str(), "/usr/bin/flatpak") && str_eq(
            toks[1].as_str(),
            "run",
        ) {
            proof {
                assert(tv[0] == toks@[0]@);
                assert(tv[1] == toks@[1]@);
            }
            scan_flatpak_id(&toks)
        } else {
            proof {
                if tv.len() >= 2 {
                    assert(tv[0] == toks@[0]@);
                    assert(tv[1] == toks@[1]@);
                }
            }
            None
        };
        Some(DispatchCommand::External { command: cmd.to_owned(), app_id_hint: hint })
    }
}

} // verus!
