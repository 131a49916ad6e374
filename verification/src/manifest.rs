//! The application-manifest parser: a line-oriented, section-delimited
//! key/value format. Recognized sections are `App`, `Game` and `Env`
//! (the contents of `Env` are not consumed here); recognized keys are
//! `Name`, `Icon`, `Exec`, `Category` and `Type`. A manifest is a game
//! when it has a `[Game]` section or a `Type=Game` key in a recognized
//! section. Byte-order marks around lines, keys and values are stripped.
use vstd::prelude::*;
use vstd::string::StringExecFns;

use crate::strutil::clean_part;
use crate::strutil::count_leading;
use crate::strutil::find_char_from;
use crate::strutil::lemma_count_leading_unique;
use crate::strutil::neq_pred;
use crate::strutil::seq_eq_ci;
use crate::strutil::str_eq;
use crate::strutil::str_eq_ci;
use crate::strutil::trim_bom;
use crate::strutil::trim_ws;

verus! {

/// Parser state after consuming a prefix of the manifest's lines.
pub struct ManifestState {
    pub in_app: bool,
    pub in_game: bool,
    pub game: bool,
    pub name: Seq<char>,
    pub icon: Seq<char>,
    pub exec_target: Seq<char>,
    pub category: Seq<char>,
}

pub open spec fn init_state() -> ManifestState {
    ManifestState {
        in_app: false,
        in_game: false,
        game: false,
        name: Seq::empty(),
        icon: Seq::empty(),
        exec_target: Seq::empty(),
        category: Seq::empty(),
    }
}

/// The section named by a cleaned line of the shape `[ ... ]`, if any.
pub open spec fn section_name(t: Seq<char>) -> Option<Seq<char>> {
    if t.len() >= 2 && t[0] == '[' && t[t.len() - 1] == ']' {
        Some(crate::strutil::spec_trim_ws(t.subrange(1, t.len() - 1)))
    } else {
        None
    }
}

/// One step of the parser: the effect of a single raw line on the state.
pub open spec fn step_line(st: ManifestState, line: Seq<char>) -> ManifestState {
    let t = clean_part(line);
    match section_name(t) {
        Some(sec) => {
            if seq_eq_ci(sec, "App"@) {
                ManifestState { in_app: true, in_game: false, ..st }
            } else if seq_eq_ci(sec, "Game"@) {
                ManifestState { in_app: false, in_game: true, game: true, ..st }
            } else {
                ManifestState { in_app: false, in_game: false, ..st }
            }
        },
        None => {
            if (!st.in_app && !st.in_game) || t.len() == 0 {
                st
            } else {
                let i = count_leading(t, neq_pred('='));
                if i == t.len() {
                    st
                } else {
                    let key = clean_part(t.subrange(0, i));
                    let val = clean_part(t.subrange(i + 1, t.len() as int));
                    if key == "Name"@ {
                        ManifestState { name: val, ..st }
                    } else if key == "Icon"@ {
                        ManifestState { icon: val, ..st }
                    } else if key == "Exec"@ {
                        ManifestState { exec_target: val, ..st }
                    } else if key == "Category"@ {
                        ManifestState { category: val, ..st }
                    } else if key == "Type"@ && seq_eq_ci(val, "Game"@) {
                        ManifestState { game: true, ..st }
                    } else {
                        st
                    }
                }
            }
        },
    }
}

/// Folds `step_line` over the newline-separated lines of `s`.
pub open spec fn run_lines(st: ManifestState, s: Seq<char>) -> ManifestState
    decreases s.len(),
{
    let i = count_leading(s, neq_pred('\n'));
    if 0 <= i < s.len() {
        run_lines(step_line(st, s.subrange(0, i)), s.subrange(i + 1, s.len() as int))
    } else {
        step_line(st, s)
    }
}

/// Unfolds `run_lines` once, given the position of the first newline
/// (`i == s.len()` when there is none).
pub proof fn lemma_run_lines_step(st: ManifestState, s: Seq<char>, i: int)
    requires
        0 <= i <= s.len(),
        forall|j: int| 0 <= j < i ==> s[j] != '\n',
        i < s.len() ==> s[i] == '\n',
    ensures
        i < s.len() ==> run_lines(st, s) == run_lines(
            step_line(st, s.subrange(0, i)),
            s.subrange(i + 1, s.len() as int),
        ),
        i == s.len() ==> run_lines(st, s) == step_line(st, s),
{
    lemma_count_leading_unique(s, neq_pred('\n'), i);
}

/// The mathematical content of a parsed manifest.
pub struct ManifestModel {
    pub app_id: Seq<char>,
    pub name: Seq<char>,
    pub icon: Seq<char>,
    pub raw_exec: Seq<char>,
    pub category: Seq<char>,
    pub is_game: bool,
}

/// The launch command a desktop surface hands out for this manifest: the
/// raw target for plain apps, `game-launcher <id>` for games.
pub open spec fn spec_effective_exec(m: ManifestModel) -> Seq<char> {
    if m.is_game {
        "game-launcher "@ + m.app_id
    } else {
        m.raw_exec
    }
}

/// Full specification of manifest parsing: fold the lines, then apply the
/// category defaults, the identifier default and the validity rule (name
/// and effective exec target both non-empty).
pub open spec fn spec_parse_manifest(content: Seq<char>, default_id: Seq<char>) -> Option<
    ManifestModel,
> {
    let st = run_lines(init_state(), content);
    let cat1 = if st.game && st.category.len() == 0 {
        "Game"@
    } else {
        st.category
    };
    let cat = if cat1.len() == 0 {
        "App"@
    } else {
        cat1
    };
    let m = ManifestModel {
        app_id: default_id,
        name: st.name,
        icon: st.icon,
        raw_exec: st.exec_target,
        category: cat,
        is_game: st.game,
    };
    if st.name.len() > 0 && spec_effective_exec(m).len() > 0 {
        Some(m)
    } else {
        None
    }
}

/// A parsed application manifest, kept with its raw exec target.
#[derive(Debug, Clone)]
pub struct AppManifest {
    pub app_id: String,
    pub name: String,
    pub icon: String,
    pub raw_exec: String,
    pub category: String,
    pub is_game: bool,
}

impl View for AppManifest {
    type V = ManifestModel;

    open spec fn view(&self) -> ManifestModel {
        ManifestModel {
            app_id: self.app_id@,
            name: self.name@,
            icon: self.icon@,
            raw_exec: self.raw_exec@,
            category: self.category@,
            is_game: self.is_game,
        }
    }
}

/// A manifest as a desktop surface displays it: the exec field already
/// holds the effective launch command.
pub struct AppItemModel {
    pub name: Seq<char>,
    pub icon: Seq<char>,
    pub exec_cmd: Seq<char>,
    pub app_id: Seq<char>,
    pub category: Seq<char>,
}

pub open spec fn spec_item_of(m: ManifestModel) -> AppItemModel {
    AppItemModel {
        name: m.name,
        icon: m.icon,
        exec_cmd: spec_effective_exec(m),
        app_id: m.app_id,
        category: m.category,
    }
}

/// A displayable application entry.
#[derive(Debug, Clone)]
pub struct AppItem {
    pub name: String,
    pub icon: String,
    pub exec_cmd: String,
    pub app_id: String,
    pub category: String,
}

impl View for AppItem {
    type V = AppItemModel;

    open spec fn view(&self) -> AppItemModel {
        AppItemModel {
            name: self.name@,
            icon: self.icon@,
            exec_cmd: self.exec_cmd@,
            app_id: self.app_id@,
            category: self.category@,
        }
    }
}

/// Exec-side parser accumulator mirroring `ManifestState`.
struct Acc {
    in_app: bool,
    in_game: bool,
    game: bool,
    name: String,
    icon: String,
    exec_target: String,
    category: String,
}

impl View for Acc {
    type V = ManifestState;

    closed spec fn view(&self) -> ManifestState {
        ManifestState {
            in_app: self.in_app,
            in_game: self.in_game,
            game: self.game,
            name: self.name@,
            icon: self.icon@,
            exec_target: self.exec_target@,
            category: self.category@,
        }
    }
}

fn fresh_acc() -> (r: Acc)
    ensures
        r@ == init_state(),
{
    Acc {
        in_app: false,
        in_game: false,
        game: false,
        name: String::new(),
        icon: String::new(),
        exec_target: String::new(),
        category: String::new(),
    }
}

/// Applies one raw manifest line to the accumulator.
fn apply_line(acc: Acc, line: &str) -> (r: Acc)
    ensures
        r@ == step_line(acc@, line@),
{
    let cleaned = trim_bom(trim_ws(line));
    let n = cleaned.unicode_len();
    if n >= 2 && cleaned.get_char(0) == '[' && cleaned.get_char(n - 1) == ']' {
        let sec = trim_ws(cleaned.substring_char(1, n - 1));
        proof {
            assert(cleaned@.subrange(1, n - 1) =~= clean_part(line@).subrange(
                1,
                clean_part(line@).len() - 1,
            ));
        }
        if str_eq_ci(sec, "App") {
            Acc { in_app: true, in_game: false, ..acc }
        } else if str_eq_ci(sec, "Game") {
            Acc { in_app: false, in_game: true, game: true, ..acc }
        } else {
            Acc { in_app: false, in_game: false, ..acc }
        }
    } else if (!acc.in_app && !acc.in_game) || n == 0 {
        acc
    } else {
        match find_char_from(cleaned, '=', 0) {
            None => {
                proof {
                    lemma_count_leading_unique(cleaned@, neq_pred('='), n as int);
                }
                acc
            },
            Some(i) => {
                proof {
                    lemma_count_leading_unique(cleaned@, neq_pred('='), i as int);
                }
                let key = trim_bom(trim_ws(cleaned.substring_char(0, i)));
                let val_str = trim_bom(trim_ws(cleaned.substring_char(i + 1, n)));
                if str_eq(key, "Name") {
                    Acc { name: val_str.to_owned(), ..acc }
                } else if str_eq(key, "Icon") {
                    Acc { icon: val_str.to_owned(), ..acc }
                } else if str_eq(key, "Exec") {
                    Acc { exec_target: val_str.to_owned(), ..acc }
                } else if str_eq(key, "Category") {
                    Acc { category: val_str.to_owned(), ..acc }
                } else if str_eq(key, "Type") && str_eq_ci(val_str, "Game") {
                    Acc { game: true, ..acc }
                } else {
                    acc
                }
            },
        }
    }
}

/// Parses a manifest file's content; `default_app_id` (normally the file
/// name stem) becomes the application identifier.
pub fn parse_manifest(content: &str, default_app_id: &str) -> (r: Option<AppManifest>)
    ensures
        (r is Some) == (spec_parse_manifest(content@, default_app_id@) is Some),
        r matches Some(m) ==> spec_parse_manifest(content@, default_app_id@) == Some(m@),
{
    let n = content.unicode_len();
    let mut acc = fresh_acc();
    let mut pos: usize = 0;
    proof {
        assert(content@.subrange(0, n as int) =~= content@);
    }
    loop
        invariant_except_break
            n == content@.len(),
            pos <= n,
            run_lines(init_state(), content@) == run_lines(
                acc@,
                content@.subrange(pos as int, n as int),
            ),
        ensures
            acc@ == run_lines(init_state(), content@),
        decreases n + 1 - pos,
    {
        let ghost rem = content@.subrange(pos as int, n as int);
        match find_char_from(content, '\n', pos) {
            Some(j) => {
                let line = content.substring_char(pos, j);
                proof {
                    assert(rem[j - pos] == '\n');
                    assert(forall|k: int| 0 <= k < j - pos ==> rem[k] != '\n');
                    lemma_run_lines_step(acc@, rem, j - pos);
                    assert(rem.subrange(0, j - pos) =~= line@);
                    assert(rem.subrange(j + 1 - pos, rem.len() as int) =~= content@.subrange(
                        j + 1,
                        n as int,
                    ));
                }
                acc = apply_line(acc, line);
                pos = j + 1;
            },
            None => {
                let line = content.substring_char(pos, n);
                proof {
                    assert(forall|k: int| 0 <= k < rem.len() ==> rem[k] != '\n');
                    lemma_run_lines_step(acc@, rem, rem.len() as int);
                    assert(rem =~= line@);
                }
                acc = apply_line(acc, line);
                break ;
            },
        }
    }
    let game = acc.game;
    let mut category = acc.category;
    if game && category.as_str().is_empty() {
        category = "Game".to_owned();
    }
    if category.as_str().is_empty() {
        category = "App".to_owned();
    }
    let m = AppManifest {
        app_id: default_app_id.to_owned(),
        name: acc.name,
        icon: acc.icon,
        raw_exec: acc.exec_target,
        category,
        is_game: game,
    };
    let eff = effective_exec(&m);
    if !m.name.as_str().is_empty() && !eff.as_str().is_empty() {
        Some(m)
    } else {
        None
    }
}

/// The launch command handed out for this manifest.
pub fn effective_exec(m: &AppManifest) -> (r: String)
    ensures
        r@ == spec_effective_exec(m@),
{
    if m.is_game {
        let mut s = "game-launcher ".to_owned();
        s.append(m.app_id.as_str());
        s
    } else {
        m.raw_exec.clone()
    }
}

/// Parses a manifest into a displayable entry, as the desktop grid uses it.
pub fn parse_ini_app(content: &str, default_app_id: &str) -> (r: Option<AppItem>)
    ensures
        (r is Some) == (spec_parse_manifest(content@, default_app_id@) is Some),
        r matches Some(it) ==> spec_parse_manifest(content@, default_app_id@) matches Some(m)
            && it@ == spec_item_of(m),
{
    match parse_manifest(content, default_app_id) {
        None => None,
        Some(m) => {
            let exec_cmd = effective_exec(&m);
            Some(
                AppItem {
                    name: m.name,
                    icon: m.icon,
                    exec_cmd,
                    app_id: m.app_id,
                    category: m.category,
                },
            )
        },
    }
}

/// Whether the named application is classified as a game: its manifest
/// exists, parses, and carries the game classification. `content` is the
/// manifest file's text, or `None` where the file does not exist.
pub fn is_game_app(content: Option<&str>, app_id: &str) -> (r: bool)
    ensures
        content matches Some(c) ==> r == (spec_parse_manifest(c@, app_id@) matches Some(m)
            && m.is_game),
        content is None ==> r == false,
{
    match content {
        None => false,
        Some(c) => {
            match parse_manifest(c, app_id) {
                Some(m) => m.is_game,
                None => false,
            }
        },
    }
}

/// Every manifest the parser accepts has a non-empty display name and a
/// non-empty effective launch command.
pub proof fn lemma_accepted_manifest_is_wellformed(content: Seq<char>, default_id: Seq<char>)
    ensures
        spec_parse_manifest(content, default_id) matches Some(m) ==> m.name.len() > 0
            && spec_effective_exec(m).len() > 0,
{
}

/// A line that opens the game section.
pub open spec fn is_game_section_line(line: Seq<char>) -> bool {
    section_name(clean_part(line)) matches Some(sec) && seq_eq_ci(sec, "Game"@)
}

/// A key line that sets the game classification: `Type=Game` up to ASCII
/// case and surrounding marks, outside any section header.
pub open spec fn is_game_type_line(line: Seq<char>) -> bool {
    let t = clean_part(line);
    section_name(t) is None && {
        let i = count_leading(t, neq_pred('='));
        i < t.len() && clean_part(t.subrange(0, i)) == "Type"@ && seq_eq_ci(
            clean_part(t.subrange(i + 1, t.len() as int)),
            "Game"@,
        )
    }
}

/// Classification, line by line: a line sets the game flag exactly when
/// it opens the game section, or carries `Type=Game` while a recognized
/// section is open; no line ever clears the flag.
pub proof fn lemma_step_game_classification(st: ManifestState, line: Seq<char>)
    ensures
        step_line(st, line).game == (st.game || is_game_section_line(line) || (is_game_type_line(
            line,
        ) && (st.in_app || st.in_game))),
{
    reveal_strlit("App");
    reveal_strlit("Game");
    reveal_strlit("Name");
    reveal_strlit("Icon");
    reveal_strlit("Exec");
    reveal_strlit("Category");
    reveal_strlit("Type");
    let t = clean_part(line);
    if section_name(t) is Some {
        let sec = section_name(t)->Some_0;
        assert(!is_game_type_line(line));
        if seq_eq_ci(sec, "App"@) {
            assert(!seq_eq_ci(sec, "Game"@));
            assert(!is_game_section_line(line));
        } else if seq_eq_ci(sec, "Game"@) {
            assert(is_game_section_line(line));
        } else {
            assert(!is_game_section_line(line));
        }
    } else {
        assert(!is_game_section_line(line));
        if (!st.in_app && !st.in_game) || t.len() == 0 {
            if t.len() == 0 {
                assert(count_leading(t, neq_pred('=')) == 0);
                assert(!is_game_type_line(line));
            }
        } else {
            let i = count_leading(t, neq_pred('='));
            crate::strutil::lemma_count_leading_bounds(t, neq_pred('='));
            if i < t.len() {
                let key = clean_part(t.subrange(0, i));
                let val = clean_part(t.subrange(i + 1, t.len() as int));
                if key == "Name"@ || key == "Icon"@ || key == "Exec"@ || key == "Category"@ {
                    assert("Name"@[0] == 'N' && "Icon"@[0] == 'I' && "Exec"@[0] == 'E' && "Type"@[0]
                        == 'T');
                    assert("Category"@.len() == 8 && "Type"@.len() == 4);
                    assert(key != "Type"@);
                    assert(!is_game_type_line(line));
                } else if key == "Type"@ && seq_eq_ci(val, "Game"@) {
                    assert(is_game_type_line(line));
                } else {
                    assert(!is_game_type_line(line));
                }
            } else {
                assert(!is_game_type_line(line));
            }
        }
    }
}

/// The game flag never clears: a manifest classified as a game by some
/// prefix of its lines stays classified as a game by the whole.
pub proof fn lemma_game_flag_monotone(st: ManifestState, s: Seq<char>)
    requires
        st.game,
    ensures
        run_lines(st, s).game,
    decreases s.len(),
{
    crate::strutil::lemma_count_leading_bounds(s, neq_pred('\n'));
    let i = count_leading(s, neq_pred('\n'));
    if 0 <= i < s.len() {
        lemma_step_game_classification(st, s.subrange(0, i));
        lemma_game_flag_monotone(
            step_line(st, s.subrange(0, i)),
            s.subrange(i + 1, s.len() as int),
        );
    } else {
        lemma_step_game_classification(st, s);
    }
}

} // verus!
