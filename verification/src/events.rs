//! Parsing of window-manager event lines. An event line is
//! `name>>data`; the recognized events carry comma-separated fields.
use vstd::prelude::*;

use crate::strutil::count_leading;
use crate::strutil::find_char_from;
use crate::strutil::find_sub_from;
use crate::strutil::lemma_count_leading_unique;
use crate::strutil::neq_pred;
use crate::strutil::str_eq;
use crate::strutil::strings_view;

verus! {

/// The first position at or after `i` where a non-empty `pat` occurs in
/// `s`.
pub open spec fn find_sub_idx(s: Seq<char>, pat: Seq<char>, i: int) -> Option<int>
    decreases s.len() - i,
{
    if i < 0 || pat.len() == 0 || i + pat.len() > s.len() {
        None
    } else if s.subrange(i, i + pat.len()) == pat {
        Some(i)
    } else {
        find_sub_idx(s, pat, i + 1)
    }
}

proof fn lemma_find_sub_idx_some(s: Seq<char>, pat: Seq<char>, from: int, i: int)
    requires
        pat.len() >= 1,
        0 <= from <= i,
        i + pat.len() <= s.len(),
        s.subrange(i, i + pat.len()) == pat,
        forall|j: int| from <= j < i ==> #[trigger] s.subrange(j, j + pat.len()) != pat,
    ensures
        find_sub_idx(s, pat, from) == Some(i),
    decreases i - from,
{
    if from < i {
        lemma_find_sub_idx_some(s, pat, from + 1, i);
    }
}

proof fn lemma_find_sub_idx_none(s: Seq<char>, pat: Seq<char>, from: int)
    requires
        0 <= from,
        pat.len() >= 1,
        forall|j: int|
            from <= j && j + pat.len() <= s.len() ==> #[trigger] s.subrange(j, j + pat.len())
                != pat,
    ensures
        find_sub_idx(s, pat, from) is None,
    decreases s.len() - from,
{
    if from + pat.len() <= s.len() {
        lemma_find_sub_idx_none(s, pat, from + 1);
    }
}

/// All pieces of `s` between occurrences of `c`, in order; one piece at
/// least, and `s` itself when `c` does not occur.
pub open spec fn split_char(s: Seq<char>, c: char) -> Seq<Seq<char>>
    decreases s.len(),
{
    let i = count_leading(s, neq_pred(c));
    if 0 <= i < s.len() {
        seq![s.subrange(0, i)] + split_char(s.subrange(i + 1, s.len() as int), c)
    } else {
        seq![s]
    }
}

proof fn lemma_split_char_step(s: Seq<char>, c: char, i: int)
    requires
        0 <= i <= s.len(),
        forall|j: int| 0 <= j < i ==> s[j] != c,
        i < s.len() ==> s[i] == c,
    ensures
        i < s.len() ==> split_char(s, c) == seq![s.subrange(0, i)] + split_char(
            s.subrange(i + 1, s.len() as int),
            c,
        ),
        i == s.len() ==> split_char(s, c) == seq![s],
{
    lemma_count_leading_unique(s, neq_pred(c), i);
}

/// Splits `s` on every occurrence of `c`.
pub fn split_on_char(s: &str, c: char) -> (r: Vec<String>)
    ensures
        strings_view(r@) == split_char(s@, c),
{
    let n = s.unicode_len();
    let mut parts: Vec<String> = Vec::new();
    let mut pos: usize = 0;
    proof {
        assert(s@.subrange(0, n as int) =~= s@);
        assert(strings_view(parts@) =~= Seq::<Seq<char>>::empty());
        assert(Seq::<Seq<char>>::empty() + split_char(s@, c) =~= split_char(s@, c));
    }
    loop
        invariant_except_break
            n == s@.len(),
            pos <= n,
            split_char(s@, c) == strings_view(parts@) + split_char(
                s@.subrange(pos as int, n as int),
                c,
            ),
        ensures
            strings_view(parts@) == split_char(s@, c),
        decreases n + 1 - pos,
    {
        let ghost rem = s@.subrange(pos as int, n as int);
        let ghost prev = strings_view(parts@);
        match find_char_from(s, c, pos) {
            Some(j) => {
                let piece = s.substring_char(pos, j);
                parts.push(piece.to_owned());
                proof {
                    assert(rem[j - pos] == c);
                    assert(forall|k: int| 0 <= k < j - pos ==> rem[k] != c);
                    lemma_split_char_step(rem, c, j - pos);
                    assert(rem.subrange(0, j - pos) =~= piece@);
                    assert(rem.subrange(j + 1 - pos, rem.len() as int) =~= s@.subrange(
                        j + 1,
                        n as int,
                    ));
                    assert(strings_view(parts@) =~= prev + seq![piece@]);
                    assert((prev + seq![piece@]) + split_char(s@.subrange(j + 1, n as int), c)
                        =~= prev + (seq![piece@] + split_char(s@.subrange(j + 1, n as int), c)));
                }
                pos = j + 1;
            },
            None => {
                let piece = s.substring_char(pos, n);
                parts.push(piece.to_owned());
                proof {
                    assert(forall|k: int| 0 <= k < rem.len() ==> rem[k] != c);
                    lemma_split_char_step(rem, c, rem.len() as int);
                    assert(rem =~= piece@);
                    assert(strings_view(parts@) =~= prev + seq![piece@]);
                }
                break ;
            },
        }
    }
    parts
}

/// A window-manager event.
#[derive(Debug, Clone)]
pub enum HyprEvent {
    ActiveWindow { class: String, title: String },
    OpenWindow { address: String, workspace: String, class: String, title: String },
    CloseWindow { address: String },
    Workspace { id: String },
    Unknown(String),
}

/// The content of a window-manager event.
pub enum HyprEventModel {
    ActiveWindow { class: Seq<char>, title: Seq<char> },
    OpenWindow { address: Seq<char>, workspace: Seq<char>, class: Seq<char>, title: Seq<char> },
    CloseWindow { address: Seq<char> },
    Workspace { id: Seq<char> },
    Unknown(Seq<char>),
}

impl View for HyprEvent {
    type V = HyprEventModel;

    open spec fn view(&self) -> HyprEventModel {
        match self {
            HyprEvent::ActiveWindow { class, title } => HyprEventModel::ActiveWindow {
                class: class@,
                title: title@,
            },
            HyprEvent::OpenWindow { address, workspace, class, title } => HyprEventModel::OpenWindow {
                address: address@,
                workspace: workspace@,
                class: class@,
                title: title@,
            },
            HyprEvent::CloseWindow { address } => HyprEventModel::CloseWindow { address: address@ },
            HyprEvent::Workspace { id } => HyprEventModel::Workspace { id: id@ },
            HyprEvent::Unknown(raw) => HyprEventModel::Unknown(raw@),
        }
    }
}

/// What an event line denotes. A line without the `>>` separator is
/// dropped. The data is the piece between the first and second separator
/// (or the rest of the line). The active-window event takes its two
/// fields from the first comma; without one it denotes the empty window.
/// The open-window event needs at least four comma-separated fields.
pub open spec fn spec_parse_event(raw: Seq<char>) -> Option<HyprEventModel> {
    match find_sub_idx(raw, ">>"@, 0) {
        None => None,
        Some(i) => {
            let name = raw.subrange(0, i);
            let rest = raw.subrange(i + 2, raw.len() as int);
            let data = match find_sub_idx(rest, ">>"@, 0) {
                Some(j) => rest.subrange(0, j),
                None => rest,
            };
            if name == "activewindow"@ {
                let k = count_leading(data, neq_pred(','));
                if k < data.len() {
                    Some(
                        HyprEventModel::ActiveWindow {
                            class: data.subrange(0, k),
                            title: data.subrange(k + 1, data.len() as int),
                        },
                    )
                } else {
                    Some(
                        HyprEventModel::ActiveWindow {
                            class: Seq::empty(),
                            title: Seq::empty(),
                        },
                    )
                }
            } else if name == "openwindow"@ {
                let ps = split_char(data, ',');
                if ps.len() >= 4 {
                    Some(
                        HyprEventModel::OpenWindow {
                            address: ps[0],
                            workspace: ps[1],
                            class: ps[2],
                            title: ps[3],
                        },
                    )
                } else {
                    None
                }
            } else if name == "closewindow"@ {
                Some(HyprEventModel::CloseWindow { address: data })
            } else if name == "workspace"@ {
                Some(HyprEventModel::Workspace { id: data })
            } else {
                Some(HyprEventModel::Unknown(raw))
            }
        },
    }
}

/// Parses one event line.
pub fn parse_event(raw: &str) -> (r: Option<HyprEvent>)
    ensures
        (r is Some) == (spec_parse_event(raw@) is Some),
        r matches Some(e) ==> spec_parse_event(raw@) == Some(e@),
{
    let n = raw.unicode_len();
    proof {
        reveal_strlit(">>");
    }
    let i = match find_sub_from(raw, ">>", 0) {
        None => {
            proof {
                lemma_find_sub_idx_none(raw@, ">>"@, 0);
            }
            return None;
        },
        Some(i) => {
            proof {
                lemma_find_sub_idx_some(raw@, ">>"@, 0, i as int);
            }
            i
        },
    };
    let name = raw.substring_char(0, i);
    let rest = raw.substring_char(i + 2, n);
    let rn = rest.unicode_len();
    let data = match find_sub_from(rest, ">>", 0) {
        Some(j) => {
            proof {
                lemma_find_sub_idx_some(rest@, ">>"@, 0, j as int);
            }
            rest.substring_char(0, j)
        },
        None => {
            proof {
                lemma_find_sub_idx_none(rest@, ">>"@, 0);
                assert(rest@.subrange(0, rn as int) =~= rest@);
            }
            rest
        },
    };
    let dn = data.unicode_len();
    if str_eq(name, "activewindow") {
        match find_char_from(data, ',', 0) {
            Some(k) => {
                proof {
                    lemma_count_leading_unique(data@, neq_pred(','), k as int);
                }
                Some(
                    HyprEvent::ActiveWindow {
                        class: data.substring_char(0, k).to_owned(),
                        title: data.substring_char(k + 1, dn).to_owned(),
                    },
                )
            },
            None => {
                proof {
                    lemma_count_leading_unique(data@, neq_pred(','), dn as int);
                }
                Some(HyprEvent::ActiveWindow { class: String::new(), title: String::new() })
            },
        }
    } else if str_eq(name, "openwindow") {
        let parts = split_on_char(data, ',');
        let ghost psv = split_char(data@, ',');
        if parts.len() >= 4 {
            proof {
                assert(psv[0] == parts@[0]@);
                assert(psv[1] == parts@[1]@);
                assert(psv[2] == parts@[2]@);
                assert(psv[3] == parts@[3]@);
            }
            Some(
                HyprEvent::OpenWindow {
                    address: parts[0].clone(),
                    workspace: parts[1].clone(),
                    class: parts[2].clone(),
                    title: parts[3].clone(),
                },
            )
        } else {
            None
        }
    } else if str_eq(name, "closewindow") {
        Some(HyprEvent::CloseWindow { address: data.to_owned() })
    } else if str_eq(name, "workspace") {
        Some(HyprEvent::Workspace { id: data.to_owned() })
    } else {
        Some(HyprEvent::Unknown(raw.to_owned()))
    }
}

} // verus!
