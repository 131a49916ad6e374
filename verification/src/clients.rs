//! Window-list views for the desktop surfaces. The compositor reports
//! windows as plain (identifier, title) pairs; these functions shape them
//! for display and pick out a running managed game.
use vstd::prelude::*;

verus! {

/// One window as the compositor reports it.
#[derive(Debug, Clone)]
pub struct ClientInfo {
    pub app_id: String,
    pub title: String,
}

/// The content of a reported window.
pub struct ClientInfoModel {
    pub app_id: Seq<char>,
    pub title: Seq<char>,
}

impl View for ClientInfo {
    type V = ClientInfoModel;

    open spec fn view(&self) -> ClientInfoModel {
        ClientInfoModel { app_id: self.app_id@, title: self.title@ }
    }
}

/// A window entry as the overlay lists it.
#[derive(Debug, Clone)]
pub struct Client {
    pub address: String,
    pub class: String,
    pub title: String,
    pub workspace: Workspace,
}

/// The workspace a window sits on. The compositor exposes a single
/// workspace, so every entry carries the same one.
#[derive(Debug, Clone)]
pub struct Workspace {
    pub id: i32,
    pub name: String,
}

/// Shapes the compositor's window list for the overlay: the window
/// identifier serves as both address and class, and every entry sits on
/// the single workspace.
pub fn get_clients(infos: Vec<ClientInfo>) -> (r: Vec<Client>)
    ensures
        r@.len() == infos@.len(),
        forall|i: int|
            0 <= i < r@.len() ==> (#[trigger] r@[i]).address@ == infos@[i].app_id@
                && r@[i].class@ == infos@[i].app_id@ && r@[i].title@ == infos@[i].title@
                && r@[i].workspace.id == 1 && r@[i].workspace.name@ == "1"@,
{
    let mut out: Vec<Client> = Vec::new();
    let mut i: usize = 0;
    while i < infos.len()
        invariant
            i <= infos@.len(),
            out@.len() == i,
            forall|j: int|
                0 <= j < i ==> (#[trigger] out@[j]).address@ == infos@[j].app_id@
                    && out@[j].class@ == infos@[j].app_id@ && out@[j].title@ == infos@[j].title@
                    && out@[j].workspace.id == 1 && out@[j].workspace.name@ == "1"@,
        decreases infos@.len() - i,
    {
        let c = &infos[i];
        out.push(
            Client {
                address: c.app_id.clone(),
                class: c.app_id.clone(),
                title: c.title.clone(),
                workspace: Workspace { id: 1, name: "1".to_owned() },
            },
        );
        i = i + 1;
    }
    out
}

/// A candidate counts when its window identifier is non-empty and the
/// application is classified as a game.
pub open spec fn spec_running_game(c: (Seq<char>, bool)) -> bool {
    c.0.len() > 0 && c.1
}

/// The views of a candidate list.
pub open spec fn candidates_view(v: Seq<(String, bool)>) -> Seq<(Seq<char>, bool)> {
    Seq::new(v.len(), |i: int| (v[i].0@, v[i].1))
}

/// Picks the identifier of the first running game among the open windows.
/// Each candidate pairs a window identifier with its game classification
/// (see `manifest::is_game_app`).
pub fn get_running_game(candidates: &Vec<(String, bool)>) -> (r: Option<String>)
    ensures
        match r {
            Some(id) => exists|i: int|
                0 <= i < candidates@.len() && #[trigger] spec_running_game(
                    candidates_view(candidates@)[i],
                ) && id@ == candidates@[i].0@ && forall|j: int|
                    0 <= j < i ==> !spec_running_game(candidates_view(candidates@)[j]),
            None => forall|j: int|
                0 <= j < candidates@.len() ==> !spec_running_game(candidates_view(candidates@)[j]),
        },
{
    let ghost cv = candidates_view(candidates@);
    let mut i: usize = 0;
    while i < candidates.len()
        invariant
            cv == candidates_view(candidates@),
            cv.len() == candidates@.len(),
            i <= candidates@.len(),
            forall|j: int| 0 <= j < i ==> !spec_running_game(cv[j]),
        decreases candidates@.len() - i,
    {
        let entry = &candidates[i];
        if !entry.0.as_str().is_empty() && entry.1 {
            proof {
                assert(cv[i as int] == (entry.0@, entry.1));
                assert(spec_running_game(cv[i as int]));
            }
            return Some(entry.0.clone());
        }
        proof {
            assert(cv[i as int] == (entry.0@, entry.1));
        }
        i = i + 1;
    }
    None
}

/// The focus pattern that addresses the desktop surfaces; the shell sends
/// it to the compositor's focus operation to bring the desktop forward.
pub fn show_desktop() -> (r: String)
    ensures
        r@ == "^(JollyPad-Desktop|jolly-home|JollyPad-Launcher)$"@,
{
    "^(JollyPad-Desktop|jolly-home|JollyPad-Launcher)$".to_owned()
}

} // verus!
