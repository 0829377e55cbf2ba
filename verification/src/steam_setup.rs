//! Making an ArenaNet installation usable for Steam accounts.
//!
//! Steam only signs in a Guild Wars 2 that it installed itself, but the Steam version is a 1:1
//! copy of the ArenaNet one. So a directory junction from Steam's library folder to the existing
//! installation, followed by "Install" in Steam, makes Steam adopt the files and download only a
//! few megabytes. This module decides what is left to do; the application looks at the folders
//! and creates the junction.

use vstd::prelude::*;

use crate::paths::{join, join_spec, parent, parent_spec};
use crate::steam::GW2_INSTALL_DIR;

verus! {

/// A directory junction from Steam's library to the existing installation.
#[derive(Debug, Clone, PartialEq, Eq)]
pub struct Link {
    /// Where Steam expects the game: `<Steam>\steamapps\common\Guild Wars 2`.
    pub link: String,
    /// The installation the link points to.
    pub target: String,
}

/// What is missing before Steam accounts can be started.
#[derive(Debug, Clone, PartialEq, Eq)]
pub enum Plan {
    /// No link yet: it can be created.
    CreateLink(Link),
    /// The link exists, but Steam has not installed (adopted) the game yet.
    AwaitInstall(Link),
    /// Something else already occupies the folder Steam would install into.
    Blocked(String),
    /// Steam is not installed (or its folder is not where the registry says).
    NoSteam,
}

/// What the application observed of Steam's folder and of the link's place (see [`link_for`]).
#[derive(Debug, Clone, Copy, PartialEq, Eq, Structural)]
pub struct SteamFolderState {
    /// `<Steam>\steamapps` is a folder.
    pub steamapps_is_dir: bool,
    /// Something (a folder, a file or a link) exists where the link goes.
    pub link_exists: bool,
    /// What is there resolves to the same folder as the installation.
    pub points_to_target: bool,
}

/// The kinds of plans, with the paths as character sequences.
pub enum PlanView {
    CreateLink(Seq<char>, Seq<char>),
    AwaitInstall(Seq<char>, Seq<char>),
    Blocked(Seq<char>),
    NoSteam,
}

impl Plan {
    /// The plan with its paths as character sequences.
    pub open spec fn view_of(self) -> PlanView {
        match self {
            Plan::CreateLink(l) => PlanView::CreateLink(l.link@, l.target@),
            Plan::AwaitInstall(l) => PlanView::AwaitInstall(l.link@, l.target@),
            Plan::Blocked(p) => PlanView::Blocked(p@),
            Plan::NoSteam => PlanView::NoSteam,
        }
    }
}

/// The link that makes the installation of `gw2_exe` Steam's, if the client lies in a folder.
pub fn link_for(steam_dir: &str, gw2_exe: &str) -> (r: Option<Link>)
    ensures
        match parent_spec(gw2_exe@) {
            None => r is None,
            Some(dir) => r is Some && r->0.link@ == join_spec(steam_dir@, GW2_INSTALL_DIR@)
                && r->0.target@ == dir,
        },
{
    match parent(gw2_exe) {
        None => None,
        Some(dir) => Some(Link { link: join(steam_dir, GW2_INSTALL_DIR), target: dir }),
    }
}

/// What is left to do before Steam accounts can start with the client `gw2_exe`: nothing if a
/// Steam-capable client was found; otherwise, with Steam installed in `steam_dir`, whether the
/// link is still to be created, waits for Steam to install over it, or cannot be created because
/// something else is in its place.
pub open spec fn plan_spec(
    has_steam_client: bool,
    steam_dir: Option<Seq<char>>,
    gw2_exe: Seq<char>,
    state: SteamFolderState,
) -> Option<PlanView> {
    if has_steam_client {
        None
    } else {
        match steam_dir {
            None => Some(PlanView::NoSteam),
            Some(dir) => if !state.steamapps_is_dir {
                Some(PlanView::NoSteam)
            } else {
                match parent_spec(gw2_exe) {
                    None => Some(PlanView::NoSteam),
                    Some(target) => {
                        let link = join_spec(dir, GW2_INSTALL_DIR@);
                        if !state.link_exists {
                            Some(PlanView::CreateLink(link, target))
                        } else if state.points_to_target {
                            Some(PlanView::AwaitInstall(link, target))
                        } else {
                            Some(PlanView::Blocked(link))
                        }
                    },
                }
            },
        }
    }
}

/// `None` if a Steam-capable installation is ready already (`has_steam_client`); otherwise what
/// is left to do, given Steam's folder (`None`: Steam is not installed) and what was observed of
/// it.
pub fn plan(has_steam_client: bool, steam_dir: Option<&str>, gw2_exe: &str, state: SteamFolderState) -> (r:
    Option<Plan>)
    ensures
        match plan_spec(
            has_steam_client,
            match steam_dir {
                Some(d) => Some(d@),
                None => None,
            },
            gw2_exe@,
            state,
        ) {
            None => r is None,
            Some(p) => r is Some && r->0.view_of() == p,
        },
{
    if has_steam_client {
        return None;
    }
    let dir = match steam_dir {
        None => {
            return Some(Plan::NoSteam);
        },
        Some(d) => d,
    };
    if !state.steamapps_is_dir {
        return Some(Plan::NoSteam);
    }
    match link_for(dir, gw2_exe) {
        None => Some(Plan::NoSteam),
        Some(link) => {
            if !state.link_exists {
                Some(Plan::CreateLink(link))
            } else if state.points_to_target {
                Some(Plan::AwaitInstall(link))
            } else {
                Some(Plan::Blocked(link.link))
            }
        },
    }
}

/// The folder that must exist before the link can be created in it.
pub fn link_parent(link: &Link) -> (r: Option<String>)
    ensures
        match parent_spec(link.link@) {
            Some(d) => r is Some && r->0@ == d,
            None => r is None,
        },
{
    parent(link.link.as_str())
}


/// The step of the dialog that links the installation into Steam.
#[derive(Debug, Clone, Copy, PartialEq, Eq, Structural)]
pub enum SetupStep {
    /// The link is to be created.
    Link,
    /// Steam is to install over the link.
    Install,
}

/// Whether a Steam account can be started now, given what is left to do (see [`plan`]).
#[derive(Debug, Clone, PartialEq, Eq)]
pub enum SteamReady {
    /// It can: Steam has its copy, or Steam is missing altogether (the launch reports that).
    Go,
    /// Something occupies the folder Steam would install into; the start is refused.
    Blocked(String),
    /// The setup dialog opens at `step` for `link`; the start waits for it.
    Dialog(SetupStep, Link),
}

/// Whether a Steam account can be started now, given what is left to do (`None`: nothing).
/// Cases the dialog can't help with (no Steam at all) pass, so the launch reports them itself.
pub fn steam_ready(plan: Option<Plan>) -> (r: SteamReady)
    ensures
        match plan {
            None => r == SteamReady::Go,
            Some(Plan::NoSteam) => r == SteamReady::Go,
            Some(Plan::Blocked(p)) => r == SteamReady::Blocked(p),
            Some(Plan::CreateLink(l)) => r == SteamReady::Dialog(SetupStep::Link, l),
            Some(Plan::AwaitInstall(l)) => r == SteamReady::Dialog(SetupStep::Install, l),
        },
{
    match plan {
        None | Some(Plan::NoSteam) => SteamReady::Go,
        Some(Plan::Blocked(p)) => SteamReady::Blocked(p),
        Some(Plan::CreateLink(l)) => SteamReady::Dialog(SetupStep::Link, l),
        Some(Plan::AwaitInstall(l)) => SteamReady::Dialog(SetupStep::Install, l),
    }
}

} // verus!
