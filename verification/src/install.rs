//! The installation orchestrator: the plan a first run carries out
//! before delegating to the synchronizer.
//!
//! For a multi-client game, one launch shortcut per client points at
//! the launcher binary with the client identifier as its argument;
//! desktop shortcuts are offered behind a default-yes prompt; then the
//! chosen game is synchronized. The interactive and filesystem steps
//! are carried out by the caller; this module decides what they are.

use vstd::prelude::*;

use crate::catalog::{games_view, Game, GameV};
use crate::text::{eq_ignore_ascii_case, is_prefix_of};

verus! {

/// Mathematical image of a shortcut.
pub ghost struct LinkSpecV {
    pub lnk_path: Seq<char>,
    pub target: Seq<char>,
    pub arguments: Seq<char>,
    pub icon: Seq<char>,
}

/// One launchable shortcut to create: where the shortcut file goes,
/// the executable it points at, the argument line it passes, and its
/// icon.
pub struct LinkSpec {
    pub lnk_path: String,
    pub target: String,
    pub arguments: String,
    pub icon: String,
}

impl View for LinkSpec {
    type V = LinkSpecV;

    open spec fn view(&self) -> LinkSpecV {
        LinkSpecV {
            lnk_path: self.lnk_path@,
            target: self.target@,
            arguments: self.arguments@,
            icon: self.icon@,
        }
    }
}

/// The launcher binary inside a game directory: future runs in that
/// directory are self-contained.
pub open spec fn launcher_path(dir: Seq<char>) -> Seq<char> {
    dir + "/alterware-launcher.exe"@
}

/// The launch shortcut for client `c` inside the game directory.
pub open spec fn client_link_of(dir: Seq<char>, c: Seq<char>) -> LinkSpecV {
    LinkSpecV {
        lnk_path: dir + "/launch-"@ + c + ".lnk"@,
        target: launcher_path(dir),
        arguments: c,
        icon: dir + "/"@ + c + ".exe"@,
    }
}

/// The desktop shortcut for client `c` of a game installed in `dir`.
pub open spec fn desktop_link_of(dir: Seq<char>, desktop: Seq<char>, c: Seq<char>) -> LinkSpecV {
    LinkSpecV {
        lnk_path: desktop + "/"@ + c + ".lnk"@,
        target: launcher_path(dir),
        arguments: c,
        icon: dir + "/"@ + c + ".exe"@,
    }
}

/// Build the launcher binary path for a game directory.
pub fn launcher_path_in(dir: &str) -> (r: String)
    ensures
        r@ == launcher_path(dir@),
{
    String::from_str(dir).concat("/alterware-launcher.exe")
}

/// The launch shortcuts to create in the game directory: one per
/// client, each passing that client's identifier to the launcher.
pub fn client_link_specs(game: &Game, dir: &str) -> (v: Vec<LinkSpec>)
    ensures
        v@.len() == game@.client.len(),
        forall|i: int|
            0 <= i < v@.len() ==> (#[trigger] v@[i])@ == client_link_of(dir@, game@.client[i]),
{
    let mut v: Vec<LinkSpec> = Vec::new();
    let mut i: usize = 0;
    while i < game.client.len()
        invariant
            i <= game.client@.len(),
            v@.len() == i,
            forall|k: int|
                0 <= k < i ==> (#[trigger] v@[k])@ == client_link_of(dir@, game@.client[k]),
        decreases game.client@.len() - i,
    {
        let c = &game.client[i];
        let spec = LinkSpec {
            lnk_path: String::from_str(dir).concat("/launch-").concat(c.as_str()).concat(".lnk"),
            target: launcher_path_in(dir),
            arguments: c.clone(),
            icon: String::from_str(dir).concat("/").concat(c.as_str()).concat(".exe"),
        };
        proof {
            assert(spec.lnk_path@ =~= dir@ + "/launch-"@ + game@.client[i as int] + ".lnk"@);
            assert(spec.icon@ =~= dir@ + "/"@ + game@.client[i as int] + ".exe"@);
        }
        v.push(spec);
        i = i + 1;
    }
    v
}

/// The desktop shortcuts to create for a game installed in `dir`: one
/// per client, placed in the desktop directory.
pub fn desktop_link_specs(game: &Game, dir: &str, desktop: &str) -> (v: Vec<LinkSpec>)
    ensures
        v@.len() == game@.client.len(),
        forall|i: int|
            0 <= i < v@.len() ==> (#[trigger] v@[i])@ == desktop_link_of(
                dir@,
                desktop@,
                game@.client[i],
            ),
{
    let mut v: Vec<LinkSpec> = Vec::new();
    let mut i: usize = 0;
    while i < game.client.len()
        invariant
            i <= game.client@.len(),
            v@.len() == i,
            forall|k: int|
                0 <= k < i ==> (#[trigger] v@[k])@ == desktop_link_of(
                    dir@,
                    desktop@,
                    game@.client[k],
                ),
        decreases game.client@.len() - i,
    {
        let c = &game.client[i];
        let spec = LinkSpec {
            lnk_path: String::from_str(desktop).concat("/").concat(c.as_str()).concat(".lnk"),
            target: launcher_path_in(dir),
            arguments: c.clone(),
            icon: String::from_str(dir).concat("/").concat(c.as_str()).concat(".exe"),
        };
        proof {
            assert(spec.lnk_path@ =~= desktop@ + "/"@ + game@.client[i as int] + ".lnk"@);
            assert(spec.icon@ =~= dir@ + "/"@ + game@.client[i as int] + ".exe"@);
        }
        v.push(spec);
        i = i + 1;
    }
    v
}

/// Interpret the answer to the desktop-shortcut prompt: an empty line
/// or any casing of `y` accepts (the default is yes).
pub fn confirm_desktop_shortcut(input: &str) -> (r: bool)
    ensures
        r == (input@.len() == 0 || eq_ignore_ascii_case(input@, "y"@)),
{
    if input.unicode_len() == 0 {
        true
    } else {
        crate::text::str_eq_ignore_ascii_case(input, "y")
    }
}

/// A first-run installation plan: what the orchestrator carries out,
/// in order. Launch shortcuts are provisioned first, desktop shortcuts
/// are then offered interactively, and the game's engine is
/// synchronized last.
pub struct InstallPlan {
    pub client_links: Vec<LinkSpec>,
    pub offer_desktop_links: bool,
    pub sync_engine: String,
}

/// Plan the first-run installation of `game` into `dir`: one launch
/// shortcut per client, a desktop-shortcut offer, and a pending
/// synchronization of the game's engine.
pub fn auto_install(game: &Game, dir: &str) -> (p: InstallPlan)
    ensures
        p.client_links@.len() == game@.client.len(),
        forall|i: int|
            0 <= i < p.client_links@.len() ==> (#[trigger] p.client_links@[i])@ == client_link_of(
                dir@,
                game@.client[i],
            ),
        p.offer_desktop_links,
        p.sync_engine@ == game@.engine,
{
    InstallPlan {
        client_links: client_link_specs(game, dir),
        offer_desktop_links: true,
        sync_engine: game.engine.clone(),
    }
}

/// The primary client of the game a manual-selection prompt picked,
/// if the answer names a catalog position.
pub fn manual_selection(games: &Vec<Game>, choice: usize) -> (r: Option<String>)
    ensures
        match r {
            Some(c) => (choice as int) < games@.len() && games_view(games@)[choice as int].client.len()
                > 0 && c@ == games_view(games@)[choice as int].client[0],
            None => (choice as int) >= games@.len() || games_view(
                games@,
            )[choice as int].client.len() == 0,
        },
{
    if choice < games.len() {
        let game = &games[choice];
        if game.client.len() > 0 {
            return Some(game.client[0].clone());
        }
        None
    } else {
        None
    }
}

/// One installed game found by the installed-library scan: its
/// external catalog identifier and its installation directory.
pub struct InstalledGame {
    pub app_id: u32,
    pub path: String,
}

/// Mathematical image of a scan result.
pub ghost struct InstalledGameV {
    pub app_id: u32,
    pub path: Seq<char>,
}

impl View for InstalledGame {
    type V = InstalledGameV;

    open spec fn view(&self) -> InstalledGameV {
        InstalledGameV { app_id: self.app_id, path: self.path@ }
    }
}

/// Image of a scan result list.
pub open spec fn installed_view(s: Seq<InstalledGame>) -> Seq<InstalledGameV> {
    s.map_values(|x: InstalledGame| x@)
}

/// `full` lies inside the directory `base`: it is `base` itself or a
/// path below it (either path separator).
pub open spec fn is_path_prefix(base: Seq<char>, full: Seq<char>) -> bool {
    base == full || (is_prefix_of(base, full) && base.len() < full.len() && (full[base.len() as int]
        == '/' || full[base.len() as int] == '\\'))
}

/// Does `full` lie inside the directory `base`?
pub fn path_starts_with(full: &str, base: &str) -> (r: bool)
    ensures
        r == is_path_prefix(base@, full@),
{
    if crate::text::str_eq(full, base) {
        return true;
    }
    let blen: usize = base.unicode_len();
    let flen: usize = full.unicode_len();
    if crate::text::str_starts_with(full, base) && blen < flen {
        let sep = full.get_char(blen);
        sep == '/' || sep == '\\'
    } else {
        false
    }
}

/// The first installed game whose directory contains the working
/// directory: when the launcher already runs inside an installation,
/// that installation is selected without prompting.
pub fn find_installed_in_cwd(installed: &Vec<InstalledGame>, cwd: &str) -> (r: Option<usize>)
    ensures
        match r {
            Some(i) => {
                &&& (i as int) < installed@.len()
                &&& is_path_prefix(installed_view(installed@)[i as int].path, cwd@)
                &&& forall|j: int|
                    0 <= j < i ==> !is_path_prefix(
                        (#[trigger] installed_view(installed@)[j]).path,
                        cwd@,
                    )
            },
            None => forall|j: int|
                0 <= j < installed@.len() ==> !is_path_prefix(
                    (#[trigger] installed_view(installed@)[j]).path,
                    cwd@,
                ),
        },
{
    let mut i: usize = 0;
    while i < installed.len()
        invariant
            i <= installed@.len(),
            forall|j: int|
                0 <= j < i ==> !is_path_prefix(
                    (#[trigger] installed_view(installed@)[j]).path,
                    cwd@,
                ),
        decreases installed@.len() - i,
    {
        if path_starts_with(cwd, installed[i].path.as_str()) {
            return Some(i);
        }
        i = i + 1;
    }
    None
}

/// Outcome of the numeric selection among installed games.
pub enum InstallSelection {
    /// The acknowledged escape value: fall back to manual selection.
    Manual,
    /// The position of the chosen installed game.
    Chosen(usize),
    /// The answer names no installed game: nothing to do.
    Invalid,
}

/// Interpret the answer to the installed-game prompt: zero asks for
/// manual selection, any other value picks the first installed game
/// with that identifier.
pub fn interpret_install_selection(installed: &Vec<InstalledGame>, input: u32) -> (r:
    InstallSelection)
    ensures
        input == 0 ==> r is Manual,
        input != 0 ==> match r {
            InstallSelection::Chosen(i) => {
                &&& (i as int) < installed@.len()
                &&& installed_view(installed@)[i as int].app_id == input
                &&& forall|j: int|
                    0 <= j < i ==> (#[trigger] installed_view(installed@)[j]).app_id != input
            },
            InstallSelection::Invalid => forall|j: int|
                0 <= j < installed@.len() ==> (#[trigger] installed_view(installed@)[j]).app_id
                    != input,
            InstallSelection::Manual => false,
        },
{
    if input == 0 {
        return InstallSelection::Manual;
    }
    let mut i: usize = 0;
    while i < installed.len()
        invariant
            i <= installed@.len(),
            input != 0,
            forall|j: int|
                0 <= j < i ==> (#[trigger] installed_view(installed@)[j]).app_id != input,
        decreases installed@.len() - i,
    {
        if installed[i].app_id == input {
            return InstallSelection::Chosen(i);
        }
        i = i + 1;
    }
    InstallSelection::Invalid
}

} // verus!
