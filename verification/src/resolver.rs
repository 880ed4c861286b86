//! The context resolver: command-line options and the priority order
//! that determines which game and client a run applies to.
//!
//! Priority, first match wins: an explicit client argument (matched
//! against the catalog, never falling through to probing); otherwise
//! the first game in catalog order with a reference file present on
//! disk; otherwise the run is unresolved and first-run installation
//! takes over.

use vstd::prelude::*;

use crate::catalog::{first_game_with_client, games_view, Game, GameV};
use crate::text::strings_view;

verus! {

/// Options of one run, produced once from the raw argument list.
pub struct LaunchOptions {
    pub update_only: bool,
    pub skip_self_update: bool,
    pub client_arg: Option<String>,
}

/// Is `a` one of the recognized flags rather than a client identifier?
pub open spec fn is_flag(a: Seq<char>) -> bool {
    a == "update"@ || a == "skip-launcher-update"@
}

/// Some argument past the program name equals `flag`.
pub open spec fn has_arg(args: Seq<Seq<char>>, flag: Seq<char>) -> bool {
    exists|i: int| 1 <= i < args.len() && #[trigger] args[i] == flag
}

/// Index of the first argument past the program name that is not a
/// recognized flag: the explicit client identifier, if any.
pub open spec fn first_positional_from(args: Seq<Seq<char>>, k: int) -> Option<int>
    decreases args.len() - k,
{
    if k < 1 || k >= args.len() {
        None
    } else if !is_flag(args[k]) {
        Some(k)
    } else {
        first_positional_from(args, k + 1)
    }
}

/// Parse the raw argument list (program name first) into the options
/// of this run: the recognized flags, and the first remaining
/// positional argument as the explicit client identifier.
pub fn parse_args(args: &Vec<String>) -> (o: LaunchOptions)
    ensures
        o.update_only == has_arg(strings_view(args@), "update"@),
        o.skip_self_update == has_arg(strings_view(args@), "skip-launcher-update"@),
        match o.client_arg {
            Some(c) => first_positional_from(strings_view(args@), 1) matches Some(i) && c@
                == strings_view(args@)[i],
            None => first_positional_from(strings_view(args@), 1) is None,
        },
{
    let ghost av = strings_view(args@);
    let mut update_only = false;
    let mut skip_self_update = false;
    let mut client_arg: Option<String> = None;
    let mut i: usize = 1;
    while i < args.len()
        invariant
            1 <= i,
            i <= args@.len() || (args@.len() < 1 && i == 1),
            av == strings_view(args@),
            update_only == exists|k: int| 1 <= k < i && #[trigger] av[k] == "update"@,
            skip_self_update == exists|k: int|
                1 <= k < i && #[trigger] av[k] == "skip-launcher-update"@,
            match client_arg {
                Some(c) => first_positional_from(av, 1) matches Some(j) && j < i && c@ == av[j],
                None => first_positional_from(av, 1) == first_positional_from(av, i as int),
            },
        decreases args@.len() - i,
    {
        let a = &args[i];
        let is_update = crate::text::str_eq(a.as_str(), "update");
        let is_skip = crate::text::str_eq(a.as_str(), "skip-launcher-update");
        if is_update {
            update_only = true;
        }
        if is_skip {
            skip_self_update = true;
        }
        if !is_update && !is_skip && client_arg.is_none() {
            assert(!is_flag(av[i as int]));
            client_arg = Some(a.clone());
        }
        proof {
            if update_only && av[i as int] == "update"@ {
                assert(1 <= i < i + 1 && av[i as int] == "update"@);
            }
        }
        i = i + 1;
    }
    LaunchOptions { update_only, skip_self_update, client_arg }
}

/// A game's reference file is present on disk: one of its reference
/// paths occurs among the paths that exist in the working directory.
pub open spec fn has_present_ref(g: GameV, present: Seq<Seq<char>>) -> bool {
    exists|r: int| 0 <= r < g.references.len() && present.contains(#[trigger] g.references[r])
}

/// First game in catalog order with a reference file present.
pub open spec fn first_game_with_ref_from(gs: Seq<GameV>, present: Seq<Seq<char>>, k: int) -> Option<
    int,
>
    decreases gs.len() - k,
{
    if k < 0 || k >= gs.len() {
        None
    } else if has_present_ref(gs[k], present) {
        Some(k)
    } else {
        first_game_with_ref_from(gs, present, k + 1)
    }
}

/// Outcome of context resolution.
pub enum Resolution {
    /// A specific game and client were determined.
    Client { game: usize, client: usize },
    /// A game was determined by reference probing, but it exposes
    /// several clients and this run may launch one: the user must
    /// choose.
    NeedsClientChoice { game: usize },
    /// Nothing resolved: first-run installation takes over.
    Unresolved,
}

/// Mathematical image of a resolution outcome.
pub ghost enum ResolutionV {
    Client { game: int, client: int },
    NeedsClientChoice { game: int },
    Unresolved,
}

impl View for Resolution {
    type V = ResolutionV;

    open spec fn view(&self) -> ResolutionV {
        match self {
            Resolution::Client { game, client } => ResolutionV::Client {
                game: *game as int,
                client: *client as int,
            },
            Resolution::NeedsClientChoice { game } => ResolutionV::NeedsClientChoice {
                game: *game as int,
            },
            Resolution::Unresolved => ResolutionV::Unresolved,
        }
    }
}

/// What resolution returns, as a function of the catalog, the explicit
/// client argument, the reference paths present on disk, and whether
/// this run only updates.
///
/// An explicit argument is matched against the catalog and never falls
/// through to probing: an argument that matches nothing leaves the run
/// unresolved even when reference files are present. Without an
/// argument, the first game in catalog order with a present reference
/// wins; its first client is taken outright when it is the only one or
/// when no launch will happen, and the choice is handed to the user
/// otherwise.
pub open spec fn resolve_spec(
    gs: Seq<GameV>,
    client_arg: Option<Seq<char>>,
    present: Seq<Seq<char>>,
    update_only: bool,
) -> ResolutionV {
    match client_arg {
        Some(name) => match first_game_with_client(gs, name) {
            Some((g, c)) => ResolutionV::Client { game: g, client: c },
            None => ResolutionV::Unresolved,
        },
        None => match first_game_with_ref_from(gs, present, 0) {
            Some(g) => if gs[g].client.len() == 1 || update_only {
                ResolutionV::Client { game: g, client: 0 }
            } else {
                ResolutionV::NeedsClientChoice { game: g }
            },
            None => ResolutionV::Unresolved,
        },
    }
}

/// Image of the optional explicit client argument.
pub open spec fn arg_view(a: Option<String>) -> Option<Seq<char>> {
    match a {
        Some(s) => Some(s@),
        None => None,
    }
}

/// Does one of the game's reference paths occur among the present
/// paths?
fn game_ref_present(game: &Game, present: &Vec<String>) -> (r: bool)
    ensures
        r == has_present_ref(game@, strings_view(present@)),
{
    let ghost pv = strings_view(present@);
    let mut i: usize = 0;
    while i < game.references.len()
        invariant
            i <= game.references@.len(),
            pv == strings_view(present@),
            forall|k: int| 0 <= k < i ==> !pv.contains(#[trigger] game@.references[k]),
        decreases game.references@.len() - i,
    {
        let refpath = &game.references[i];
        let mut j: usize = 0;
        while j < present.len()
            invariant
                j <= present@.len(),
                i < game.references@.len(),
                pv == strings_view(present@),
                refpath == game.references@[i as int],
                forall|k: int| 0 <= k < j ==> pv[k] != refpath@,
            decreases present@.len() - j,
        {
            if crate::text::str_eq(present[j].as_str(), refpath.as_str()) {
                assert(pv[j as int] == game@.references[i as int]);
                return true;
            }
            j = j + 1;
        }
        assert(!pv.contains(game@.references[i as int]));
        i = i + 1;
    }
    false
}

/// Resolve the active game and client for this run.
pub fn resolve(
    games: &Vec<Game>,
    client_arg: &Option<String>,
    present: &Vec<String>,
    update_only: bool,
) -> (r: Resolution)
    ensures
        r@ == resolve_spec(
            games_view(games@),
            arg_view(*client_arg),
            strings_view(present@),
            update_only,
        ),
{
    let ghost gs = games_view(games@);
    let ghost pv = strings_view(present@);
    match client_arg {
        Some(name) => {
            match crate::catalog::find_by_client(games, name.as_str()) {
                Some((g, c)) => Resolution::Client { game: g, client: c },
                None => Resolution::Unresolved,
            }
        },
        None => {
            let mut g: usize = 0;
            while g < games.len()
                invariant
                    g <= games@.len(),
                    gs == games_view(games@),
                    pv == strings_view(present@),
                    client_arg is None,
                    first_game_with_ref_from(gs, pv, 0) == first_game_with_ref_from(
                        gs,
                        pv,
                        g as int,
                    ),
                decreases games@.len() - g,
            {
                if game_ref_present(&games[g], present) {
                    assert(first_game_with_ref_from(gs, pv, g as int) == Some(g as int));
                    if games[g].client.len() == 1 || update_only {
                        return Resolution::Client { game: g, client: 0 };
                    } else {
                        return Resolution::NeedsClientChoice { game: g };
                    }
                }
                g = g + 1;
            }
            Resolution::Unresolved
        },
    }
}

/// Resolver priority: an explicit client argument that matches the
/// catalog determines the outcome by itself. Whatever reference files
/// are present and whether or not the run only updates, resolution
/// selects the first catalog match for the argument.
pub proof fn lemma_resolver_priority(
    gs: Seq<GameV>,
    name: Seq<char>,
    present_a: Seq<Seq<char>>,
    present_b: Seq<Seq<char>>,
    update_only_a: bool,
    update_only_b: bool,
)
    ensures
        resolve_spec(gs, Some(name), present_a, update_only_a) == resolve_spec(
            gs,
            Some(name),
            present_b,
            update_only_b,
        ),
        first_game_with_client(gs, name) matches Some((g, c)) ==> resolve_spec(
            gs,
            Some(name),
            present_a,
            update_only_a,
        ) == (ResolutionV::Client { game: g, client: c }) && 0 <= g < gs.len() && 0 <= c
            < gs[g].client.len() && gs[g].client[c] == name,
{
    if first_game_with_client(gs, name) is Some {
        crate::catalog::lemma_first_game_with_client_correct(gs, name, 0);
    }
}

} // verus!
