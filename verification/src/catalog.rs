//! The game catalog: typed records of the supported games and their
//! clients, and first-match lookups over the catalog's declared order.

use vstd::prelude::*;

use crate::text::strings_view;

verus! {

/// Mathematical image of a game definition.
pub ghost struct GameV {
    pub engine: Seq<char>,
    pub client: Seq<Seq<char>>,
    pub references: Seq<Seq<char>>,
    pub app_id: u32,
}

/// One supported game: the engine namespace its manifest entries carry,
/// its launchable client identifiers (in declared order), the reference
/// files whose presence marks an existing installation, and the
/// external catalog identifier used by the installed-library scan.
pub struct Game {
    pub engine: String,
    pub client: Vec<String>,
    pub references: Vec<String>,
    pub app_id: u32,
}

impl View for Game {
    type V = GameV;

    open spec fn view(&self) -> GameV {
        GameV {
            engine: self.engine@,
            client: strings_view(self.client@),
            references: strings_view(self.references@),
            app_id: self.app_id,
        }
    }
}

/// Image of a whole catalog.
pub open spec fn games_view(g: Seq<Game>) -> Seq<GameV> {
    g.map_values(|x: Game| x@)
}

/// Index of `name` in a game's client list, first match.
pub open spec fn first_client_from(g: GameV, name: Seq<char>, k: int) -> Option<int>
    decreases g.client.len() - k,
{
    if k < 0 || k >= g.client.len() {
        None
    } else if g.client[k] == name {
        Some(k)
    } else {
        first_client_from(g, name, k + 1)
    }
}

/// First game of the catalog exposing a client named `name`, with the
/// index of that client.
pub open spec fn first_game_with_client_from(gs: Seq<GameV>, name: Seq<char>, k: int) -> Option<
    (int, int),
>
    decreases gs.len() - k,
{
    if k < 0 || k >= gs.len() {
        None
    } else {
        match first_client_from(gs[k], name, 0) {
            Some(c) => Some((k, c)),
            None => first_game_with_client_from(gs, name, k + 1),
        }
    }
}

/// First match over the whole catalog.
pub open spec fn first_game_with_client(gs: Seq<GameV>, name: Seq<char>) -> Option<(int, int)> {
    first_game_with_client_from(gs, name, 0)
}

/// The first-match client lookup finds a client exactly when one of
/// that name exists, and picks the earliest game, then the earliest
/// client within it.
pub proof fn lemma_first_game_with_client_correct(gs: Seq<GameV>, name: Seq<char>, k: int)
    requires
        0 <= k <= gs.len(),
    ensures
        match first_game_with_client_from(gs, name, k) {
            Some((g, c)) => {
                &&& k <= g < gs.len()
                &&& 0 <= c < gs[g].client.len()
                &&& gs[g].client[c] == name
                &&& forall|g2: int, c2: int|
                    k <= g2 < gs.len() && 0 <= c2 < gs[g2].client.len() && (g2, c2) != (g, c)
                        && (#[trigger] gs[g2].client[c2]) == name ==> g2 > g || (g2 == g && c2 > c)
            },
            None => forall|g2: int, c2: int|
                k <= g2 < gs.len() && 0 <= c2 < gs[g2].client.len() ==> (
                #[trigger] gs[g2].client[c2]) != name,
        },
    decreases gs.len() - k,
{
    if k < gs.len() {
        lemma_first_client_correct(gs[k], name, 0);
        lemma_first_game_with_client_correct(gs, name, k + 1);
    }
}

/// The first-match lookup within one game's client list.
pub proof fn lemma_first_client_correct(g: GameV, name: Seq<char>, k: int)
    requires
        0 <= k <= g.client.len(),
    ensures
        match first_client_from(g, name, k) {
            Some(c) => {
                &&& k <= c < g.client.len()
                &&& g.client[c] == name
                &&& forall|c2: int| k <= c2 < c ==> (#[trigger] g.client[c2]) != name
            },
            None => forall|c2: int| k <= c2 < g.client.len() ==> (#[trigger] g.client[c2]) != name,
        },
    decreases g.client.len() - k,
{
    if k < g.client.len() {
        lemma_first_client_correct(g, name, k + 1);
    }
}

/// Find the first game whose client list holds `name`, together with
/// the position of that client.
pub fn find_by_client(games: &Vec<Game>, name: &str) -> (r: Option<(usize, usize)>)
    ensures
        match r {
            Some((g, c)) => first_game_with_client(games_view(games@), name@) == Some(
                (g as int, c as int),
            ),
            None => first_game_with_client(games_view(games@), name@) is None,
        },
{
    let ghost gs = games_view(games@);
    let mut g: usize = 0;
    while g < games.len()
        invariant
            g <= games@.len(),
            gs == games_view(games@),
            first_game_with_client(gs, name@) == first_game_with_client_from(gs, name@, g as int),
        decreases games@.len() - g,
    {
        let game = &games[g];
        let mut c: usize = 0;
        while c < game.client.len()
            invariant
                c <= game.client@.len(),
                game == games@[g as int],
                g < games@.len(),
                gs == games_view(games@),
                first_game_with_client(gs, name@) == first_game_with_client_from(
                    gs,
                    name@,
                    g as int,
                ),
                first_client_from(gs[g as int], name@, 0) == first_client_from(
                    gs[g as int],
                    name@,
                    c as int,
                ),
            decreases game.client@.len() - c,
        {
            if crate::text::str_eq(game.client[c].as_str(), name) {
                assert(first_client_from(gs[g as int], name@, c as int) == Some(c as int));
                return Some((g, c));
            }
            c = c + 1;
        }
        assert(first_client_from(gs[g as int], name@, c as int) is None);
        g = g + 1;
    }
    None
}

/// Find the first game whose external catalog identifier is `id`.
pub fn find_by_app_id(games: &Vec<Game>, id: u32) -> (r: Option<usize>)
    ensures
        match r {
            Some(g) => {
                &&& (g as int) < games@.len()
                &&& games_view(games@)[g as int].app_id == id
                &&& forall|j: int|
                    0 <= j < g ==> (#[trigger] games_view(games@)[j]).app_id != id
            },
            None => forall|j: int|
                0 <= j < games@.len() ==> (#[trigger] games_view(games@)[j]).app_id != id,
        },
{
    let mut g: usize = 0;
    while g < games.len()
        invariant
            g <= games@.len(),
            forall|j: int| 0 <= j < g ==> (#[trigger] games_view(games@)[j]).app_id != id,
        decreases games@.len() - g,
    {
        if games[g].app_id == id {
            return Some(g);
        }
        g = g + 1;
    }
    None
}

/// Find the first game whose primary (first-listed) client is `sel`.
pub fn find_by_first_client(games: &Vec<Game>, sel: &str) -> (r: Option<usize>)
    ensures
        match r {
            Some(g) => {
                &&& (g as int) < games@.len()
                &&& games_view(games@)[g as int].client.len() > 0
                &&& games_view(games@)[g as int].client[0] == sel@
                &&& forall|j: int|
                    0 <= j < g ==> !((#[trigger] games_view(games@)[j]).client.len() > 0
                        && games_view(games@)[j].client[0] == sel@)
            },
            None => forall|j: int|
                0 <= j < games@.len() ==> !((#[trigger] games_view(games@)[j]).client.len() > 0
                    && games_view(games@)[j].client[0] == sel@),
        },
{
    let mut g: usize = 0;
    while g < games.len()
        invariant
            g <= games@.len(),
            forall|j: int|
                0 <= j < g ==> !((#[trigger] games_view(games@)[j]).client.len() > 0
                    && games_view(games@)[j].client[0] == sel@),
        decreases games@.len() - g,
    {
        let game = &games[g];
        if game.client.len() > 0 {
            if crate::text::str_eq(game.client[0].as_str(), sel) {
                return Some(g);
            }
        }
        g = g + 1;
    }
    None
}

/// The file name of a client's executable: the client identifier with
/// the executable suffix.
pub fn client_executable(c: &str) -> (r: String)
    ensures
        r@ == c@ + ".exe"@,
{
    String::from_str(c).concat(".exe")
}

} // verus!
