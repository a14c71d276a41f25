//! The installed games found in the Steam libraries.

use crate::text::{decimal, numbered};
use vstd::prelude::*;

verus! {

/// An installed game.
#[derive(Clone, Debug)]
pub struct Game {
    pub app_id: u32,
    pub name: String,
    pub install_dir: String,
    pub source: GameSource,
}

/// The store that a game comes from.
#[derive(Clone, Copy, Debug, PartialEq, Eq, Structural)]
pub enum GameSource {
    Steam,
}

/// What a game is, by the contents of its texts.
pub ghost struct GameView {
    pub app_id: u32,
    pub name: Seq<char>,
    pub install_dir: Seq<char>,
    pub source: GameSource,
}

impl View for Game {
    type V = GameView;

    open spec fn view(&self) -> GameView {
        GameView {
            app_id: self.app_id,
            name: self.name@,
            install_dir: self.install_dir@,
            source: self.source,
        }
    }
}

impl Game {
    /// A game with the same contents.
    pub fn copy(&self) -> (game: Game)
        ensures
            game@ == self@,
    {
        Game {
            app_id: self.app_id,
            name: self.name.clone(),
            install_dir: self.install_dir.clone(),
            source: self.source,
        }
    }
}

/// What a list of games holds.
pub open spec fn game_views(games: Seq<Game>) -> Seq<GameView> {
    games.map_values(|game: Game| game@)
}

/// An app as a Steam library lists it.
#[derive(Clone, Debug)]
pub struct SteamApp {
    pub app_id: u32,
    pub name: Option<String>,
    pub install_dir: String,
}

/// The game that a Steam app stands for. One without a name is called by its
/// number.
pub open spec fn game_of(app: SteamApp) -> GameView {
    GameView {
        app_id: app.app_id,
        name: match app.name {
            Some(name) => name@,
            None => "App "@ + decimal(app.app_id as nat),
        },
        install_dir: app.install_dir@,
        source: GameSource::Steam,
    }
}

/// The games of one library: those of its apps that could be read, in order.
pub open spec fn library_games(apps: Seq<Option<SteamApp>>) -> Seq<GameView>
    decreases apps.len(),
{
    if apps.len() == 0 {
        Seq::empty()
    } else {
        let before = library_games(apps.drop_last());
        match apps.last() {
            Some(app) => before.push(game_of(app)),
            None => before,
        }
    }
}

/// The games of all libraries that could be read, in order.
pub open spec fn scanned_games(libraries: Seq<Option<Vec<Option<SteamApp>>>>) -> Seq<GameView>
    decreases libraries.len(),
{
    if libraries.len() == 0 {
        Seq::empty()
    } else {
        let before = scanned_games(libraries.drop_last());
        match libraries.last() {
            Some(apps) => before + library_games(apps@),
            None => before,
        }
    }
}

fn make_game(app: &SteamApp) -> (game: Game)
    ensures
        game@ == game_of(*app),
{
    let name = match &app.name {
        Some(name) => name.clone(),
        None => {
            let text = numbered("App ", app.app_id as u128, "");
            proof {
                reveal_strlit("");
            }
            assert(text@ =~= "App "@ + decimal(app.app_id as nat));
            text
        },
    };
    Game {
        app_id: app.app_id,
        name,
        install_dir: app.install_dir.clone(),
        source: GameSource::Steam,
    }
}

fn scan_library(apps: &Vec<Option<SteamApp>>, games: &mut Vec<Game>)
    ensures
        game_views(final(games)@) == game_views(old(games)@) + library_games(apps@),
{
    let ghost before = game_views(games@);
    let mut i: usize = 0;
    assert(before + library_games(apps@.take(0)) =~= before);
    while i < apps.len()
        invariant
            i <= apps.len(),
            game_views(games@) == before + library_games(apps@.take(i as int)),
        decreases apps.len() - i,
    {
        let ghost next = apps@.take(i + 1);
        assert(next.drop_last() =~= apps@.take(i as int));
        assert(next.last() == apps@[i as int]);
        let ghost so_far = games@;
        if let Some(app) = &apps[i] {
            games.push(make_game(app));
            assert(game_views(games@) =~= game_views(so_far).push(game_of(*app)));
        }
        assert(game_views(games@) =~= before + library_games(next));
        i += 1;
    }
    assert(apps@.take(i as int) =~= apps@);
}

/// The unified list of all installed games. A library or an app that could not
/// be read is `None` and left out.
pub fn scan_all(libraries: &Vec<Option<Vec<Option<SteamApp>>>>) -> (games: Vec<Game>)
    ensures
        game_views(games@) == scanned_games(libraries@),
{
    let mut games: Vec<Game> = Vec::new();
    let mut i: usize = 0;
    assert(game_views(games@) =~= scanned_games(libraries@.take(0)));
    while i < libraries.len()
        invariant
            i <= libraries.len(),
            game_views(games@) == scanned_games(libraries@.take(i as int)),
        decreases libraries.len() - i,
    {
        let ghost next = libraries@.take(i + 1);
        assert(next.drop_last() =~= libraries@.take(i as int));
        assert(next.last() == libraries@[i as int]);
        if let Some(apps) = &libraries[i] {
            scan_library(apps, &mut games);
        }
        i += 1;
    }
    assert(libraries@.take(i as int) =~= libraries@);
    games
}

/// Scanning adds nothing of its own: there are at most as many games as apps
/// were listed, and every game comes from Steam.
pub proof fn law_library_games_come_from_apps(apps: Seq<Option<SteamApp>>)
    ensures
        library_games(apps).len() <= apps.len(),
        forall|i: int|
            0 <= i < library_games(apps).len() ==> exists|k: int|
                0 <= k < apps.len() && #[trigger] apps[k] is Some && #[trigger] library_games(
                    apps,
                )[i] == game_of(apps[k]->0),
    decreases apps.len(),
{
    if apps.len() > 0 {
        let rest = apps.drop_last();
        law_library_games_come_from_apps(rest);
        assert forall|i: int| 0 <= i < library_games(apps).len() implies exists|k: int|
            0 <= k < apps.len() && #[trigger] apps[k] is Some && #[trigger] library_games(apps)[i]
                == game_of(apps[k]->0) by {
            if i < library_games(rest).len() {
                let k = choose|k: int|
                    0 <= k < rest.len() && #[trigger] rest[k] is Some && library_games(rest)[i]
                        == game_of(rest[k]->0);
                assert(apps[k] == rest[k]);
                assert(library_games(apps)[i] == library_games(rest)[i]);
            } else {
                assert(apps[apps.len() - 1] is Some);
            }
        }
    }
}

/// Every app that could be read is a game, in the order of the library: with the app's id
/// and directory, and its name, or one made of its id where it has none.
pub proof fn law_every_app_is_a_game(apps: Seq<Option<SteamApp>>, app: SteamApp)
    ensures
        ({
            let games = library_games(apps.push(Some(app)));
            let game = games.last();
            &&& games.len() == library_games(apps).len() + 1
            &&& games.take(library_games(apps).len() as int) == library_games(apps)
            &&& game.app_id == app.app_id
            &&& game.install_dir == app.install_dir@
            &&& app.name is Some ==> game.name == app.name->0@
            &&& app.name is None ==> game.name == "App "@ + decimal(app.app_id as nat)
            &&& library_games(apps.push(None)) == library_games(apps)
            &&& library_games(Seq::empty()).len() == 0
        }),
{
    assert(apps.push(Some(app)).drop_last() =~= apps);
    assert(apps.push(None).drop_last() =~= apps);
    assert(library_games(apps.push(Some(app))).take(library_games(apps).len() as int)
        =~= library_games(apps));
}

/// Every library that could be read adds its games behind those of the libraries before it;
/// one that could not be read adds none.
pub proof fn law_every_library_is_scanned(
    libraries: Seq<Option<Vec<Option<SteamApp>>>>,
    apps: Vec<Option<SteamApp>>,
)
    ensures
        scanned_games(libraries.push(Some(apps))) == scanned_games(libraries) + library_games(
            apps@,
        ),
        scanned_games(libraries.push(None)) == scanned_games(libraries),
        scanned_games(Seq::empty()).len() == 0,
{
    assert(libraries.push(Some(apps)).drop_last() =~= libraries);
    assert(libraries.push(None).drop_last() =~= libraries);
}

/// What a game is, is what its fields say, and a list of games holds each of them.
pub proof fn law_games_are_what_they_say(games: Seq<Game>, i: int)
    requires
        0 <= i < games.len(),
    ensures
        ({
            let game = game_views(games)[i];
            &&& game_views(games).len() == games.len()
            &&& game.app_id == games[i].app_id
            &&& game.name == games[i].name@
            &&& game.install_dir == games[i].install_dir@
            &&& game.source == games[i].source
        }),
{
}

} // verus!
