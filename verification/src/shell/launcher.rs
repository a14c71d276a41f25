//! The launcher's game grid: the order of the games, the search, and what each
//! card shows.

use crate::app::game_scanner::{game_views, Game, GameView};
use crate::text::{
    byte_hash, chars_of, comes_no_later, contains_text, decimal, initials, initials_of,
    law_found_where_it_stands, law_hash_takes_in_every_byte, law_occurs, law_text_order_transitive,
    law_texts_totally_ordered, law_what_is_found_stands_there, lowercase, name_hash, numbered,
    occurs, spelled_at, text_at_most,
};
use vstd::prelude::*;
use vstd::string::*;
use vstd::utf8::encode_utf8;

verus! {

/// What games are ordered by: the name in lower case.
pub open spec fn sort_key(game: GameView) -> Seq<char> {
    lowercase(game.name)
}

/// `game` put behind everything in `sorted` that does not come after it.
pub open spec fn insert_game(sorted: Seq<GameView>, game: GameView) -> Seq<GameView>
    decreases sorted.len(),
{
    if sorted.len() == 0 || text_at_most(sort_key(sorted.last()), sort_key(game)) {
        sorted.push(game)
    } else {
        insert_game(sorted.drop_last(), game).push(sorted.last())
    }
}

/// The games in the order of their names, whatever the case of the letters;
/// games of the same name stay in the order in which they came.
pub open spec fn by_name(games: Seq<GameView>) -> Seq<GameView>
    decreases games.len(),
{
    if games.len() == 0 {
        Seq::empty()
    } else {
        insert_game(by_name(games.drop_last()), games.last())
    }
}

/// The games with one key, in order.
pub open spec fn with_key(games: Seq<GameView>, key: Seq<char>) -> Seq<GameView>
    decreases games.len(),
{
    if games.len() == 0 {
        Seq::empty()
    } else if sort_key(games.last()) == key {
        with_key(games.drop_last(), key).push(games.last())
    } else {
        with_key(games.drop_last(), key)
    }
}

/// No game comes before one that it stands behind.
pub open spec fn sorted_by_name(games: Seq<GameView>) -> bool {
    forall|i: int, j: int|
        0 <= i <= j < games.len() ==> text_at_most(
            sort_key(#[trigger] games[i]),
            sort_key(#[trigger] games[j]),
        )
}

proof fn lemma_insert_position(sorted: Seq<GameView>, game: GameView, position: int)
    requires
        0 <= position <= sorted.len(),
        position > 0 ==> text_at_most(sort_key(sorted[position - 1]), sort_key(game)),
        forall|i: int|
            position <= i < sorted.len() ==> !text_at_most(
                sort_key(#[trigger] sorted[i]),
                sort_key(game),
            ),
    ensures
        insert_game(sorted, game) == sorted.insert(position, game),
    decreases sorted.len(),
{
    if position == sorted.len() {
        assert(sorted.insert(position, game) =~= sorted.push(game));
    } else {
        let rest = sorted.drop_last();
        assert forall|i: int| position <= i < rest.len() implies !text_at_most(
            sort_key(#[trigger] rest[i]),
            sort_key(game),
        ) by {
            assert(rest[i] == sorted[i]);
        }
        lemma_insert_position(rest, game, position);
        assert(sorted.insert(position, game) =~= rest.insert(position, game).push(sorted.last()));
    }
}

proof fn lemma_insert_sorted(sorted: Seq<GameView>, game: GameView)
    requires
        sorted_by_name(sorted),
    ensures
        sorted_by_name(insert_game(sorted, game)),
        insert_game(sorted, game).len() == sorted.len() + 1,
        forall|i: int|
            0 <= i < insert_game(sorted, game).len() ==> text_at_most(
                sort_key(#[trigger] insert_game(sorted, game)[i]),
                sort_key(game),
            ) || (sorted.len() > 0 && text_at_most(
                sort_key(insert_game(sorted, game)[i]),
                sort_key(sorted.last()),
            )),
    decreases sorted.len(),
{
    let key = sort_key(game);
    law_texts_totally_ordered(key, key);
    if sorted.len() == 0 || text_at_most(sort_key(sorted.last()), key) {
        let placed = sorted.push(game);
        assert forall|i: int, j: int| 0 <= i <= j < placed.len() implies text_at_most(
            sort_key(#[trigger] placed[i]),
            sort_key(#[trigger] placed[j]),
        ) by {
            if j == sorted.len() && i < j {
                law_text_order_transitive(sort_key(sorted[i]), sort_key(sorted.last()), key);
            }
        }
        assert forall|i: int| 0 <= i < placed.len() implies text_at_most(
            sort_key(#[trigger] placed[i]),
            key,
        ) by {
            if i < sorted.len() {
                law_text_order_transitive(sort_key(sorted[i]), sort_key(sorted.last()), key);
            }
        }
    } else {
        let last = sort_key(sorted.last());
        let rest = sorted.drop_last();
        law_texts_totally_ordered(key, last);
        law_texts_totally_ordered(last, last);
        assert(sorted_by_name(rest));
        lemma_insert_sorted(rest, game);
        let inner = insert_game(rest, game);
        let placed = inner.push(sorted.last());
        assert forall|i: int| 0 <= i < inner.len() implies text_at_most(
            sort_key(#[trigger] inner[i]),
            last,
        ) by {
            if text_at_most(sort_key(inner[i]), key) {
                law_text_order_transitive(sort_key(inner[i]), key, last);
            } else {
                let before = sorted[sorted.len() - 2];
                assert(rest.last() == before);
                assert(text_at_most(sort_key(before), last));
                law_text_order_transitive(sort_key(inner[i]), sort_key(before), last);
            }
        }
        assert forall|i: int, j: int| 0 <= i <= j < placed.len() implies text_at_most(
            sort_key(#[trigger] placed[i]),
            sort_key(#[trigger] placed[j]),
        ) by {
            if j < inner.len() {
                assert(placed[i] == inner[i] && placed[j] == inner[j]);
            } else if i < inner.len() {
                assert(placed[i] == inner[i]);
            }
        }
        assert forall|i: int| 0 <= i < placed.len() implies text_at_most(
            sort_key(#[trigger] placed[i]),
            last,
        ) by {
            if i < inner.len() {
                assert(placed[i] == inner[i]);
            }
        }
    }
}

proof fn lemma_insert_with_key(sorted: Seq<GameView>, game: GameView, key: Seq<char>)
    ensures
        with_key(insert_game(sorted, game), key) == with_key(sorted.push(game), key),
    decreases sorted.len(),
{
    assert(sorted.push(game).drop_last() =~= sorted);
    law_texts_totally_ordered(sort_key(game), sort_key(game));
    if sorted.len() == 0 || text_at_most(sort_key(sorted.last()), sort_key(game)) {
    } else {
        let rest = sorted.drop_last();
        let placed = insert_game(rest, game);
        lemma_insert_with_key(rest, game, key);
        assert(rest.push(game).drop_last() =~= rest);
        assert(placed.push(sorted.last()).drop_last() =~= placed);
        assert(with_key(sorted, key) == if sort_key(sorted.last()) == key {
            with_key(rest, key).push(sorted.last())
        } else {
            with_key(rest, key)
        });
    }
}

/// The order of the games: by name, and under each name the same games in the
/// same order as they came. So games are reordered, and none is lost or made
/// up.
pub proof fn law_by_name(games: Seq<GameView>, key: Seq<char>)
    ensures
        sorted_by_name(by_name(games)),
        by_name(games).len() == games.len(),
        with_key(by_name(games), key) == with_key(games, key),
    decreases games.len(),
{
    if games.len() > 0 {
        let rest = games.drop_last();
        law_by_name(rest, key);
        lemma_insert_sorted(by_name(rest), games.last());
        lemma_insert_with_key(by_name(rest), games.last(), key);
        let pushed = by_name(rest).push(games.last());
        assert(pushed.drop_last() =~= by_name(rest));
    }
}

/// Sort games by name, ignoring case.
pub fn sort_games(games: Vec<Game>) -> (sorted: Vec<Game>)
    ensures
        game_views(sorted@) == by_name(game_views(games@)),
{
    let ghost all = game_views(games@);
    let mut rest = games;
    let mut sorted: Vec<Game> = Vec::new();
    let mut keys: Vec<Vec<char>> = Vec::new();
    let ghost mut done: int = 0;
    assert(game_views(rest@) =~= all.skip(0));
    assert(game_views(sorted@) =~= by_name(all.take(0)));
    while rest.len() > 0
        invariant
            0 <= done <= all.len(),
            game_views(rest@) == all.skip(done),
            game_views(sorted@) == by_name(all.take(done)),
            keys@.len() == sorted@.len(),
            forall|k: int|
                0 <= k < keys@.len() ==> (#[trigger] keys@[k])@ == sort_key(sorted@[k]@),
        decreases rest.len(),
    {
        let ghost views = game_views(sorted@);
        assert(game_views(rest@).len() == rest@.len());
        assert(game_views(rest@)[0] == rest@[0]@);
        let ghost waiting = rest@;
        let game = rest.remove(0);
        assert forall|k: int| 0 <= k < rest@.len() implies #[trigger] game_views(rest@)[k]
            == all.skip(done + 1)[k] by {
            assert(game_views(waiting)[k + 1] == waiting[k + 1]@);
            assert(all.skip(done)[k + 1] == all[done + k + 1]);
        }
        assert(game_views(rest@) =~= all.skip(done + 1));
        let lower = game.name.as_str().to_lowercase();
        let key = chars_of(lower.as_str());
        let mut position: usize = sorted.len();
        while position > 0 && !comes_no_later(&keys[position - 1], &key)
            invariant
                position <= sorted.len(),
                keys@.len() == sorted@.len(),
                views == game_views(sorted@),
                key@ == sort_key(game@),
                forall|k: int|
                    0 <= k < keys@.len() ==> (#[trigger] keys@[k])@ == sort_key(sorted@[k]@),
                forall|k: int|
                    position <= k < views.len() ==> !text_at_most(
                        sort_key(#[trigger] views[k]),
                        sort_key(game@),
                    ),
            decreases position,
        {
            position -= 1;
        }
        proof {
            lemma_insert_position(views, game@, position as int);
            assert(all.take(done + 1).drop_last() =~= all.take(done));
            assert(all.take(done + 1).last() == game@);
        }
        let ghost view = game@;
        sorted.insert(position, game);
        keys.insert(position, key);
        proof {
            assert(game_views(sorted@) =~= views.insert(position as int, view));
            done = done + 1;
        }
    }
    assert(all.take(done) =~= all);
    sorted
}

/// Whether a game is shown for a search: an empty search shows every game, any
/// other those whose name contains it, whatever the case of the letters.
pub open spec fn found_by(game: GameView, search: Seq<char>) -> bool {
    search.len() == 0 || occurs(lowercase(search), lowercase(game.name))
}

/// What a game card shows, by the contents of its texts.
pub ghost struct CardView {
    pub app_id: u32,
    pub title: Seq<char>,
    pub initials: Seq<char>,
    pub hue: int,
}

/// The card of a game: its name, the initials of the first two words, and a
/// hue that depends on the name.
pub open spec fn card_of(game: GameView) -> CardView {
    CardView {
        app_id: game.app_id,
        title: game.name,
        initials: initials_of(game.name),
        hue: byte_hash(encode_utf8(game.name)) % 360,
    }
}

/// The cards shown for a search, in the order of the games.
pub open spec fn cards_for(games: Seq<GameView>, search: Seq<char>) -> Seq<CardView>
    decreases games.len(),
{
    if games.len() == 0 {
        Seq::empty()
    } else {
        let before = cards_for(games.drop_last(), search);
        if found_by(games.last(), search) {
            before.push(card_of(games.last()))
        } else {
            before
        }
    }
}

/// What a game card shows.
#[derive(Clone, Debug)]
pub struct GameCard {
    pub app_id: u32,
    pub title: String,
    pub initials: String,
    pub hue: u32,
}

impl View for GameCard {
    type V = CardView;

    open spec fn view(&self) -> CardView {
        CardView {
            app_id: self.app_id,
            title: self.title@,
            initials: self.initials@,
            hue: self.hue as int,
        }
    }
}

/// What a list of cards shows.
pub open spec fn card_views(cards: Seq<GameCard>) -> Seq<CardView> {
    cards.map_values(|card: GameCard| card@)
}

/// What stands in place of an empty grid.
#[derive(Clone, Copy, Debug, PartialEq, Eq, Structural)]
pub enum EmptyNotice {
    /// There are cards.
    Filled,
    /// No games are installed.
    NoGames,
    /// The search found none of the games.
    NoMatches,
}

/// The launcher page for a search.
#[derive(Clone, Debug)]
pub struct LauncherPage {
    /// How many games are installed.
    pub count_label: String,
    pub cards: Vec<GameCard>,
    pub notice: EmptyNotice,
}

fn make_card(game: &Game) -> (card: GameCard)
    ensures
        card@ == card_of(game@),
{
    GameCard {
        app_id: game.app_id,
        title: game.name.clone(),
        initials: initials(game.name.as_str()),
        hue: name_hash(game.name.as_str()) % 360,
    }
}

/// Lay out the launcher page: the cards of the games that the search finds, or
/// a notice where there are none.
pub fn launcher_page(games: &Vec<Game>, search: &str) -> (page: LauncherPage)
    ensures
        page.count_label@ == decimal(games@.len()) + " games"@,
        card_views(page.cards@) == cards_for(game_views(games@), search@),
        page.notice == if page.cards@.len() > 0 {
            EmptyNotice::Filled
        } else if games@.len() == 0 {
            EmptyNotice::NoGames
        } else {
            EmptyNotice::NoMatches
        },
{
    let ghost views = game_views(games@);
    let lower = search.to_lowercase();
    let mut cards: Vec<GameCard> = Vec::new();
    let mut i: usize = 0;
    assert(card_views(cards@) =~= cards_for(views.take(0), search@));
    while i < games.len()
        invariant
            i <= games.len(),
            views == game_views(games@),
            lower@ == lowercase(search@),
            card_views(cards@) == cards_for(views.take(i as int), search@),
        decreases games.len() - i,
    {
        let ghost next = views.take(i + 1);
        assert(next.drop_last() =~= views.take(i as int));
        assert(next.last() == games@[i as int]@);
        let ghost so_far = cards@;
        let name = games[i].name.as_str().to_lowercase();
        if search.is_empty() || contains_text(name.as_str(), lower.as_str()) {
            let card = make_card(&games[i]);
            cards.push(card);
            assert(card_views(cards@) =~= card_views(so_far).push(card@));
        }
        i += 1;
    }
    assert(views.take(i as int) =~= views);
    let notice = if cards.len() > 0 {
        EmptyNotice::Filled
    } else if games.len() == 0 {
        EmptyNotice::NoGames
    } else {
        EmptyNotice::NoMatches
    };
    let count_label = numbered("", games.len() as u128, " games");
    proof {
        reveal_strlit("");
    }
    assert(count_label@ =~= decimal(games@.len()) + " games"@);
    LauncherPage { count_label, cards, notice }
}

/// How many columns the grid has where `fit` cards fit side by side.
pub fn grid_columns(fit: usize) -> (columns: usize)
    ensures
        columns == if fit == 0 {
            1
        } else {
            fit
        },
{
    if fit == 0 {
        1
    } else {
        fit
    }
}

/// Whether the card at this place begins a new row.
pub fn begins_row(index: usize, columns: usize) -> (answer: bool)
    requires
        columns > 0,
    ensures
        answer == (index > 0 && index % columns == 0),
{
    index > 0 && index % columns == 0
}

/// The game to launch when these cards were clicked: that of the last one
/// clicked.
pub open spec fn clicked_game(cards: Seq<CardView>, clicks: Seq<bool>) -> Option<u32>
    decreases cards.len(),
{
    if cards.len() == 0 {
        None
    } else if clicks.last() {
        Some(cards.last().app_id)
    } else {
        clicked_game(cards.drop_last(), clicks.drop_last())
    }
}

/// The game to launch when these cards were clicked, one entry per card.
pub fn launch_clicked(cards: &Vec<GameCard>, clicks: &Vec<bool>) -> (game: Option<u32>)
    requires
        clicks@.len() == cards@.len(),
    ensures
        game == clicked_game(card_views(cards@), clicks@),
{
    let ghost views = card_views(cards@);
    let mut end: usize = cards.len();
    assert(views.take(end as int) =~= views);
    assert(clicks@.take(end as int) =~= clicks@);
    while end > 0
        invariant
            end <= cards.len(),
            clicks@.len() == cards@.len(),
            views == card_views(cards@),
            clicked_game(views, clicks@) == clicked_game(
                views.take(end as int),
                clicks@.take(end as int),
            ),
        decreases end,
    {
        assert(views.take(end as int).last() == cards@[end - 1]@);
        assert(clicks@.take(end as int).last() == clicks@[end - 1]);
        if clicks[end - 1] {
            return Some(cards[end - 1].app_id);
        }
        assert(views.take(end as int).drop_last() =~= views.take(end - 1));
        assert(clicks@.take(end as int).drop_last() =~= clicks@.take(end - 1));
        end -= 1;
    }
    None
}

/// The name of the first game with this id, or "Unknown".
pub open spec fn name_of(games: Seq<GameView>, app_id: u32) -> Seq<char>
    decreases games.len(),
{
    if games.len() == 0 {
        "Unknown"@
    } else if games[0].app_id == app_id {
        games[0].name
    } else {
        name_of(games.drop_first(), app_id)
    }
}

/// The name of the first game with this id, or "Unknown".
pub fn game_name(games: &Vec<Game>, app_id: u32) -> (name: String)
    ensures
        name@ == name_of(game_views(games@), app_id),
{
    let ghost views = game_views(games@);
    let mut i: usize = 0;
    assert(views.skip(0) =~= views);
    while i < games.len()
        invariant
            i <= games.len(),
            views == game_views(games@),
            name_of(views, app_id) == name_of(views.skip(i as int), app_id),
        decreases games.len() - i,
    {
        assert(views.skip(i as int)[0] == games@[i as int]@);
        assert(views.skip(i as int).drop_first() =~= views.skip(i + 1));
        if games[i].app_id == app_id {
            return games[i].name.clone();
        }
        i += 1;
    }
    "Unknown".to_owned()
}

/// An empty search shows a card for every game.
pub proof fn law_empty_search_shows_all(games: Seq<GameView>)
    ensures
        cards_for(games, Seq::empty()) == games.map_values(|game: GameView| card_of(game)),
    decreases games.len(),
{
    if games.len() > 0 {
        law_empty_search_shows_all(games.drop_last());
    }
    assert(cards_for(games, Seq::empty()) =~= games.map_values(|game: GameView| card_of(game)));
}

/// Searching for a game's own name, in any case, finds it.
pub proof fn law_search_finds_name(game: GameView, search: Seq<char>)
    requires
        lowercase(search) == lowercase(game.name),
    ensures
        found_by(game, search),
{
    law_occurs(lowercase(game.name));
}

/// Whether a card is that of a game that the search finds.
pub open spec fn is_found_card(games: Seq<GameView>, search: Seq<char>, card: CardView) -> bool {
    exists|k: int|
        0 <= k < games.len() && found_by(#[trigger] games[k], search) && card == card_of(games[k])
}

/// A search narrows the grid: every card shown is that of a game found, and no
/// more cards are shown than there are games.
pub proof fn law_cards_are_found(games: Seq<GameView>, search: Seq<char>)
    ensures
        cards_for(games, search).len() <= games.len(),
        forall|i: int|
            0 <= i < cards_for(games, search).len() ==> is_found_card(
                games,
                search,
                #[trigger] cards_for(games, search)[i],
            ),
    decreases games.len(),
{
    if games.len() > 0 {
        let rest = games.drop_last();
        let shown = cards_for(games, search);
        let shown_before = cards_for(rest, search);
        law_cards_are_found(rest, search);
        assert forall|i: int| 0 <= i < shown.len() implies is_found_card(
            games,
            search,
            #[trigger] shown[i],
        ) by {
            if i < shown_before.len() {
                assert(shown[i] == shown_before[i]);
                let k = choose|k: int|
                    0 <= k < rest.len() && found_by(#[trigger] rest[k], search) && shown_before[i]
                        == card_of(rest[k]);
                assert(games[k] == rest[k]);
            } else {
                let k = games.len() - 1;
                assert(found_by(games[k], search) && shown[i] == card_of(games[k]));
            }
        }
    }
}

/// The games are listed in the order of their whole names, whatever the case of the
/// letters: of two games in the list, the name of the first comes no later than that of
/// the second.
pub proof fn law_names_are_in_order(games: Seq<GameView>, i: int, j: int)
    requires
        0 <= i <= j < games.len(),
    ensures
        by_name(games).len() == games.len(),
        text_at_most(lowercase(by_name(games)[i].name), lowercase(by_name(games)[j].name)),
{
    law_by_name(games, Seq::empty());
    let sorted = by_name(games);
    assert(text_at_most(sort_key(sorted[i]), sort_key(sorted[j])));
}

/// The games of one name, in order, whatever the case of its letters.
pub open spec fn with_name(games: Seq<GameView>, lower: Seq<char>) -> Seq<GameView> {
    games.filter(|game: GameView| lowercase(game.name) == lower)
}

proof fn lemma_with_name(games: Seq<GameView>, lower: Seq<char>)
    ensures
        with_key(games, lower) == with_name(games, lower),
    decreases games.len(),
{
    reveal(Seq::filter);
    if games.len() > 0 {
        lemma_with_name(games.drop_last(), lower);
    }
}

/// Listing the games by name keeps them: under each name, whatever its case, are the same
/// games in the order in which they came, and no game is lost or made up.
pub proof fn law_listing_keeps_the_games(games: Seq<GameView>, lower: Seq<char>)
    ensures
        with_name(by_name(games), lower) == with_name(games, lower),
        by_name(games).to_multiset() == games.to_multiset(),
{
    law_by_name(games, lower);
    lemma_with_name(games, lower);
    lemma_with_name(by_name(games), lower);
    lemma_same_games(games);
}

proof fn lemma_insert_multiset(sorted: Seq<GameView>, game: GameView)
    ensures
        insert_game(sorted, game).to_multiset() == sorted.to_multiset().insert(game),
    decreases sorted.len(),
{
    broadcast use vstd::seq_lib::group_to_multiset_ensures;

    if sorted.len() > 0 && !text_at_most(sort_key(sorted.last()), sort_key(game)) {
        let rest = sorted.drop_last();
        lemma_insert_multiset(rest, game);
        assert(sorted =~= rest.push(sorted.last()));
        assert(sorted.to_multiset() =~= rest.to_multiset().insert(sorted.last()));
    }
    assert(insert_game(sorted, game).to_multiset() =~= sorted.to_multiset().insert(game));
}

proof fn lemma_same_games(games: Seq<GameView>)
    ensures
        by_name(games).to_multiset() == games.to_multiset(),
    decreases games.len(),
{
    broadcast use vstd::seq_lib::group_to_multiset_ensures;

    if games.len() > 0 {
        let rest = games.drop_last();
        lemma_same_games(rest);
        lemma_insert_multiset(by_name(rest), games.last());
        assert(games =~= rest.push(games.last()));
        assert(games.to_multiset() =~= rest.to_multiset().insert(games.last()));
    } else {
        assert(by_name(games) =~= games);
    }
}

/// A search finds the games whose name it is a piece of, whatever the case of the letters:
/// a piece from anywhere in the name finds the game, and a game that is found holds the
/// search in its name, character by character. Without a search every game is found.
pub proof fn law_search_finds_pieces_of_names(
    game: GameView,
    search: Seq<char>,
    before: Seq<char>,
    after: Seq<char>,
)
    ensures
        ({
            let shown = cards_for(seq![game], search).len();
            let name = lowercase(game.name);
            let piece = lowercase(search);
            &&& shown <= 1
            &&& search.len() == 0 ==> shown == 1
            &&& name == before + piece + after ==> shown == 1
            &&& shown == 1 && search.len() > 0 ==> exists|i: int|
                #[trigger] spelled_at(piece, name, i)
        }),
{
    reveal_with_fuel(cards_for, 2);
    assert(seq![game].drop_last() =~= Seq::empty());
    law_found_where_it_stands(before, lowercase(search), after);
    if found_by(game, search) && search.len() > 0 {
        law_what_is_found_stands_there(lowercase(search), lowercase(game.name));
    }
}

/// A card shows its own game: the game's id and name, and the initials and hue of that
/// name. The hue is an angle.
pub proof fn law_cards_show_their_game(game: GameView, search: Seq<char>)
    requires
        cards_for(seq![game], search).len() == 1,
    ensures
        ({
            let card = cards_for(seq![game], search)[0];
            &&& card.app_id == game.app_id
            &&& card.title == game.name
            &&& card.initials == initials_of(game.name)
            &&& 0 <= card.hue < 360
            &&& (byte_hash(encode_utf8(game.name)) - card.hue) % 360 == 0
        }),
{
    reveal_with_fuel(cards_for, 2);
    assert(seq![game].drop_last() =~= Seq::empty());
    assert(seq![game].last() == game);
    law_hash_takes_in_every_byte(encode_utf8(game.name), 0);
}

/// The cards stand in the order of the games: the cards of more games come behind those of
/// the first.
pub proof fn law_cards_keep_the_order(
    first: Seq<GameView>,
    more: Seq<GameView>,
    search: Seq<char>,
)
    ensures
        cards_for(first + more, search) == cards_for(first, search) + cards_for(more, search),
        cards_for(Seq::empty(), search).len() == 0,
    decreases more.len(),
{
    let all = first + more;
    if more.len() == 0 {
        assert(all =~= first);
        assert(cards_for(first, search) + cards_for(more, search) =~= cards_for(first, search));
    } else {
        law_cards_keep_the_order(first, more.drop_last(), search);
        assert(all.drop_last() =~= first + more.drop_last());
        assert(all.last() == more.last());
        assert(cards_for(all, search) =~= cards_for(first, search) + cards_for(more, search));
    }
}

/// A click launches the game of the card clicked, the last one where several were; without
/// a click no game is launched.
pub proof fn law_clicked_card_is_launched(cards: Seq<CardView>, clicks: Seq<bool>, i: int)
    requires
        clicks.len() == cards.len(),
    ensures
        0 <= i < cards.len() && clicks[i] && (forall|j: int|
            i < j < clicks.len() ==> !#[trigger] clicks[j]) ==> clicked_game(cards, clicks) == Some(
            cards[i].app_id,
        ),
        (forall|j: int| 0 <= j < clicks.len() ==> !#[trigger] clicks[j]) ==> clicked_game(
            cards,
            clicks,
        ) is None,
    decreases cards.len(),
{
    if cards.len() > 0 {
        let rest = clicks.drop_last();
        law_clicked_card_is_launched(cards.drop_last(), rest, i);
        assert(clicks.last() == clicks[clicks.len() - 1]);
        assert forall|j: int| 0 <= j < rest.len() implies #[trigger] rest[j] == clicks[j] by {}
    }
}

/// A game's name is that of the first game with its id; an id that no game has is unknown.
pub proof fn law_names_go_by_id(games: Seq<GameView>, app_id: u32, i: int)
    ensures
        0 <= i < games.len() && games[i].app_id == app_id && (forall|j: int|
            0 <= j < i ==> (#[trigger] games[j]).app_id != app_id) ==> name_of(games, app_id)
            == games[i].name,
        (forall|j: int| 0 <= j < games.len() ==> (#[trigger] games[j]).app_id != app_id)
            ==> name_of(games, app_id) == "Unknown"@,
    decreases games.len(),
{
    if games.len() > 0 {
        let rest = games.drop_first();
        law_names_go_by_id(rest, app_id, i - 1);
        assert forall|j: int| 0 <= j < rest.len() implies #[trigger] rest[j] == games[j + 1] by {}
    }
}

} // verus!
