use vstd::prelude::*;
use crate::player::{Player, PlayerRecord};
use crate::rating::{compute_new_ratings, new_ratings, STARTING_RATING};
use crate::storage::{lists_players, EloStorage};

verus! {

/// Why a game could not be recorded.
#[derive(Debug, Clone)]
pub enum EloError {
    /// A player was reported to have played against themself; holds the name.
    SelfPlay(String),
}

impl EloError {
    /// The name of the player the error is about.
    pub fn player(&self) -> (r: &str)
        ensures
            match self {
                EloError::SelfPlay(n) => r@ == n@,
            },
    {
        match self {
            EloError::SelfPlay(n) => n.as_str(),
        }
    }
}

/// A player seen for the first time: the starting rating and no games.
pub open spec fn fresh_player(name: Seq<char>) -> PlayerRecord {
    PlayerRecord { name, rating: STARTING_RATING as int, games: 0 }
}

/// The players once `name` is known: unchanged if it already is, else with a fresh
/// player of that name.
pub open spec fn registered(m: Map<Seq<char>, PlayerRecord>, name: Seq<char>) -> Map<Seq<char>, PlayerRecord> {
    if m.contains_key(name) {
        m
    } else {
        m.insert(name, fresh_player(name))
    }
}

/// The players after a game between `a` and `b`, both registered first: `a` won
/// unless `is_draw`, each gets its new rating and one more game.
pub open spec fn after_game(
    m: Map<Seq<char>, PlayerRecord>,
    a: Seq<char>,
    b: Seq<char>,
    is_draw: bool,
) -> Map<Seq<char>, PlayerRecord> {
    let known = registered(registered(m, a), b);
    let (ra, rb) = new_ratings(known[a].rating as int, known[b].rating as int, is_draw);
    known.insert(a, PlayerRecord { name: a, rating: ra, games: known[a].games + 1 }).insert(
        b,
        PlayerRecord { name: b, rating: rb, games: known[b].games + 1 },
    )
}

/// One more game of the player of that name, if it exists, still fits in a `usize`.
pub open spec fn games_fit(m: Map<Seq<char>, PlayerRecord>, name: Seq<char>) -> bool {
    m.contains_key(name) ==> m[name].games < usize::MAX
}

/// Games played so far by the player of that name; none if it is not known.
pub open spec fn games_of(m: Map<Seq<char>, PlayerRecord>, name: Seq<char>) -> nat {
    if m.contains_key(name) {
        m[name].games
    } else {
        0
    }
}

/// Each game adds exactly one to the games of each of its two players, whatever
/// the outcome, and leaves every other player as it was.
pub proof fn lemma_game_counts_once(m: Map<Seq<char>, PlayerRecord>, a: Seq<char>, b: Seq<char>, is_draw: bool)
    requires
        a != b,
    ensures
        after_game(m, a, b, is_draw)[a].games == games_of(m, a) + 1,
        after_game(m, a, b, is_draw)[b].games == games_of(m, b) + 1,
        forall|k: Seq<char>| k != a && k != b ==> (#[trigger] after_game(m, a, b, is_draw).contains_key(k)
            == m.contains_key(k) && (m.contains_key(k) ==> after_game(m, a, b, is_draw)[k] == m[k])),
{
}

/// Two players seen for the first time are registered with the starting rating and
/// no games before the game is applied.
pub proof fn lemma_new_players_start_fresh(m: Map<Seq<char>, PlayerRecord>, a: Seq<char>, b: Seq<char>, is_draw: bool)
    requires
        a != b,
        !m.contains_key(a),
        !m.contains_key(b),
    ensures
        after_game(m, a, b, is_draw)[a] == (PlayerRecord {
            name: a,
            rating: new_ratings(STARTING_RATING as int, STARTING_RATING as int, is_draw).0,
            games: 1,
        }),
        after_game(m, a, b, is_draw)[b] == (PlayerRecord {
            name: b,
            rating: new_ratings(STARTING_RATING as int, STARTING_RATING as int, is_draw).1,
            games: 1,
        }),
{
}

/// A player seen for the first time.
pub fn starting_player(name: &str) -> (p: Player)
    ensures
        p@ == fresh_player(name@),
{
    Player::new(name.to_owned(), STARTING_RATING, 0)
}

/// The player to add under `name`, given what a lookup of that name found: a
/// player seen for the first time when nothing was found, else none.
pub fn registration(name: &str, found: &Option<Player>) -> (r: Option<Player>)
    ensures
        r is Some <==> found is None,
        r matches Some(p) ==> p@ == fresh_player(name@),
{
    match found {
        Some(_) => None,
        None => Some(starting_player(name)),
    }
}

/// Accepts a game between two different players; a game of a player against
/// themself is refused with the player's name.
pub fn check_opponents(player1: &str, player2: &str) -> (r: Result<(), EloError>)
    ensures
        match r {
            Ok(()) => player1@ != player2@,
            Err(e) => player1@ == player2@ && e == EloError::SelfPlay(e->SelfPlay_0) && e->SelfPlay_0@ == player1@,
        },
{
    if same_name(player1, player2) {
        Err(EloError::SelfPlay(player1.to_owned()))
    } else {
        Ok(())
    }
}

/// The two players after a game between them: the first won unless `is_draw`.
/// Each gets its new rating and one more game.
pub fn play_game(first: &Player, second: &Player, is_draw: bool) -> (r: (Player, Player))
    requires
        first@.games < usize::MAX,
        second@.games < usize::MAX,
    ensures
        r.0@ == (PlayerRecord {
            name: first@.name,
            rating: new_ratings(first@.rating as int, second@.rating as int, is_draw).0,
            games: first@.games + 1,
        }),
        r.1@ == (PlayerRecord {
            name: second@.name,
            rating: new_ratings(first@.rating as int, second@.rating as int, is_draw).1,
            games: second@.games + 1,
        }),
{
    let (r1, r2) = compute_new_ratings(first.rating(), second.rating(), is_draw);
    (first.after_game(r1), second.after_game(r2))
}

/// A draw between two known players of equal rating leaves both ratings as they
/// were.
pub proof fn lemma_even_draw_keeps_ratings(m: Map<Seq<char>, PlayerRecord>, a: Seq<char>, b: Seq<char>)
    requires
        a != b,
        m.contains_key(a),
        m.contains_key(b),
        m[a].rating == m[b].rating,
        i64::MIN <= m[a].rating <= i64::MAX,
    ensures
        after_game(m, a, b, true)[a].rating == m[a].rating,
        after_game(m, a, b, true)[b].rating == m[b].rating,
{
    crate::rating::lemma_even_draw_unchanged(m[a].rating);
}

/// Whether two names are the same.
fn same_name(a: &str, b: &str) -> (r: bool)
    ensures
        r == (a@ == b@),
{
    a.to_owned() == b.to_owned()
}

/// Records games between players and keeps their ratings in a store.
pub struct Elo<S: EloStorage> {
    players: S,
}

impl<S: EloStorage> Elo<S> {
    /// The players, by name.
    pub closed spec fn players(&self) -> Map<Seq<char>, PlayerRecord> {
        self.players.players()
    }

    /// The store is in a consistent state.
    pub closed spec fn inv(&self) -> bool {
        self.players.inv()
    }

    /// A rating service over the given store.
    pub fn new(players: S) -> (r: Elo<S>)
        requires
            players.inv(),
        ensures
            r.inv(),
            r.players() == players.players(),
    {
        Elo { players }
    }

    /// Adds a player with the starting rating and no games, replacing one of the same name.
    pub fn add_player(&mut self, name: &str)
        requires
            old(self).inv(),
        ensures
            final(self).inv(),
            final(self).players() == old(self).players().insert(name@, fresh_player(name@)),
    {
        self.players.add_player(starting_player(name));
    }

    /// Adds a player with the starting rating unless one of that name exists.
    pub fn try_add(&mut self, name: &str)
        requires
            old(self).inv(),
        ensures
            final(self).inv(),
            final(self).players() == registered(old(self).players(), name@),
    {
        if self.players.get(name).is_none() {
            self.add_player(name);
        }
    }

    /// Records a game between `player1` and `player2`. If `is_draw` is false the
    /// first player won, else the game was a draw. Players not yet known are added
    /// first. A player cannot play against themself: that is an error, and nothing
    /// is changed.
    pub fn add_game(&mut self, player1: &str, player2: &str, is_draw: bool) -> (r: Result<(), EloError>)
        requires
            old(self).inv(),
            player1@ != player2@ ==> games_fit(old(self).players(), player1@),
            player1@ != player2@ ==> games_fit(old(self).players(), player2@),
        ensures
            final(self).inv(),
            match r {
                Ok(()) => player1@ != player2@ && final(self).players() == after_game(
                    old(self).players(),
                    player1@,
                    player2@,
                    is_draw,
                ),
                Err(e) => player1@ == player2@ && final(self).players() == old(self).players()
                    && e == EloError::SelfPlay(e->SelfPlay_0) && e->SelfPlay_0@ == player1@,
            },
    {
        if let Err(e) = check_opponents(player1, player2) {
            return Err(e);
        }
        self.try_add(player1);
        self.try_add(player2);
        proof {
            self.players.lemma_names_are_keys();
        }
        let (first, second) = {
            let p1 = self.players.get(player1).unwrap();
            let p2 = self.players.get(player2).unwrap();
            play_game(p1, p2, is_draw)
        };
        self.players.update_player(&first);
        self.players.update_player(&second);
        Ok(())
    }

    /// The player of that name, if any.
    pub fn get_player(&self, name: &str) -> (r: Option<&Player>)
        requires
            self.inv(),
        ensures
            match r {
                Some(p) => self.players().contains_key(name@) && p@ == self.players()[name@] && p@.name == name@,
                None => !self.players().contains_key(name@),
            },
    {
        self.players.get(name)
    }

    /// Every player, each once, in no particular order.
    pub fn all_players(&self) -> (r: Vec<Player>)
        requires
            self.inv(),
        ensures
            lists_players(r@, self.players()),
    {
        self.players.all_players()
    }

    /// Gives back the store.
    pub fn into_storage(self) -> (r: S)
        ensures
            r.players() == self.players(),
            self.inv() ==> r.inv(),
    {
        self.players
    }

    /// Sets the rating of a known player.
    pub fn set_rating(&mut self, name: &str, rating: i64)
        requires
            old(self).inv(),
            old(self).players().contains_key(name@),
        ensures
            final(self).inv(),
            final(self).players() == old(self).players().insert(
                name@,
                PlayerRecord { rating: rating as int, ..old(self).players()[name@] },
            ),
    {
        proof {
            self.players.lemma_names_are_keys();
        }
        let updated = self.players.get(name).unwrap().with_rating(rating);
        self.players.update_player(&updated);
    }

    /// Sets the number of games of a known player.
    pub fn set_number_of_games(&mut self, name: &str, number_of_games: usize)
        requires
            old(self).inv(),
            old(self).players().contains_key(name@),
        ensures
            final(self).inv(),
            final(self).players() == old(self).players().insert(
                name@,
                PlayerRecord { games: number_of_games as nat, ..old(self).players()[name@] },
            ),
    {
        proof {
            self.players.lemma_names_are_keys();
        }
        let updated = self.players.get(name).unwrap().with_number_of_games(number_of_games);
        self.players.update_player(&updated);
    }
}

} // verus!
