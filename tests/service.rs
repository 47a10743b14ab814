use elo::elo::{Elo, EloError};
use elo::player::rank_players;
use elo::storage::{EloStorage, InMemoryStorage};

fn names(players: &[elo::player::Player]) -> Vec<String> {
    players.iter().map(|p| p.name().to_string()).collect()
}

#[test]
fn elo_single_no_friends() {
    let mut elo = Elo::new(InMemoryStorage::new());
    elo.add_player("a");

    assert!(elo.add_game("a", "a", false).is_err());
}

#[test]
fn elo_dual() {
    let mut elo = Elo::new(InMemoryStorage::new());
    elo.add_player("a");
    elo.add_player("b");

    elo.add_game("a", "b", false).unwrap();
    elo.add_game("b", "a", false).unwrap();

    assert_eq!(elo.get_player("a").unwrap().rating(), 999);
    assert_eq!(elo.get_player("b").unwrap().rating(), 1001);

    assert_eq!(elo.get_player("a").unwrap().number_of_games(), 2);
    assert_eq!(elo.get_player("b").unwrap().number_of_games(), 2);
}

#[test]
fn elo_dual_draw() {
    let mut elo = Elo::new(InMemoryStorage::new());
    elo.add_player("a");
    elo.add_player("b");

    elo.add_game("a", "b", true).unwrap();

    assert_eq!(elo.get_player("a").unwrap().rating(), 1000);
    assert_eq!(elo.get_player("b").unwrap().rating(), 1000);
}

#[test]
fn elo_ordering() {
    let mut elo = Elo::new(InMemoryStorage::new());
    elo.add_player("a");
    elo.add_player("b");
    elo.add_player("c");
    elo.add_player("d");

    elo.add_game("a", "b", false).unwrap();
    elo.add_game("a", "b", false).unwrap();
    elo.add_game("a", "c", false).unwrap();

    // force b rating, to see ordering with comparison of c
    elo.set_rating("b", 985);

    // d ties with b on rating and games, so the name decides
    elo.set_rating("d", 985);
    elo.set_number_of_games("d", 2);

    let store = elo.into_storage();
    let players = rank_players(store.all_players());
    assert_eq!(players[0].name(), "a");
    assert_eq!(players[1].name(), "b");
    assert_eq!(players[2].name(), "d");
    assert_eq!(players[3].name(), "c");
}

#[test]
fn lib_single_no_friends() {
    let mut elo = Elo::new(InMemoryStorage::new());
    elo.add_player("a");

    assert!(elo.add_game("a", "a", false).is_err());
}

#[test]
fn lib_dual() {
    let mut elo = Elo::new(InMemoryStorage::new());
    elo.add_player("a");
    elo.add_player("b");

    elo.add_game("a", "b", false).unwrap();
    elo.add_game("b", "a", false).unwrap();

    assert_eq!(elo.get_player("a").unwrap().rating(), 999);
    assert_eq!(elo.get_player("b").unwrap().rating(), 1001);

    assert_eq!(elo.get_player("a").unwrap().numer_of_games(), 2);
    assert_eq!(elo.get_player("b").unwrap().numer_of_games(), 2);
}

#[test]
fn lib_dual_draw() {
    let mut elo = Elo::new(InMemoryStorage::new());
    elo.add_player("a");
    elo.add_player("b");

    elo.add_game("a", "b", true).unwrap();

    assert_eq!(elo.get_player("a").unwrap().rating(), 1000);
    assert_eq!(elo.get_player("b").unwrap().rating(), 1000);
}

#[test]
fn lib_ordering() {
    let mut elo = Elo::new(InMemoryStorage::new());
    elo.add_player("a");
    elo.add_player("b");
    elo.add_player("c");
    elo.add_player("d");

    elo.add_game("a", "b", false).unwrap();
    elo.add_game("a", "b", false).unwrap();
    elo.add_game("a", "c", false).unwrap();

    // force b rating, to see ordering with comparison of c
    elo.set_rating("b", 985);

    // d ties with b on rating and games, so the name decides
    elo.set_rating("d", 985);
    elo.set_number_of_games("d", 2);

    let players = rank_players(elo.all_players());
    assert_eq!(players[0].name(), "a");
    assert_eq!(players[1].name(), "b");
    assert_eq!(players[2].name(), "d");
    assert_eq!(players[3].name(), "c");
}

#[test]
fn self_play_of_unknown_player_changes_nothing() {
    let mut elo = Elo::new(InMemoryStorage::new());
    let err = elo.add_game("x", "x", true).unwrap_err();
    assert_eq!(err.player(), "x");
    assert!(matches!(err, EloError::SelfPlay(ref n) if n == "x"));
    assert!(elo.get_player("x").is_none());
    assert!(elo.all_players().is_empty());
}

#[test]
fn self_play_leaves_known_player_unchanged() {
    let mut elo = Elo::new(InMemoryStorage::new());
    elo.add_game("x", "y", false).unwrap();
    assert!(elo.add_game("x", "x", false).is_err());
    let x = elo.get_player("x").unwrap();
    assert_eq!(x.rating(), 1016);
    assert_eq!(x.number_of_games(), 1);
}

#[test]
fn games_count_once_per_game_and_player() {
    let mut elo = Elo::new(InMemoryStorage::new());
    elo.add_game("a", "b", false).unwrap();
    elo.add_game("b", "c", true).unwrap();
    elo.add_game("a", "c", false).unwrap();
    elo.add_game("c", "a", true).unwrap();
    assert_eq!(elo.get_player("a").unwrap().number_of_games(), 3);
    assert_eq!(elo.get_player("b").unwrap().number_of_games(), 2);
    assert_eq!(elo.get_player("c").unwrap().number_of_games(), 3);
}

#[test]
fn unknown_players_are_registered_fresh() {
    let mut elo = Elo::new(InMemoryStorage::new());
    elo.add_game("new1", "new2", false).unwrap();
    let p1 = elo.get_player("new1").unwrap();
    let p2 = elo.get_player("new2").unwrap();
    assert_eq!((p1.rating(), p1.number_of_games()), (1016, 1));
    assert_eq!((p2.rating(), p2.number_of_games()), (984, 1));
    assert_eq!(elo.all_players().len(), 2);
}

#[test]
fn win_then_loss_ends_two_points_apart() {
    let mut elo = Elo::new(InMemoryStorage::new());
    elo.add_game("a", "b", false).unwrap();
    assert_eq!(elo.get_player("a").unwrap().rating(), 1016);
    assert_eq!(elo.get_player("b").unwrap().rating(), 984);
    elo.add_game("b", "a", false).unwrap();
    let a = elo.get_player("a").unwrap();
    let b = elo.get_player("b").unwrap();
    assert_eq!((a.rating(), a.number_of_games()), (999, 2));
    assert_eq!((b.rating(), b.number_of_games()), (1001, 2));
}

#[test]
fn draw_between_fresh_players() {
    let mut elo = Elo::new(InMemoryStorage::new());
    elo.add_game("a", "b", true).unwrap();
    for name in ["a", "b"] {
        let p = elo.get_player(name).unwrap();
        assert_eq!(p.rating(), 1000);
        assert_eq!(p.number_of_games(), 1);
    }
}

#[test]
fn try_add_keeps_existing_player() {
    let mut elo = Elo::new(InMemoryStorage::new());
    elo.add_game("a", "b", false).unwrap();
    elo.try_add("a");
    assert_eq!(elo.get_player("a").unwrap().rating(), 1016);
    elo.try_add("z");
    assert_eq!(elo.get_player("z").unwrap().rating(), 1000);
    assert_eq!(elo.get_player("z").unwrap().number_of_games(), 0);
}

#[test]
fn add_player_overwrites() {
    let mut elo = Elo::new(InMemoryStorage::new());
    elo.add_game("a", "b", false).unwrap();
    elo.add_player("a");
    let a = elo.get_player("a").unwrap();
    assert_eq!((a.rating(), a.number_of_games()), (1000, 0));
    assert_eq!(elo.all_players().len(), 2);
}

#[test]
fn draw_between_unequal_players_moves_them_closer() {
    let mut elo = Elo::new(InMemoryStorage::new());
    elo.add_player("low");
    elo.add_player("high");
    elo.set_rating("high", 1200);
    elo.add_game("low", "high", true).unwrap();
    assert_eq!(elo.get_player("low").unwrap().rating(), 1008);
    assert_eq!(elo.get_player("high").unwrap().rating(), 1192);
}

#[test]
fn store_upserts_and_lists_each_player_once() {
    let mut store = InMemoryStorage::new();
    store.add_player(elo::player::Player::new("p".to_string(), 1200, 4));
    store.update_player(&elo::player::Player::new("q".to_string(), 900, 1));
    store.update_player(&elo::player::Player::new("p".to_string(), 1210, 5));
    let p = store.get("p").unwrap();
    assert_eq!((p.rating(), p.number_of_games()), (1210, 5));
    assert!(store.get("r").is_none());
    let mut listed = names(&store.all_players());
    listed.sort();
    assert_eq!(listed, vec!["p".to_string(), "q".to_string()]);
}

#[test]
fn loser_rating_may_go_negative() {
    let mut elo = Elo::new(InMemoryStorage::new());
    elo.add_player("a");
    elo.add_player("b");
    elo.set_rating("a", 5);
    elo.set_rating("b", 5);
    elo.add_game("a", "b", false).unwrap();
    assert_eq!(elo.get_player("a").unwrap().rating(), 21);
    assert_eq!(elo.get_player("b").unwrap().rating(), -11);
}

#[test]
fn found_player_carries_the_name_asked_for() {
    let mut elo = Elo::new(InMemoryStorage::new());
    elo.add_game("left", "right", true).unwrap();
    assert_eq!(elo.get_player("right").unwrap().name(), "right");
    assert!(elo.get_player("middle").is_none());
}
