use cosmwasm_chess::cwchess::CwChessGame;
use cosmwasm_chess::state::Challenge;
use cosmwasm_chess::store::{Index, IndexedMap};

fn challenge(id: u64, creator: &str, opponent: Option<&str>) -> Challenge {
    Challenge {
        block_created: 0,
        block_limit: None,
        challenge_id: id,
        created_by: creator.to_string(),
        play_as: None,
        opponent: opponent.map(|o| o.to_string()),
    }
}

fn ids(page: Vec<&Challenge>) -> Vec<u64> {
    page.iter().map(|c| c.challenge_id).collect()
}

#[test]
fn saved_items_are_loaded_by_id() {
    let mut map: IndexedMap<Challenge> = IndexedMap::new();
    assert_eq!(map.len(), 0);
    assert_eq!(map.load(1), None);
    for id in [5, 1, 9, 3, 7] {
        map.save(challenge(id, "ann", None));
    }
    assert_eq!(map.len(), 5);
    for id in [1, 3, 5, 7, 9] {
        assert_eq!(map.load(id), Some(&challenge(id, "ann", None)));
    }
    for id in [0, 2, 4, 6, 8, 10] {
        assert_eq!(map.load(id), None);
    }
    assert_eq!(ids(map.range(None)), vec![1, 3, 5, 7, 9]);
    assert_eq!(ids(map.range(Some(0))), vec![1, 3, 5, 7, 9]);
    assert_eq!(ids(map.range(Some(5))), vec![7, 9]);
    assert_eq!(ids(map.range(Some(9))), Vec::<u64>::new());
}

#[test]
fn saving_under_an_id_replaces_and_moves_in_the_indexes() {
    let mut map: IndexedMap<Challenge> = IndexedMap::new();
    map.save(challenge(1, "ann", None));
    map.save(challenge(2, "bob", Some("ann")));
    map.save(challenge(3, "ann", Some("bob")));
    let ann = "ann".to_string();
    let bob = "bob".to_string();
    let open = "open".to_string();
    assert_eq!(ids(map.prefix(Index::First, &ann, None)), vec![1, 3]);
    assert_eq!(ids(map.prefix(Index::Second, &ann, None)), vec![2]);
    assert_eq!(ids(map.prefix(Index::Second, &open, None)), vec![1]);

    // the challenge under 1 now belongs to bob and names ann
    map.save(challenge(1, "bob", Some("ann")));
    assert_eq!(map.len(), 3);
    assert_eq!(map.load(1), Some(&challenge(1, "bob", Some("ann"))));
    assert_eq!(ids(map.prefix(Index::First, &ann, None)), vec![3]);
    assert_eq!(ids(map.prefix(Index::First, &bob, None)), vec![1, 2]);
    assert_eq!(ids(map.prefix(Index::Second, &ann, None)), vec![1, 2]);
    assert_eq!(ids(map.prefix(Index::Second, &ann, Some(1))), vec![2]);
    assert_eq!(ids(map.prefix(Index::Second, &open, None)), Vec::<u64>::new());
}

#[test]
fn removed_items_leave_the_indexes() {
    let mut map: IndexedMap<Challenge> = IndexedMap::new();
    for id in 1..=6 {
        map.save(challenge(id, if id % 2 == 0 { "ann" } else { "bob" }, None));
    }
    let ann = "ann".to_string();
    assert_eq!(map.remove(4), Some(challenge(4, "ann", None)));
    assert_eq!(map.remove(4), None);
    assert_eq!(map.remove(40), None);
    assert_eq!(map.len(), 5);
    assert_eq!(map.load(4), None);
    assert_eq!(ids(map.prefix(Index::First, &ann, None)), vec![2, 6]);
    assert_eq!(ids(map.range(Some(2))), vec![3, 5, 6]);
    assert_eq!(map.remove(1), Some(challenge(1, "bob", None)));
    assert_eq!(map.remove(6), Some(challenge(6, "ann", None)));
    assert_eq!(ids(map.range(None)), vec![2, 3, 5]);
}

#[test]
fn games_are_indexed_by_their_players() {
    let mut map: IndexedMap<CwChessGame> = IndexedMap::new();
    let game = |id: u64, white: &str, black: &str| CwChessGame {
        block_limit: None,
        block_start: 0,
        game_id: id,
        moves: vec![],
        player1: white.to_string(),
        player2: black.to_string(),
        status: None,
    };
    map.save(game(2, "ann", "bob"));
    map.save(game(1, "bob", "ann"));
    map.save(game(3, "ann", "cid"));
    let ann = "ann".to_string();
    let white: Vec<u64> = map.prefix(Index::First, &ann, None).iter().map(|g| g.game_id).collect();
    let black: Vec<u64> = map.prefix(Index::Second, &ann, None).iter().map(|g| g.game_id).collect();
    assert_eq!(white, vec![2, 3]);
    assert_eq!(black, vec![1]);
    assert_eq!(map.load(3).unwrap().player2_key(), "cid");
    assert_eq!(map.load(3).unwrap().player1_key(), "ann");
}
