use cosmwasm_chess::contract::{execute, instantiate, query};
use cosmwasm_chess::cwchess::{
    CwChessAction, CwChessColor, CwChessGame, CwChessGameOver, CwChessMove,
};
use cosmwasm_chess::msg::{
    ExecuteMsg, GameSummary, InstantiateMsg, QueryMsg, QueryResponse, Response,
};
use cosmwasm_chess::store::Store;
use cosmwasm_chess::ContractError;

// the height of a block when a test names none
const HEIGHT: u64 = 12345;

fn sender(name: &str) -> String {
    name.to_string()
}

fn new_store() -> Store {
    instantiate(sender("owner"), InstantiateMsg {}).0
}

fn get_game(store: &Store, game_id: u64) -> CwChessGame {
    match query(store, QueryMsg::GetGame { game_id }) {
        Ok(QueryResponse::Game(game)) => game.clone(),
        other => panic!("unexpected answer: {:?}", other),
    }
}

fn get_games(store: &Store, after: Option<u64>, game_over: Option<bool>, player: Option<&str>) -> Vec<GameSummary> {
    let msg = QueryMsg::GetGames { after, game_over, player: player.map(|p| p.to_string()) };
    match query(store, msg) {
        Ok(QueryResponse::Games(games)) => games,
        other => panic!("unexpected answer: {:?}", other),
    }
}

fn get_challenge_ids(store: &Store, after: Option<u64>, player: Option<&str>) -> Vec<u64> {
    let msg = QueryMsg::GetChallenges { after, player: player.map(|p| p.to_string()) };
    match query(store, msg) {
        Ok(QueryResponse::Challenges(page)) => page.iter().map(|c| c.challenge_id).collect(),
        other => panic!("unexpected answer: {:?}", other),
    }
}

// a game in which the creator of the challenge, "black", plays Black
fn black_against_white(store: &mut Store, block_limit: Option<u64>, accepted_at: u64) {
    execute(
        store,
        HEIGHT,
        sender("black"),
        ExecuteMsg::CreateChallenge {
            block_limit,
            opponent: None,
            play_as: Some(CwChessColor::Black),
        },
    )
    .unwrap();
    execute(store, accepted_at, sender("white"), ExecuteMsg::AcceptChallenge { challenge_id: 1 })
        .unwrap();
}

fn turn(store: &mut Store, height: u64, player: &str, action: CwChessAction) -> Result<Response, ContractError> {
    execute(store, height, sender(player), ExecuteMsg::Turn { action, game_id: 1 })
}

#[test]
fn test_initialize() {
    let (store, res) = instantiate(sender("creator"), InstantiateMsg {});

    assert_eq!(res, Response::Instantiate { owner: sender("creator") });
    assert_eq!(store.state.owner, "creator");
    assert_eq!(store.challenge_id, None);
    assert_eq!(store.game_id, None);
    assert_eq!(store.challenges.len(), 0);
    assert_eq!(store.games.len(), 0);
}

#[test]
fn test_accept_challenge_open() {
    let mut store = new_store();
    // create challenge
    execute(
        &mut store,
        HEIGHT,
        sender("creator"),
        ExecuteMsg::CreateChallenge { block_limit: None, opponent: None, play_as: None },
    )
    .unwrap();

    // can accept open challenge
    let response = execute(
        &mut store,
        HEIGHT,
        sender("other"),
        ExecuteMsg::AcceptChallenge { challenge_id: 1 },
    );
    match response.unwrap() {
        Response::AcceptChallenge { challenge_id, game_id, .. } => {
            assert_eq!(challenge_id, 1);
            assert_eq!(game_id, 1);
        }
        r => panic!("unexpected response: {:?}", r),
    }

    // not found after accepted
    let response = execute(
        &mut store,
        HEIGHT,
        sender("other"),
        ExecuteMsg::AcceptChallenge { challenge_id: 1 },
    );
    match response.unwrap_err() {
        ContractError::ChallengeNotFound { .. } => {}
        e => panic!("unexpected error: {:?}", e),
    }
}

#[test]
fn test_accept_challenge_specific_opponent() {
    let mut store = new_store();
    // create challenge
    execute(
        &mut store,
        HEIGHT,
        sender("creator"),
        ExecuteMsg::CreateChallenge {
            block_limit: None,
            opponent: Some("opponent".to_string()),
            play_as: None,
        },
    )
    .unwrap();

    // cannot accept if not opponent
    let response = execute(
        &mut store,
        HEIGHT,
        sender("other"),
        ExecuteMsg::AcceptChallenge { challenge_id: 1 },
    );
    match response.unwrap_err() {
        ContractError::NotYourChallenge { .. } => {}
        e => panic!("unexpected error: {:?}", e),
    }

    // opponent can accept
    let response = execute(
        &mut store,
        HEIGHT,
        sender("opponent"),
        ExecuteMsg::AcceptChallenge { challenge_id: 1 },
    );
    match response.unwrap() {
        Response::AcceptChallenge { challenge_id, game_id, .. } => {
            assert_eq!(challenge_id, 1);
            assert_eq!(game_id, 1);
        }
        r => panic!("unexpected response: {:?}", r),
    }
}

#[test]
fn test_create_challenge() {
    let (mut store, init_res) = instantiate(sender("owner"), InstantiateMsg {});
    assert_eq!(init_res, Response::Instantiate { owner: sender("owner") });

    // create a challenge with an opponent
    let msg = ExecuteMsg::CreateChallenge {
        block_limit: None,
        opponent: Some("opponent".to_string()),
        play_as: None,
    };
    let execute_res = execute(&mut store, 456, sender("creator"), msg);
    assert_eq!(
        execute_res,
        Ok(Response::CreateChallenge { challenge_id: 1, created_by: sender("creator") })
    );
    match query(&store, QueryMsg::GetChallenge { challenge_id: 1 }) {
        Ok(QueryResponse::Challenge(challenge)) => {
            assert_eq!(challenge.block_created, 456);
            assert_eq!(challenge.opponent, Some("opponent".to_string()));
        }
        other => panic!("unexpected answer: {:?}", other),
    }
}

#[test]
fn test_draw() {
    let mut store = new_store();
    black_against_white(&mut store, None, HEIGHT);

    // cannot accept draw if not offered yet
    let response = turn(&mut store, HEIGHT, "white", CwChessAction::AcceptDraw {});
    match response.unwrap_err() {
        ContractError::InvalidMove { .. } => {}
        e => panic!("unexpected error: {:?}", e),
    }

    // white offers draw
    turn(&mut store, HEIGHT, "white", CwChessAction::OfferDraw("d2d4".to_string())).unwrap();

    // black accepts
    turn(&mut store, HEIGHT, "black", CwChessAction::AcceptDraw {}).unwrap();

    let game = get_game(&store, 1);
    assert_eq!(game.status, Some(CwChessGameOver::DrawAccepted {}));
}

#[test]
fn test_get_games() {
    let mut store = new_store();

    // create first game (with two as white, one as black)
    execute(
        &mut store,
        HEIGHT,
        sender("one"),
        ExecuteMsg::CreateChallenge {
            block_limit: None,
            opponent: None,
            play_as: Some(CwChessColor::Black),
        },
    )
    .unwrap();
    execute(&mut store, HEIGHT, sender("two"), ExecuteMsg::AcceptChallenge { challenge_id: 1 })
        .unwrap();

    // get_games should return the game
    let games = get_games(&store, None, None, None);
    assert_eq!(games.len(), 1);
    assert_eq!(games[0].turn_color, Some(CwChessColor::White));

    // create second game (with one as white, two as black)
    execute(
        &mut store,
        HEIGHT,
        sender("two"),
        ExecuteMsg::CreateChallenge {
            block_limit: None,
            opponent: None,
            // creator is black
            play_as: Some(CwChessColor::Black),
        },
    )
    .unwrap();
    // opponent can accept
    execute(&mut store, HEIGHT, sender("one"), ExecuteMsg::AcceptChallenge { challenge_id: 2 })
        .unwrap();

    // white makes move in first game
    execute(
        &mut store,
        HEIGHT,
        sender("two"),
        ExecuteMsg::Turn { action: CwChessAction::MakeMove("d2d4".to_string()), game_id: 1 },
    )
    .unwrap();

    // get games
    // internally player1 index is scanned before player2 index
    // this should still return games in order by game_id
    let games = get_games(&store, None, None, Some("one"));
    assert_eq!(games.len(), 2);
    assert_eq!(games[0].game_id, 1);
    assert_eq!(games[0].turn_color, Some(CwChessColor::Black));
    assert_eq!(games[0].player1, "two");
    assert_eq!(games[0].player2, "one");
    assert_eq!(games[1].game_id, 2);
    assert_eq!(games[1].turn_color, Some(CwChessColor::White));
    assert_eq!(games[1].player1, "one");
    assert_eq!(games[1].player2, "two");
}

#[test]
fn test_make_move() {
    let mut store = new_store();
    // create challenge
    execute(
        &mut store,
        HEIGHT,
        sender("black"),
        ExecuteMsg::CreateChallenge {
            block_limit: None,
            opponent: None,
            // creator is black
            play_as: Some(CwChessColor::Black),
        },
    )
    .unwrap();
    // opponent can accept
    let response = execute(
        &mut store,
        HEIGHT,
        sender("white"),
        ExecuteMsg::AcceptChallenge { challenge_id: 1 },
    );
    assert_eq!(
        response,
        Ok(Response::AcceptChallenge {
            challenge_id: 1,
            game_id: 1,
            player1: sender("white"),
            player2: sender("black"),
        })
    );

    // first move by white
    turn(&mut store, 123, "white", CwChessAction::MakeMove("d2d4".to_string())).unwrap();

    // white cannot go when blacks turn
    let response = turn(&mut store, HEIGHT, "white", CwChessAction::MakeMove("c2c4".to_string()));
    match response.unwrap_err() {
        ContractError::NotYourTurn { .. } => {}
        e => panic!("unexpected error: {:?}", e),
    }

    // first move by black
    turn(&mut store, 456, "black", CwChessAction::MakeMove("d7d5".to_string())).unwrap();

    // check in on game status
    let game = get_game(&store, 1);
    let expected: Vec<CwChessMove> = vec![
        (123, CwChessAction::MakeMove("d2d4".to_string())),
        (456, CwChessAction::MakeMove("d7d5".to_string())),
    ];
    assert_eq!(game.moves, expected);

    // white cannot make invalid move (pawn already there)
    let response = turn(&mut store, HEIGHT, "white", CwChessAction::MakeMove("d4d5".to_string()));
    match response.unwrap_err() {
        ContractError::InvalidMove { .. } => {}
        e => panic!("unexpected error: {:?}", e),
    }

    // white can make a valid move
    turn(&mut store, HEIGHT, "white", CwChessAction::MakeMove("c2c4".to_string())).unwrap();
}

#[test]
fn test_resign() {
    let mut store = new_store();
    black_against_white(&mut store, None, HEIGHT);

    // check game status
    let game = get_game(&store, 1);
    assert_eq!(game.player1, "white");
    assert_eq!(game.player2, "black");
    assert_eq!(game.status, None);
    assert_eq!(game.turn_color(), Some(CwChessColor::White));

    // white resigns
    turn(&mut store, HEIGHT, "white", CwChessAction::Resign {}).unwrap();

    // game status updated
    let game = get_game(&store, 1);
    assert_eq!(game.status, Some(CwChessGameOver::WhiteResigns));

    // cannot move after game over
    let response = turn(&mut store, HEIGHT, "white", CwChessAction::MakeMove("d2d4".to_string()));
    match response.unwrap_err() {
        ContractError::GameAlreadyOver { .. } => {}
        e => panic!("unexpected error: {:?}", e),
    }
}

#[test]
fn test_timeout() {
    let mut store = new_store();
    // 300 blocks/per person @ ~10 blocks/minute => ~30 minutes/person
    // game created at block 100
    black_against_white(&mut store, Some(300), 100);

    // first move, time limit starts
    turn(&mut store, 300, "white", CwChessAction::from("d2d4")).unwrap();
    turn(&mut store, 310, "black", CwChessAction::MakeMove("d7d5".to_string())).unwrap();

    // not a timeout yet (time starts after first move)
    let before = store.clone();
    let response = execute(&mut store, 500, sender("black"), ExecuteMsg::DeclareTimeout { game_id: 1 });
    match response.unwrap_err() {
        ContractError::GameNotTimedOut { .. } => {}
        e => panic!("unexpected error: {:?}", e),
    }
    assert_eq!(store, before);

    turn(&mut store, 600, "white", CwChessAction::from("c2c4")).unwrap();
    turn(&mut store, 610, "black", CwChessAction::MakeMove("d5c4".to_string())).unwrap();
    // white timed out
    let result = turn(&mut store, 631, "white", CwChessAction::from("e2e3")).unwrap();
    assert_eq!(
        result,
        Response::Turn { game_id: 1, status: Some(CwChessGameOver::WhiteTimeout), turn_color: None }
    );
    let game = get_game(&store, 1);
    assert_eq!(game.status, Some(CwChessGameOver::WhiteTimeout));
    assert_eq!(game.moves.len(), 4);
}

#[test]
fn declared_timeout_ends_the_game() {
    let mut store = new_store();
    black_against_white(&mut store, Some(300), 100);
    turn(&mut store, 300, "white", CwChessAction::from("d2d4")).unwrap();
    assert_eq!(
        execute(&mut store, 600, sender("anyone"), ExecuteMsg::DeclareTimeout { game_id: 1 }),
        Err(ContractError::GameNotTimedOut)
    );
    assert_eq!(
        execute(&mut store, 601, sender("anyone"), ExecuteMsg::DeclareTimeout { game_id: 1 }),
        Ok(Response::DeclareTimeout { game_id: 1, status: CwChessGameOver::BlackTimeout })
    );
    assert_eq!(get_game(&store, 1).status, Some(CwChessGameOver::BlackTimeout));
    assert_eq!(
        execute(&mut store, 602, sender("anyone"), ExecuteMsg::DeclareTimeout { game_id: 1 }),
        Err(ContractError::GameAlreadyOver)
    );
    assert_eq!(
        execute(&mut store, 602, sender("anyone"), ExecuteMsg::DeclareTimeout { game_id: 2 }),
        Err(ContractError::GameNotFound)
    );
}

#[test]
fn refused_actions_change_nothing() {
    let mut store = new_store();
    black_against_white(&mut store, Some(300), 100);
    execute(
        &mut store,
        HEIGHT,
        sender("creator"),
        ExecuteMsg::CreateChallenge { block_limit: None, opponent: Some(sender("friend")), play_as: None },
    )
    .unwrap();
    let before = store.clone();
    let refused = [
        (
            sender("a"),
            ExecuteMsg::CreateChallenge { block_limit: None, opponent: Some(sender("a")), play_as: None },
            ContractError::CannotPlaySelf,
        ),
        (sender("creator"), ExecuteMsg::AcceptChallenge { challenge_id: 2 }, ContractError::CannotPlaySelf),
        (sender("other"), ExecuteMsg::AcceptChallenge { challenge_id: 2 }, ContractError::NotYourChallenge),
        (sender("friend"), ExecuteMsg::AcceptChallenge { challenge_id: 1 }, ContractError::ChallengeNotFound),
        (sender("friend"), ExecuteMsg::CancelChallenge { challenge_id: 2 }, ContractError::NotYourChallenge),
        (sender("creator"), ExecuteMsg::CancelChallenge { challenge_id: 3 }, ContractError::ChallengeNotFound),
        (sender("x"), ExecuteMsg::DeclareTimeout { game_id: 1 }, ContractError::GameNotTimedOut),
        (sender("x"), ExecuteMsg::DeclareTimeout { game_id: 9 }, ContractError::GameNotFound),
        (
            sender("black"),
            ExecuteMsg::Turn { game_id: 1, action: CwChessAction::from("d7d5") },
            ContractError::NotYourTurn,
        ),
        (
            sender("white"),
            ExecuteMsg::Turn { game_id: 1, action: CwChessAction::from("d2d5") },
            ContractError::InvalidMove,
        ),
        (
            sender("white"),
            ExecuteMsg::Turn { game_id: 1, action: CwChessAction::DeclareDraw },
            ContractError::InvalidMove,
        ),
        (
            sender("white"),
            ExecuteMsg::Turn { game_id: 7, action: CwChessAction::Resign },
            ContractError::GameNotFound,
        ),
    ];
    for (who, msg, error) in refused {
        assert_eq!(execute(&mut store, HEIGHT, who, msg), Err(error));
        assert_eq!(store, before);
    }
}

#[test]
fn cancelled_challenge_is_gone() {
    let mut store = new_store();
    for _ in 0..3 {
        execute(
            &mut store,
            HEIGHT,
            sender("creator"),
            ExecuteMsg::CreateChallenge { block_limit: None, opponent: None, play_as: None },
        )
        .unwrap();
    }
    assert_eq!(get_challenge_ids(&store, None, None), vec![1, 2, 3]);
    assert_eq!(
        execute(&mut store, HEIGHT, sender("creator"), ExecuteMsg::CancelChallenge { challenge_id: 2 }),
        Ok(Response::CancelChallenge { challenge_id: 2 })
    );
    assert_eq!(get_challenge_ids(&store, None, None), vec![1, 3]);
    assert_eq!(
        query(&store, QueryMsg::GetChallenge { challenge_id: 2 }),
        Err(ContractError::ChallengeNotFound)
    );
    assert_eq!(query(&store, QueryMsg::GetGame { game_id: 1 }), Err(ContractError::GameNotFound));
    // the id is not given out again
    assert_eq!(
        execute(
            &mut store,
            HEIGHT,
            sender("creator"),
            ExecuteMsg::CreateChallenge { block_limit: None, opponent: None, play_as: None },
        ),
        Ok(Response::CreateChallenge { challenge_id: 4, created_by: sender("creator") })
    );
    assert_eq!(get_challenge_ids(&store, Some(1), Some("creator")), vec![3, 4]);
}

#[test]
fn challenges_are_found_by_creator_opponent_or_as_open() {
    let mut store = new_store();
    let mut create = |who: &str, opponent: Option<&str>| {
        execute(
            &mut store,
            HEIGHT,
            sender(who),
            ExecuteMsg::CreateChallenge {
                block_limit: None,
                opponent: opponent.map(|o| o.to_string()),
                play_as: None,
            },
        )
        .unwrap();
    };
    create("ann", None); // 1
    create("bob", Some("ann")); // 2
    create("cid", Some("bob")); // 3
    create("ann", Some("cid")); // 4
    create("bob", None); // 5
    create("cid", Some("ann")); // 6
    assert_eq!(get_challenge_ids(&store, None, None), vec![1, 5]);
    assert_eq!(get_challenge_ids(&store, Some(1), None), vec![5]);
    assert_eq!(get_challenge_ids(&store, None, Some("ann")), vec![1, 2, 4, 6]);
    assert_eq!(get_challenge_ids(&store, Some(2), Some("ann")), vec![4, 6]);
    assert_eq!(get_challenge_ids(&store, None, Some("bob")), vec![2, 3, 5]);
    assert_eq!(get_challenge_ids(&store, None, Some("cid")), vec![3, 4, 6]);
    assert_eq!(get_challenge_ids(&store, None, Some("dan")), Vec::<u64>::new());

    // an accepted challenge leaves every index
    execute(&mut store, HEIGHT, sender("ann"), ExecuteMsg::AcceptChallenge { challenge_id: 2 })
        .unwrap();
    assert_eq!(get_challenge_ids(&store, None, Some("ann")), vec![1, 4, 6]);
    assert_eq!(get_challenge_ids(&store, None, Some("bob")), vec![3, 5]);
    let games = get_games(&store, None, None, Some("bob"));
    assert_eq!(games.len(), 1);
    assert_eq!(games[0].game_id, 1);
    assert_eq!(get_games(&store, None, None, Some("cid")).len(), 0);
}

#[test]
fn finished_games_are_listed_only_on_request() {
    let mut store = new_store();
    for n in 1..=4u64 {
        execute(
            &mut store,
            HEIGHT,
            sender("me"),
            ExecuteMsg::CreateChallenge {
                block_limit: None,
                opponent: None,
                play_as: Some(if n % 2 == 0 { CwChessColor::White } else { CwChessColor::Black }),
            },
        )
        .unwrap();
        execute(&mut store, HEIGHT, sender("you"), ExecuteMsg::AcceptChallenge { challenge_id: n })
            .unwrap();
    }
    // in game 2 "me" plays White
    assert_eq!(
        execute(
            &mut store,
            HEIGHT,
            sender("me"),
            ExecuteMsg::Turn { game_id: 2, action: CwChessAction::Resign },
        ),
        Ok(Response::Turn { game_id: 2, status: Some(CwChessGameOver::WhiteResigns), turn_color: None })
    );
    let ids = |games: Vec<GameSummary>| games.iter().map(|g| g.game_id).collect::<Vec<u64>>();
    assert_eq!(ids(get_games(&store, None, None, None)), vec![1, 3, 4]);
    assert_eq!(ids(get_games(&store, None, Some(false), Some("me"))), vec![1, 3, 4]);
    assert_eq!(ids(get_games(&store, None, Some(true), Some("me"))), vec![1, 2, 3, 4]);
    assert_eq!(ids(get_games(&store, Some(1), Some(true), Some("you"))), vec![2, 3, 4]);
    assert_eq!(ids(get_games(&store, Some(2), Some(true), None)), vec![3, 4]);
    assert_eq!(ids(get_games(&store, Some(4), Some(true), None)), Vec::<u64>::new());
}

#[test]
fn actions_are_admitted_when_ids_and_heights_allow() {
    let mut store = new_store();
    black_against_white(&mut store, Some(300), 100);
    turn(&mut store, 300, "white", CwChessAction::from("d2d4")).unwrap();
    let at = |height: u64, msg: ExecuteMsg| store.can_execute(height, &msg);
    assert!(at(300, ExecuteMsg::Turn { game_id: 1, action: CwChessAction::Resign }));
    assert!(!at(299, ExecuteMsg::Turn { game_id: 1, action: CwChessAction::Resign }));
    assert!(at(299, ExecuteMsg::Turn { game_id: 2, action: CwChessAction::Resign }));
    assert!(at(301, ExecuteMsg::DeclareTimeout { game_id: 1 }));
    assert!(!at(0, ExecuteMsg::DeclareTimeout { game_id: 1 }));
    assert!(at(0, ExecuteMsg::CancelChallenge { challenge_id: 1 }));
    assert!(at(0, ExecuteMsg::AcceptChallenge { challenge_id: 1 }));
    let create = ExecuteMsg::CreateChallenge { block_limit: None, opponent: None, play_as: None };
    assert!(at(0, create.clone()));
    let mut full = store.clone();
    full.challenge_id = Some(u64::MAX);
    full.game_id = Some(u64::MAX);
    assert!(!full.can_execute(0, &create));
    assert!(!full.can_execute(0, &ExecuteMsg::AcceptChallenge { challenge_id: 1 }));
}

#[test]
fn refusals_have_their_words() {
    let words = [
        (ContractError::Unauthorized, "Unauthorized"),
        (ContractError::CannotPlaySelf, "cannot play self"),
        (ContractError::ChallengeNotFound, "challenge not found"),
        (ContractError::GameAlreadyOver, "game already over"),
        (ContractError::GameNotFound, "game not found"),
        (ContractError::GameNotTimedOut, "game not timed out"),
        (ContractError::InvalidMove, "invalid move"),
        (ContractError::InvalidPosition, "invalid position"),
        (ContractError::NotYourChallenge, "not your challenge"),
        (ContractError::NotYourTurn, "not your turn"),
    ];
    for (error, text) in words {
        assert_eq!(error.message(), text);
    }
}
