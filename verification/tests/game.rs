use cosmwasm_chess::contract::{execute_accept_challenge, execute_create_challenge};
use cosmwasm_chess::cwchess::{
    CwChessAction, CwChessColor, CwChessGame, CwChessGameOver, CwChessMove,
};
use cosmwasm_chess::engine::Verdict;
use cosmwasm_chess::ContractError;

fn new_game(block_limit: Option<u64>) -> CwChessGame {
    CwChessGame {
        block_limit,
        block_start: 100,
        game_id: 1,
        moves: vec![],
        player1: "white".to_string(),
        player2: "black".to_string(),
        status: None,
    }
}

fn play(game: &mut CwChessGame, player: &str, height: u64, text: &str) {
    let result = game.make_move(&player.to_string(), (height, CwChessAction::from(text)));
    assert_eq!(result, Ok(None));
}

#[test]
fn moves_are_recorded_in_turn() {
    let challenge = execute_create_challenge(
        None,
        100,
        "black".to_string(),
        Some(300),
        None,
        Some(CwChessColor::Black),
    )
    .unwrap();
    let mut game =
        execute_accept_challenge(Some(&challenge), "white".to_string(), None, 100).unwrap();
    assert_eq!(game.player1, "white");
    assert_eq!(game.player2, "black");

    let white = "white".to_string();
    let black = "black".to_string();
    assert_eq!(game.make_move(&white, (300, CwChessAction::MakeMove("d2d4".to_string()))), Ok(None));
    assert_eq!(
        game.make_move(&white, (310, CwChessAction::MakeMove("c2c4".to_string()))),
        Err(ContractError::NotYourTurn)
    );
    assert_eq!(game.make_move(&black, (456, CwChessAction::MakeMove("d7d5".to_string()))), Ok(None));
    let expected: Vec<CwChessMove> = vec![
        (300, CwChessAction::MakeMove("d2d4".to_string())),
        (456, CwChessAction::MakeMove("d7d5".to_string())),
    ];
    assert_eq!(game.moves, expected);
    assert_eq!(game.status, None);
}

#[test]
fn illegal_and_malformed_moves_are_refused() {
    let mut game = new_game(None);
    play(&mut game, "white", 123, "d2d4");
    play(&mut game, "black", 456, "d7d5");
    let white = "white".to_string();
    let before = game.clone();
    // the pawn on d5 blocks the pawn on d4
    assert_eq!(
        game.make_move(&white, (460, CwChessAction::from("d4d5"))),
        Err(ContractError::InvalidMove)
    );
    // not in a form that the rules read
    assert_eq!(
        game.make_move(&white, (460, CwChessAction::from("d5"))),
        Err(ContractError::InvalidMove)
    );
    // not ASCII
    assert_eq!(
        game.make_move(&white, (460, CwChessAction::from("a\u{e9}1"))),
        Err(ContractError::InvalidMove)
    );
    // the word of the rules for giving up is no move
    assert_eq!(
        game.make_move(&white, (460, CwChessAction::from("resign"))),
        Err(ContractError::InvalidMove)
    );
    assert_eq!(game, before);
    play(&mut game, "white", 460, "c2c4");
    assert_eq!(game.moves.len(), 3);
}

#[test]
fn checkmate_ends_the_game() {
    let mut game = new_game(None);
    play(&mut game, "white", 1, "f2f3");
    play(&mut game, "black", 2, "e7e5");
    play(&mut game, "white", 3, "g2g4");
    let black = "black".to_string();
    assert_eq!(
        game.make_move(&black, (4, CwChessAction::from("d8h4"))),
        Ok(Some(CwChessGameOver::BlackCheckmates))
    );
    assert_eq!(game.status, Some(CwChessGameOver::BlackCheckmates));
    assert_eq!(game.moves.len(), 4);
    assert_eq!(game.turn_color(), None);
}

#[test]
fn a_finished_game_never_changes() {
    let mut game = new_game(Some(10));
    let white = "white".to_string();
    let black = "black".to_string();
    assert_eq!(
        game.make_move(&white, (5, CwChessAction::Resign)),
        Ok(Some(CwChessGameOver::WhiteResigns))
    );
    let over = game.clone();
    assert_eq!(over.moves, vec![(5, CwChessAction::Resign)]);
    for action in [
        CwChessAction::from("d2d4"),
        CwChessAction::OfferDraw("d2d4".to_string()),
        CwChessAction::AcceptDraw,
        CwChessAction::DeclareDraw,
        CwChessAction::Resign,
    ] {
        assert_eq!(game.make_move(&white, (500, action.clone())), Err(ContractError::GameAlreadyOver));
        assert_eq!(game.make_move(&black, (500, action)), Err(ContractError::GameAlreadyOver));
    }
    assert_eq!(game.check_timeout(500), Err(ContractError::GameAlreadyOver));
    assert_eq!(game, over);
}

#[test]
fn resignation_goes_to_the_colour_that_resigns() {
    let mut game = new_game(None);
    play(&mut game, "white", 1, "e2e4");
    let black = "black".to_string();
    assert_eq!(
        game.make_move(&black, (2, CwChessAction::Resign)),
        Ok(Some(CwChessGameOver::BlackResigns))
    );
    assert_eq!(game.status, Some(CwChessGameOver::BlackResigns));
}

#[test]
fn turns_alternate_from_white() {
    let mut game = new_game(None);
    let white = "white".to_string();
    let black = "black".to_string();
    let texts = ["e2e4", "e7e5", "g1f3", "b8c6", "f1c4", "f8c5"];
    for (n, text) in texts.iter().enumerate() {
        let (mover, other) = if n % 2 == 0 { (&white, &black) } else { (&black, &white) };
        let expected = if n % 2 == 0 { CwChessColor::White } else { CwChessColor::Black };
        assert_eq!(game.turn_color(), Some(expected));
        assert_eq!(
            game.make_move(other, (n as u64, CwChessAction::from(*text))),
            Err(ContractError::NotYourTurn)
        );
        assert_eq!(game.make_move(mover, (n as u64, CwChessAction::from(*text))), Ok(None));
        assert_eq!(game.moves.len(), n + 1);
    }
}

#[test]
fn draw_is_accepted_only_after_an_offer() {
    let mut game = new_game(None);
    let white = "white".to_string();
    let black = "black".to_string();
    // nothing offered yet
    assert_eq!(
        game.make_move(&white, (1, CwChessAction::AcceptDraw)),
        Err(ContractError::InvalidMove)
    );
    play(&mut game, "white", 1, "d2d4");
    // the last move offered nothing
    assert_eq!(
        game.make_move(&black, (2, CwChessAction::AcceptDraw)),
        Err(ContractError::InvalidMove)
    );
    assert_eq!(game.draw_offered(), None);
    assert_eq!(game.make_move(&black, (2, CwChessAction::OfferDraw("d7d5".to_string()))), Ok(None));
    assert_eq!(game.draw_offered(), Some(CwChessColor::Black));
    // the one who offered cannot accept
    assert_eq!(
        game.make_move(&black, (3, CwChessAction::AcceptDraw)),
        Err(ContractError::NotYourTurn)
    );
    assert_eq!(
        game.make_move(&white, (3, CwChessAction::AcceptDraw)),
        Ok(Some(CwChessGameOver::DrawAccepted))
    );
    assert_eq!(game.status, Some(CwChessGameOver::DrawAccepted));
    assert_eq!(game.moves.len(), 3);
}

#[test]
fn an_offer_lasts_one_turn() {
    let mut game = new_game(None);
    let black = "black".to_string();
    assert_eq!(
        game.make_move(&"white".to_string(), (1, CwChessAction::OfferDraw("d2d4".to_string()))),
        Ok(None)
    );
    play(&mut game, "black", 2, "d7d5");
    play(&mut game, "white", 3, "c2c4");
    assert_eq!(game.draw_offered(), None);
    assert_eq!(
        game.make_move(&black, (4, CwChessAction::AcceptDraw)),
        Err(ContractError::InvalidMove)
    );
}

#[test]
fn declaring_a_draw_is_always_refused() {
    let mut game = new_game(None);
    let white = "white".to_string();
    assert_eq!(
        game.make_move(&white, (1, CwChessAction::DeclareDraw)),
        Err(ContractError::InvalidMove)
    );
    assert_eq!(
        game.make_move(&"white".to_string(), (1, CwChessAction::OfferDraw("d2d4".to_string()))),
        Ok(None)
    );
    assert_eq!(
        game.make_move(&"black".to_string(), (2, CwChessAction::DeclareDraw)),
        Err(ContractError::InvalidMove)
    );
    assert_eq!(game.moves.len(), 1);
}

#[test]
fn white_times_out_after_331_blocks() {
    let mut game = new_game(Some(300));
    play(&mut game, "white", 300, "d2d4");
    play(&mut game, "black", 310, "d7d5");
    // white has used 190 blocks, black 10
    assert_eq!(game.get_block_times(500), (190, 10));
    let mut probe = game.clone();
    assert_eq!(probe.check_timeout(500), Ok(None));
    assert_eq!(probe, game);
    play(&mut game, "white", 600, "c2c4");
    play(&mut game, "black", 610, "d5c4");
    assert_eq!(game.get_block_times(610), (290, 20));
    assert_eq!(game.get_block_times(620), (300, 20));
    assert_eq!(game.get_block_times(631), (311, 20));
    // white moves in time at 620 in another line of play
    let mut in_time = game.clone();
    play(&mut in_time, "white", 620, "e2e3");
    // but not at 631: the legal move is not played
    let white = "white".to_string();
    assert_eq!(
        game.make_move(&white, (631, CwChessAction::from("e2e3"))),
        Ok(Some(CwChessGameOver::WhiteTimeout))
    );
    assert_eq!(game.status, Some(CwChessGameOver::WhiteTimeout));
    assert_eq!(game.moves.len(), 4);
}

#[test]
fn timeout_is_found_whoever_submits() {
    let mut game = new_game(Some(300));
    play(&mut game, "white", 300, "d2d4");
    play(&mut game, "black", 310, "d7d5");
    play(&mut game, "white", 600, "c2c4");
    play(&mut game, "black", 610, "d5c4");
    // white is over the limit; black, whose turn it is not, submits
    let black = "black".to_string();
    assert_eq!(
        game.make_move(&black, (631, CwChessAction::from("e7e6"))),
        Ok(Some(CwChessGameOver::WhiteTimeout))
    );
    assert_eq!(game.moves.len(), 4);
}

#[test]
fn black_times_out_on_their_own_clock() {
    let mut game = new_game(Some(50));
    play(&mut game, "white", 1000, "e2e4");
    assert_eq!(game.get_block_times(1050), (0, 50));
    assert_eq!(game.get_block_times(1051), (0, 51));
    let black = "black".to_string();
    assert_eq!(
        game.make_move(&black, (1051, CwChessAction::from("e7e5"))),
        Ok(Some(CwChessGameOver::BlackTimeout))
    );
    assert_eq!(game.moves.len(), 1);
}

#[test]
fn white_timeout_is_reported_before_black() {
    let mut game = new_game(Some(10));
    game.moves = vec![
        (0, CwChessAction::from("e2e4")),
        (20, CwChessAction::from("e7e5")),
        (40, CwChessAction::from("g1f3")),
    ];
    // black used 20, white 20; the status is still open
    assert_eq!(game.get_block_times(40), (20, 20));
    assert_eq!(game.check_timeout(40), Ok(Some(CwChessGameOver::WhiteTimeout)));
}

#[test]
fn clock_starts_with_the_first_move() {
    let mut game = new_game(Some(1));
    assert_eq!(game.get_block_times(1_000_000), (0, 0));
    assert_eq!(game.check_timeout(1_000_000), Ok(None));
    assert_eq!(game.status, None);
    play(&mut game, "white", 1_000_000, "e2e4");
    assert_eq!(game.moves.len(), 1);
}

#[test]
fn no_limit_no_timeout() {
    let mut game = new_game(None);
    play(&mut game, "white", 0, "e2e4");
    assert_eq!(game.get_block_times(u64::MAX), (0, u64::MAX));
    assert_eq!(game.check_timeout(u64::MAX), Ok(None));
}

#[test]
fn clock_of_a_finished_game_stops_at_the_last_move() {
    let mut game = new_game(Some(300));
    play(&mut game, "white", 10, "e2e4");
    play(&mut game, "black", 25, "e7e5");
    assert_eq!(
        game.make_move(&"white".to_string(), (30, CwChessAction::Resign)),
        Ok(Some(CwChessGameOver::WhiteResigns))
    );
    assert_eq!(game.get_block_times(9999), (5, 15));
}

#[test]
fn heights_are_checked_for_order() {
    let mut game = new_game(None);
    assert!(game.is_in_order_up_to(0));
    game.moves = vec![(5, CwChessAction::from("e2e4")), (5, CwChessAction::from("e7e5"))];
    assert!(game.is_in_order_up_to(5));
    assert!(!game.is_in_order_up_to(4));
    game.moves = vec![(5, CwChessAction::from("e2e4")), (4, CwChessAction::from("e7e5"))];
    assert!(!game.is_in_order_up_to(10));
}

#[test]
fn seats_follow_the_choice_or_the_height() {
    let a = || "a".to_string();
    let b = || "b".to_string();
    assert_eq!(
        CwChessGame::get_player_order(a(), b(), Some(CwChessColor::White), 1),
        (a(), b())
    );
    assert_eq!(
        CwChessGame::get_player_order(a(), b(), Some(CwChessColor::Black), 2),
        (b(), a())
    );
    assert_eq!(CwChessGame::get_player_order(a(), b(), None, 100), (a(), b()));
    assert_eq!(CwChessGame::get_player_order(a(), b(), None, 101), (b(), a()));
    assert_eq!(CwChessColor::White.opposite(), CwChessColor::Black);
    assert_eq!(CwChessColor::Black.opposite(), CwChessColor::White);
}

#[test]
fn corrupt_history_is_an_invalid_position() {
    let mut game = new_game(None);
    assert!(game.load_game().is_ok());
    game.moves = vec![(1, CwChessAction::from("e2e5"))];
    assert_eq!(game.load_game().err(), Some(ContractError::InvalidPosition));
    let black = "black".to_string();
    assert_eq!(
        game.make_move(&black, (2, CwChessAction::from("e7e5"))),
        Err(ContractError::InvalidPosition)
    );
    // resignation and timeout do not look at the position
    assert_eq!(
        game.make_move(&black, (2, CwChessAction::Resign)),
        Ok(Some(CwChessGameOver::BlackResigns))
    );
    // a history that holds something that is no move on the board
    let mut other = new_game(None);
    other.moves = vec![(1, CwChessAction::AcceptDraw)];
    assert_eq!(other.load_game().err(), Some(ContractError::InvalidPosition));
}

#[test]
fn replayed_position_differs_from_the_start() {
    let mut game = new_game(None);
    let start = game.load_game().unwrap();
    play(&mut game, "white", 1, "e2e4");
    let after = game.load_game().unwrap();
    assert_ne!(start, after);
    assert_eq!(start, chess_engine::Board::default());
}

#[test]
fn verdicts_decide_what_a_move_does() {
    let white = "white".to_string();
    let mv = || (7, CwChessAction::from("anything"));
    let mut game = new_game(None);
    assert_eq!(game.apply_action(&white, mv(), Verdict::Corrupt), Err(ContractError::InvalidPosition));
    assert_eq!(game.apply_action(&white, mv(), Verdict::Rejected), Err(ContractError::InvalidMove));
    assert_eq!(game, new_game(None));
    assert_eq!(game.apply_action(&white, mv(), Verdict::Continues), Ok(None));
    assert_eq!(game.moves, vec![mv()]);
    let mut game = new_game(None);
    assert_eq!(
        game.apply_action(&white, mv(), Verdict::Victory(CwChessColor::White)),
        Ok(Some(CwChessGameOver::WhiteCheckmates))
    );
    let mut game = new_game(None);
    assert_eq!(
        game.apply_action(&white, mv(), Verdict::Victory(CwChessColor::Black)),
        Ok(Some(CwChessGameOver::BlackCheckmates))
    );
    let mut game = new_game(None);
    assert_eq!(
        game.apply_action(&white, mv(), Verdict::Stalemate),
        Ok(Some(CwChessGameOver::Stalemate))
    );
    assert_eq!(game.status, Some(CwChessGameOver::Stalemate));
    assert_eq!(game.moves, vec![mv()]);
}
