//! What each action decides from the stored values that it is given, and what
//! it hands back to be stored.

use vstd::prelude::*;
use chess_engine::Board;
use crate::cwchess::{
    make_move_from, CwChessAction, CwChessColor, CwChessGame, CwChessGameOver, GameView,
};
use crate::error::ContractError;
use crate::state::{id_after, next_challenge_id, next_game_id, Challenge, ChallengeView};

verus! {

/// The game that begins when `player` accepts a challenge at `block_start`:
/// no moves, no outcome, the creator seated as they chose or, if they did
/// not choose, with White at an even height and Black at an odd one.
pub open spec fn game_from(
    challenge: ChallengeView,
    player: Seq<char>,
    game_id: u64,
    block_start: u64,
) -> GameView {
    let creator_is_white = challenge.play_as == Some(CwChessColor::White) || (challenge.play_as
        is None && block_start % 2 == 0);
    GameView {
        block_limit: challenge.block_limit,
        block_start,
        game_id,
        moves: Seq::empty(),
        player1: if creator_is_white {
            challenge.created_by
        } else {
            player
        },
        player2: if creator_is_white {
            player
        } else {
            challenge.created_by
        },
        status: None,
    }
}

/// Why `player` cannot accept the challenge, if they cannot: nobody accepts
/// their own challenge, and a challenge to a named opponent is theirs alone.
pub open spec fn accept_refusal(challenge: ChallengeView, player: Seq<char>) -> Option<
    ContractError,
> {
    if challenge.created_by == player {
        Some(ContractError::CannotPlaySelf)
    } else if challenge.opponent is Some && challenge.opponent != Some(player) {
        Some(ContractError::NotYourChallenge)
    } else {
        None
    }
}

/// Nobody accepts their own challenge, whoever they are and whatever the
/// challenge says.
pub proof fn lemma_nobody_plays_themself(challenge: ChallengeView)
    ensures
        accept_refusal(challenge, challenge.created_by) == Some(ContractError::CannotPlaySelf),
{
}

/// The two players of a game that begins with an accepted challenge differ.
pub proof fn lemma_accepted_game_has_two_players(
    challenge: ChallengeView,
    player: Seq<char>,
    game_id: u64,
    block_start: u64,
)
    requires
        accept_refusal(challenge, player) is None,
    ensures
        game_from(challenge, player, game_id, block_start).player1 != game_from(
            challenge,
            player,
            game_id,
            block_start,
        ).player2,
{
}

/// Creates a challenge by `created_by` at the height `block_created`, with
/// the id after `last_challenge_id`.
///
/// It fails with `CannotPlaySelf` if and only if the opponent named is the
/// creator. The challenge is to be stored under its id, which is the last
/// one given out from then on.
pub fn execute_create_challenge(
    last_challenge_id: Option<u64>,
    block_created: u64,
    created_by: String,
    block_limit: Option<u64>,
    opponent: Option<String>,
    play_as: Option<CwChessColor>,
) -> (r: Result<Challenge, ContractError>)
    requires
        id_after(last_challenge_id) <= u64::MAX,
    ensures
        opponent is Some && opponent.unwrap()@ == created_by@ ==> r == Err::<
            Challenge,
            ContractError,
        >(ContractError::CannotPlaySelf),
        !(opponent is Some && opponent.unwrap()@ == created_by@) ==> r is Ok && r.unwrap()
            == (Challenge {
            block_created,
            block_limit,
            challenge_id: id_after(last_challenge_id) as u64,
            created_by,
            play_as,
            opponent,
        }) && r.unwrap()@.wf(),
{
    let challenge_id = next_challenge_id(last_challenge_id);
    match &opponent {
        Some(addr) => {
            if created_by == *addr {
                return Err(ContractError::CannotPlaySelf);
            }
        },
        None => {},
    }
    Ok(Challenge { block_created, block_limit, challenge_id, created_by, opponent, play_as })
}

/// Accepts the challenge found under an id, if one was found, for `player`
/// at the height `block_start`, and returns the game that begins, with the
/// id after `last_game_id`.
///
/// It fails with `ChallengeNotFound` if there is no challenge, else with
/// `CannotPlaySelf` if the player created it, else with `NotYourChallenge`
/// if it names another opponent. On success the game is to be stored under
/// its id and the challenge removed.
pub fn execute_accept_challenge(
    challenge: Option<&Challenge>,
    player: String,
    last_game_id: Option<u64>,
    block_start: u64,
) -> (r: Result<CwChessGame, ContractError>)
    requires
        id_after(last_game_id) <= u64::MAX,
    ensures
        challenge is None ==> r == Err::<CwChessGame, ContractError>(
            ContractError::ChallengeNotFound,
        ),
        challenge is Some && accept_refusal(challenge.unwrap()@, player@) is Some ==> r == Err::<
            CwChessGame,
            ContractError,
        >(accept_refusal(challenge.unwrap()@, player@).unwrap()),
        challenge is Some && accept_refusal(challenge.unwrap()@, player@) is None ==> r is Ok
            && r.unwrap()@ == game_from(
            challenge.unwrap()@,
            player@,
            id_after(last_game_id) as u64,
            block_start,
        ) && r.unwrap()@.wf() && r.unwrap()@.player1 != r.unwrap()@.player2,
{
    let challenge = match challenge {
        Some(challenge) => {
            if challenge.created_by == player {
                return Err(ContractError::CannotPlaySelf);
            }
            match &challenge.opponent {
                Some(opponent) => {
                    if !(*opponent == player) {
                        return Err(ContractError::NotYourChallenge);
                    }
                },
                None => {},
            }
            challenge
        },
        None => {
            return Err(ContractError::ChallengeNotFound);
        },
    };
    let game_id = next_game_id(last_game_id);
    let (player1, player2) = CwChessGame::get_player_order(
        challenge.created_by.clone(),
        player,
        challenge.play_as,
        block_start,
    );
    let game = CwChessGame {
        block_limit: challenge.block_limit,
        block_start,
        game_id,
        player1,
        player2,
        moves: Vec::new(),
        status: None,
    };
    assert(game@.moves =~= Seq::empty());
    Ok(game)
}

/// Withdraws the challenge found under an id, if one was found, for
/// `player`, and returns the id of the challenge, which is to be removed.
///
/// It fails with `ChallengeNotFound` if there is no challenge, else with
/// `NotYourChallenge` if the player did not create it.
pub fn execute_cancel_challenge(challenge: Option<&Challenge>, player: &String) -> (r: Result<
    u64,
    ContractError,
>)
    ensures
        r == match challenge {
            None => Err::<u64, ContractError>(ContractError::ChallengeNotFound),
            Some(challenge) => if challenge.created_by@ != player@ {
                Err::<u64, ContractError>(ContractError::NotYourChallenge)
            } else {
                Ok::<u64, ContractError>(challenge.challenge_id)
            },
        },
{
    match challenge {
        Some(challenge) => {
            if !(challenge.created_by == *player) {
                return Err(ContractError::NotYourChallenge);
            }
            Ok(challenge.challenge_id)
        },
        None => Err(ContractError::ChallengeNotFound),
    }
}

/// Ends the game found under an id, if one was found, by the timeout that
/// has occurred at `height`, and returns the game, which is to be stored.
///
/// It fails with `GameNotFound` if there is no game, else with
/// `GameAlreadyOver` if the game has an outcome, else with `GameNotTimedOut`
/// if no player has used more blocks than the limit allows.
pub fn execute_declare_timeout(game: Option<CwChessGame>, height: u64) -> (r: Result<
    CwChessGame,
    ContractError,
>)
    requires
        game is Some ==> game.unwrap()@.wf() && game.unwrap()@.reaches(height),
    ensures
        game is None ==> r == Err::<CwChessGame, ContractError>(ContractError::GameNotFound),
        game is Some && game.unwrap().status is Some ==> r == Err::<CwChessGame, ContractError>(
            ContractError::GameAlreadyOver,
        ),
        game is Some && game.unwrap().status is None && game.unwrap()@.timeout_at(height) is None
            ==> r == Err::<CwChessGame, ContractError>(ContractError::GameNotTimedOut),
        game is Some && game.unwrap().status is None && game.unwrap()@.timeout_at(height) is Some
            ==> r is Ok && r.unwrap() == (CwChessGame {
            status: game.unwrap()@.timeout_at(height),
            ..game.unwrap()
        }),
{
    match game {
        None => Err(ContractError::GameNotFound),
        Some(mut game) => match game.check_timeout(height) {
            Err(e) => Err(e),
            Ok(None) => Err(ContractError::GameNotTimedOut),
            Ok(Some(_)) => Ok(game),
        },
    }
}

/// What a turn returns, from what the submission did to the game: the game
/// to be stored if the action was accepted, else the refusal.
pub open spec fn turn_result(
    submitted: (GameView, Result<Option<CwChessGameOver>, ContractError>),
    r: Result<CwChessGame, ContractError>,
) -> bool {
    match submitted.1 {
        Ok(_) => r is Ok && r.unwrap()@ == submitted.0,
        Err(e) => r == Err::<CwChessGame, ContractError>(e),
    }
}

/// Submits the action of `player` at `height` in the game found under an id,
/// if one was found, and returns the game, which is to be stored.
///
/// It fails with `GameNotFound` if there is no game, else as `make_move`
/// does; what is returned on success is the game after `make_move`.
pub fn execute_turn(game: Option<CwChessGame>, player: &String, height: u64, action: CwChessAction) -> (r:
    Result<CwChessGame, ContractError>)
    requires
        game is Some ==> game.unwrap()@.wf() && game.unwrap()@.reaches(height),
    ensures
        game is None ==> r == Err::<CwChessGame, ContractError>(ContractError::GameNotFound),
        game is Some ==> exists|start: Board|
            turn_result(
                #[trigger] make_move_from(start, game.unwrap()@, player@, height, action@),
                r,
            ),
        r is Ok ==> r.unwrap()@.wf(),
{
    match game {
        None => Err(ContractError::GameNotFound),
        Some(mut game) => {
            let ghost before = game@;
            let ghost action_view = action@;
            let submitted = game.make_move(player, (height, action));
            let r = match submitted {
                Ok(_) => Ok(game),
                Err(e) => Err(e),
            };
            proof {
                let start = choose|start: Board|
                    (game@, submitted) == #[trigger] make_move_from(
                        start,
                        before,
                        player@,
                        height,
                        action_view,
                    );
            }
            r
        },
    }
}

} // verus!
