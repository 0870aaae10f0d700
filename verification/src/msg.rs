//! The messages by which the sessions are driven and asked about.

use vstd::prelude::*;
use crate::cwchess::{CwChessAction, CwChessColor, CwChessGame, CwChessGameOver, GameView};
use crate::state::Challenge;

verus! {

/// Sets the store up. It has nothing to say.
#[derive(Clone, Debug, PartialEq, Eq)]
pub struct InstantiateMsg {}

/// An action on a challenge or a game, by the sender of the message.
#[derive(Clone, Debug, PartialEq, Eq)]
pub enum ExecuteMsg {
    /// Creates a challenge, open or to one opponent.
    CreateChallenge { block_limit: Option<u64>, opponent: Option<String>, play_as: Option<CwChessColor> },
    /// Accepts a challenge, which becomes a game.
    AcceptChallenge { challenge_id: u64 },
    /// Withdraws a challenge of the sender.
    CancelChallenge { challenge_id: u64 },
    /// Ends a game in which a player has run out of time.
    DeclareTimeout { game_id: u64 },
    /// Submits an action in a game.
    Turn { game_id: u64, action: CwChessAction },
}

/// A question about the challenges or the games.
#[derive(Clone, Debug, PartialEq, Eq)]
pub enum QueryMsg {
    /// The challenge with the given id.
    GetChallenge { challenge_id: u64 },
    /// The challenges that a player made or was sent, or the open ones.
    GetChallenges { after: Option<u64>, player: Option<String> },
    /// The game with the given id.
    GetGame { game_id: u64 },
    /// The games of a player, or all games.
    GetGames { after: Option<u64>, game_over: Option<bool>, player: Option<String> },
}

/// What an action reports when it was carried out.
#[derive(Clone, Debug, PartialEq, Eq)]
pub enum Response {
    /// The store was set up for its owner.
    Instantiate { owner: String },
    /// A challenge was created under the id.
    CreateChallenge { challenge_id: u64, created_by: String },
    /// A challenge became a game, with the players seated.
    AcceptChallenge { challenge_id: u64, game_id: u64, player1: String, player2: String },
    /// A challenge was withdrawn.
    CancelChallenge { challenge_id: u64 },
    /// A game was ended by the timeout given.
    DeclareTimeout { game_id: u64, status: CwChessGameOver },
    /// An action was submitted in a game: how the game ended with it, or
    /// whose turn it is now.
    Turn { game_id: u64, status: Option<CwChessGameOver>, turn_color: Option<CwChessColor> },
}

/// The answer to a question.
#[derive(Clone, Debug, PartialEq, Eq)]
pub enum QueryResponse<'a> {
    /// The challenge asked for.
    Challenge(&'a Challenge),
    /// One page of challenges, in the order of their ids.
    Challenges(Vec<&'a Challenge>),
    /// The game asked for.
    Game(&'a CwChessGame),
    /// One page of games, summed up, in the order of their ids.
    Games(Vec<GameSummary>),
}

/// A game without its moves.
#[derive(Clone, Debug, PartialEq, Eq)]
pub struct GameSummary {
    pub block_limit: Option<u64>,
    pub block_start: u64,
    pub game_id: u64,
    pub player1: String,
    pub player2: String,
    pub status: Option<CwChessGameOver>,
    pub turn_color: Option<CwChessColor>,
}

/// The summary of a game as a mathematical value.
pub struct SummaryView {
    pub block_limit: Option<u64>,
    pub block_start: u64,
    pub game_id: u64,
    pub player1: Seq<char>,
    pub player2: Seq<char>,
    pub status: Option<CwChessGameOver>,
    pub turn_color: Option<CwChessColor>,
}

impl View for GameSummary {
    type V = SummaryView;

    open spec fn view(&self) -> SummaryView {
        SummaryView {
            block_limit: self.block_limit,
            block_start: self.block_start,
            game_id: self.game_id,
            player1: self.player1@,
            player2: self.player2@,
            status: self.status,
            turn_color: self.turn_color,
        }
    }
}

/// The summary of a game: its fields but the moves, and the colour to move.
pub open spec fn summary_of(game: GameView) -> SummaryView {
    SummaryView {
        block_limit: game.block_limit,
        block_start: game.block_start,
        game_id: game.game_id,
        player1: game.player1,
        player2: game.player2,
        status: game.status,
        turn_color: game.turn_color(),
    }
}

impl GameSummary {
    /// Sums a game up.
    pub fn from(game: &CwChessGame) -> (summary: GameSummary)
        ensures
            summary@ == summary_of(game@),
    {
        GameSummary {
            block_limit: game.block_limit,
            block_start: game.block_start,
            game_id: game.game_id,
            player1: game.player1.clone(),
            player2: game.player2.clone(),
            status: game.status,
            turn_color: game.turn_color(),
        }
    }
}

} // verus!
