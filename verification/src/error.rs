//! The reasons for which an action on a challenge or a game is refused.

use vstd::prelude::*;

verus! {

/// Why an action was refused. A refused action changes nothing.
#[derive(Clone, Copy, Debug, PartialEq, Eq, Structural)]
pub enum ContractError {
    /// The caller may not perform this action.
    Unauthorized,
    /// A player tried to play against themself.
    CannotPlaySelf,
    /// No challenge is stored under the given id.
    ChallengeNotFound,
    /// The game already has an outcome.
    GameAlreadyOver,
    /// No game is stored under the given id.
    GameNotFound,
    /// A timeout was declared although no player has used up their limit.
    GameNotTimedOut,
    /// The move is malformed or illegal, or the action is not possible now.
    InvalidMove,
    /// The recorded moves of the game cannot be played again from the start.
    InvalidPosition,
    /// The challenge belongs to, or is addressed to, someone else.
    NotYourChallenge,
    /// It is the other player's turn.
    NotYourTurn,
}

impl ContractError {
    /// The refusal in words.
    pub open spec fn text(self) -> Seq<char> {
        match self {
            ContractError::Unauthorized => "Unauthorized"@,
            ContractError::CannotPlaySelf => "cannot play self"@,
            ContractError::ChallengeNotFound => "challenge not found"@,
            ContractError::GameAlreadyOver => "game already over"@,
            ContractError::GameNotFound => "game not found"@,
            ContractError::GameNotTimedOut => "game not timed out"@,
            ContractError::InvalidMove => "invalid move"@,
            ContractError::InvalidPosition => "invalid position"@,
            ContractError::NotYourChallenge => "not your challenge"@,
            ContractError::NotYourTurn => "not your turn"@,
        }
    }

    /// The refusal in words.
    pub fn message(&self) -> (message: String)
        ensures
            message@ == self.text(),
    {
        match self {
            ContractError::Unauthorized => "Unauthorized".to_owned(),
            ContractError::CannotPlaySelf => "cannot play self".to_owned(),
            ContractError::ChallengeNotFound => "challenge not found".to_owned(),
            ContractError::GameAlreadyOver => "game already over".to_owned(),
            ContractError::GameNotFound => "game not found".to_owned(),
            ContractError::GameNotTimedOut => "game not timed out".to_owned(),
            ContractError::InvalidMove => "invalid move".to_owned(),
            ContractError::InvalidPosition => "invalid position".to_owned(),
            ContractError::NotYourChallenge => "not your challenge".to_owned(),
            ContractError::NotYourTurn => "not your turn".to_owned(),
        }
    }
}

} // verus!
