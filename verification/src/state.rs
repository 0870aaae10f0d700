//! What is stored: challenges and games under their ids, the keys under
//! which they are indexed, and listings of them in the order of their ids.

use vstd::prelude::*;
use crate::cwchess::{CwChessColor, CwChessGame};

pub use crate::merge::{merge_iters, IterMerge};

verus! {

/// Who owns the store.
#[derive(Clone, Debug, PartialEq, Eq)]
pub struct State {
    pub owner: String,
}

/// An open invitation to play.
#[derive(Clone, Debug, PartialEq, Eq)]
pub struct Challenge {
    /// The block height at which the challenge was created.
    pub block_created: u64,
    /// The number of blocks that each player may use in the game.
    pub block_limit: Option<u64>,
    /// The id of the challenge.
    pub challenge_id: u64,
    /// The player who created the challenge.
    pub created_by: String,
    /// The colour that the creator wants to play, if they chose one.
    pub play_as: Option<CwChessColor>,
    /// The only player who may accept the challenge, if one is named.
    pub opponent: Option<String>,
}

/// A challenge as a mathematical value.
pub struct ChallengeView {
    pub block_created: u64,
    pub block_limit: Option<u64>,
    pub challenge_id: u64,
    pub created_by: Seq<char>,
    pub play_as: Option<CwChessColor>,
    pub opponent: Option<Seq<char>>,
}

impl View for Challenge {
    type V = ChallengeView;

    open spec fn view(&self) -> ChallengeView {
        ChallengeView {
            block_created: self.block_created,
            block_limit: self.block_limit,
            challenge_id: self.challenge_id,
            created_by: self.created_by@,
            play_as: self.play_as,
            opponent: match self.opponent {
                Some(player) => Some(player@),
                None => None,
            },
        }
    }
}

/// The key under which a challenge without a named opponent is indexed.
pub open spec fn open_key() -> Seq<char> {
    "open"@
}

/// The key under which a challenge without a named opponent is indexed.
pub fn open_key_text() -> (key: String)
    ensures
        key@ == open_key(),
{
    "open".to_owned()
}

impl ChallengeView {
    /// Nobody challenges themself.
    pub open spec fn wf(self) -> bool {
        self.opponent != Some(self.created_by)
    }

    /// The key of the challenge in the index by creator.
    pub open spec fn created_by_key(self) -> Seq<char> {
        self.created_by
    }

    /// The key of the challenge in the index by opponent: the opponent, or
    /// the reserved key of the open challenges where none is named.
    pub open spec fn opponent_key(self) -> Seq<char> {
        match self.opponent {
            Some(player) => player,
            None => open_key(),
        }
    }
}

impl Challenge {
    /// The key of the challenge in the index by creator.
    pub fn created_by_key(&self) -> (key: String)
        ensures
            key@ == self@.created_by_key(),
    {
        self.created_by.clone()
    }

    /// The key of the challenge in the index by opponent.
    pub fn opponent_key(&self) -> (key: String)
        ensures
            key@ == self@.opponent_key(),
    {
        match &self.opponent {
            Some(player) => player.clone(),
            None => open_key_text(),
        }
    }
}

impl CwChessGame {
    /// The key of the game in the index by the player with White.
    pub fn player1_key(&self) -> (key: String)
        ensures
            key@ == self@.player1,
    {
        self.player1.clone()
    }

    /// The key of the game in the index by the player with Black.
    pub fn player2_key(&self) -> (key: String)
        ensures
            key@ == self@.player2,
    {
        self.player2.clone()
    }
}

/// The id after the last one that was given out; the first id is 1.
pub open spec fn id_after(last: Option<u64>) -> int {
    match last {
        Some(id) => id + 1,
        None => 1,
    }
}

/// The id for the next challenge, after the last one given out.
pub fn next_challenge_id(last: Option<u64>) -> (id: u64)
    requires
        id_after(last) <= u64::MAX,
    ensures
        id == id_after(last),
{
    match last {
        Some(id) => id + 1,
        None => 1,
    }
}

/// The id for the next game, after the last one given out.
pub fn next_game_id(last: Option<u64>) -> (id: u64)
    requires
        id_after(last) <= u64::MAX,
    ensures
        id == id_after(last),
{
    match last {
        Some(id) => id + 1,
        None => 1,
    }
}

/// What is stored under a numeric id.
pub trait Keyed {
    /// The id under which the item is stored.
    spec fn key(&self) -> u64;

    /// The id under which the item is stored.
    fn primary_key(&self) -> (id: u64)
        ensures
            id == self.key(),
    ;
}

impl Keyed for u64 {
    open spec fn key(&self) -> u64 {
        *self
    }

    fn primary_key(&self) -> (id: u64) {
        *self
    }
}

impl Keyed for Challenge {
    open spec fn key(&self) -> u64 {
        self.challenge_id
    }

    fn primary_key(&self) -> (id: u64) {
        self.challenge_id
    }
}

impl Keyed for CwChessGame {
    open spec fn key(&self) -> u64 {
        self.game_id
    }

    fn primary_key(&self) -> (id: u64) {
        self.game_id
    }
}

impl<'a, T: Keyed> Keyed for &'a T {
    open spec fn key(&self) -> u64 {
        (**self).key()
    }

    fn primary_key(&self) -> (id: u64) {
        (**self).primary_key()
    }
}

/// What stands in two indexes, in each under a key of its own.
pub trait Indexed: Keyed {
    /// The key of the item in the first index.
    spec fn first_key(&self) -> Seq<char>;

    /// The key of the item in the second index.
    spec fn second_key(&self) -> Seq<char>;

    /// Says whether the item stands in the first index under `key`.
    fn in_first_index(&self, key: &String) -> (r: bool)
        ensures
            r == (self.first_key() == key@),
    ;

    /// Says whether the item stands in the second index under `key`.
    fn in_second_index(&self, key: &String) -> (r: bool)
        ensures
            r == (self.second_key() == key@),
    ;
}

impl Indexed for Challenge {
    open spec fn first_key(&self) -> Seq<char> {
        self@.created_by_key()
    }

    open spec fn second_key(&self) -> Seq<char> {
        self@.opponent_key()
    }

    fn in_first_index(&self, key: &String) -> (r: bool) {
        self.created_by_key() == *key
    }

    fn in_second_index(&self, key: &String) -> (r: bool) {
        self.opponent_key() == *key
    }
}

impl Indexed for CwChessGame {
    open spec fn first_key(&self) -> Seq<char> {
        self@.player1
    }

    open spec fn second_key(&self) -> Seq<char> {
        self@.player2
    }

    fn in_first_index(&self, key: &String) -> (r: bool) {
        self.player1_key() == *key
    }

    fn in_second_index(&self, key: &String) -> (r: bool) {
        self.player2_key() == *key
    }
}

} // verus!
