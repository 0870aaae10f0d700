//! Turn-based chess sessions between two players: open challenges, games whose
//! moves are applied one at a time, and ordered, paginated listings of both.
//!
//! - `cwchess`: one game, the action that a player submits on their turn, the
//!   clock of the game.
//! - `engine`: the rules of chess, which the `chess_engine` crate supplies.
//! - `actions`: what creating, accepting and withdrawing a challenge, a turn
//!   and a declared timeout decide from the values stored.
//! - `merge`: the lazy merge of two ordered scans.
//! - `paging`: pages of what two scans hold, in the order of the ids.
//! - `queries`: the pages of challenges and games that can be asked for.
//! - `state`: a challenge, the ids, the keys of the indexes.
//! - `store`: challenges and games under their ids, each in two indexes.
//! - `contract`: the actions and the questions on what is stored.
//! - `msg`: the messages that name an action or a question, and the answers.

pub mod actions;
pub mod contract;
pub mod cwchess;
pub mod engine;
pub mod error;
pub mod merge;
pub mod msg;
pub mod paging;
pub mod queries;
pub mod state;
pub mod store;

pub use crate::error::ContractError;
