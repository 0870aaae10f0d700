//! The chess rules, which the `chess_engine` crate supplies: parsing a move,
//! playing it on a position, and playing the recorded moves of a game again.

use vstd::prelude::*;
use vstd::utf8::is_ascii_chars;
use chess_engine::{Board, Color, GameResult, Move};
use crate::cwchess::{moves_view, ActionView, CwChessAction, CwChessColor, CwChessMove};

verus! {

/// A position of the `chess_engine` crate: the pieces, the castling rights
/// and the side to move.
#[verifier::external_type_specification]
#[verifier::external_body]
pub struct ExBoard(Board);

/// A move of the `chess_engine` crate.
#[verifier::external_type_specification]
#[verifier::external_body]
pub struct ExMove(Move);

/// What the text of a move stands for.
pub enum Parsed {
    /// A move of a piece, or castling.
    Move(Move),
    /// The word by which the engine lets a player resign.
    Resignation,
    /// Nothing: the text is not in a form that the engine reads.
    Malformed,
}

/// What the rules say when a move is played on a position.
pub enum Played {
    /// The move is legal and the game goes on from the position held here.
    Continuing(Board),
    /// The move ends the game, and the given colour has won.
    Victory(CwChessColor),
    /// The move ends the game in a stalemate.
    Stalemate,
    /// The move is not legal on the position.
    Illegal,
}

/// What the rules say of a move submitted in a game.
#[derive(Clone, Copy, Debug, PartialEq, Eq, Structural)]
pub enum Verdict {
    /// The recorded moves of the game cannot be played again from the start.
    Corrupt,
    /// The move is malformed or not legal on the position of the game.
    Rejected,
    /// The move is legal and the game goes on.
    Continues,
    /// The move ends the game, and the given colour has won.
    Victory(CwChessColor),
    /// The move ends the game in a stalemate.
    Stalemate,
}

/// What `chess_engine::Move::parse` makes of a text. The engine reads a move
/// as the square that a piece leaves and the square that it goes to
/// (`e2e4`, `e2 e4`, `e2 to e4`), or as castling (`O-O`, `O-O-O`).
pub uninterp spec fn parsed_move(text: Seq<char>) -> Parsed;

/// What `chess_engine::Board::play_move` returns for a position and a move.
pub uninterp spec fn played(board: Board, m: Move) -> Played;

/// Reads a move through `chess_engine::Move::parse`.
///
/// Trusted: the result depends on the text alone. The parser cuts a word of
/// four bytes in the middle, which is only sound for ASCII text, so other text
/// is not admitted.
#[verifier::external_body]
pub(crate) fn parse_move(text: &str) -> (r: Parsed)
    requires
        is_ascii_chars(text@),
    ensures
        r == parsed_move(text@),
{
    match Move::parse(text.to_string()) {
        Ok(Move::Resign) => Parsed::Resignation,
        Ok(m) => Parsed::Move(m),
        Err(_) => Parsed::Malformed,
    }
}

/// Plays a move on a position through `chess_engine::Board::play_move`.
///
/// Trusted: the result depends on the position and the move alone.
#[verifier::external_body]
pub(crate) fn play_move(board: &Board, m: Move) -> (r: Played)
    ensures
        r == played(*board, m),
{
    match board.play_move(m) {
        GameResult::Continuing(next) => Played::Continuing(next),
        GameResult::Victory(Color::White) => Played::Victory(CwChessColor::White),
        GameResult::Victory(Color::Black) => Played::Victory(CwChessColor::Black),
        GameResult::Stalemate => Played::Stalemate,
        GameResult::IllegalMove(_) => Played::Illegal,
    }
}

/// The position before the first move, from `chess_engine::Board::default`.
///
/// Trusted, with nothing claimed of the position.
#[verifier::external_body]
pub(crate) fn start_board() -> (r: Board) {
    Board::default()
}

/// The text of the move that an action plays, if it plays one.
pub open spec fn move_text(action: ActionView) -> Option<Seq<char>> {
    match action {
        ActionView::MakeMove(text) => Some(text),
        ActionView::OfferDraw(text) => Some(text),
        _ => None,
    }
}

/// What the rules say when the move written in `text` is played on a
/// position. Text that is not ASCII, that the engine cannot read, or that
/// stands for a resignation is no legal move.
pub open spec fn played_text(board: Board, text: Seq<char>) -> Played {
    if !is_ascii_chars(text) {
        Played::Illegal
    } else {
        match parsed_move(text) {
            Parsed::Move(m) => played(board, m),
            _ => Played::Illegal,
        }
    }
}

/// The position reached when the recorded moves are played in order from
/// `start`, or `None` if one of them is no move on the board, is not legal
/// where it stands, or ends the game.
pub open spec fn position_after(start: Board, moves: Seq<(u64, ActionView)>) -> Option<Board>
    decreases moves.len(),
{
    if moves.len() == 0 {
        Some(start)
    } else {
        match (position_after(start, moves.drop_last()), move_text(moves.last().1)) {
            (Some(board), Some(text)) => match played_text(board, text) {
                Played::Continuing(next) => Some(next),
                _ => None,
            },
            _ => None,
        }
    }
}

/// What the rules say of the move written in `text` when it is submitted in
/// a game with the given recorded moves that began at `start`.
pub open spec fn verdict_of(start: Board, moves: Seq<(u64, ActionView)>, text: Seq<char>) -> Verdict {
    match position_after(start, moves) {
        None => Verdict::Corrupt,
        Some(board) => match played_text(board, text) {
            Played::Continuing(_) => Verdict::Continues,
            Played::Victory(color) => Verdict::Victory(color),
            Played::Stalemate => Verdict::Stalemate,
            Played::Illegal => Verdict::Rejected,
        },
    }
}

/// Once a prefix of the recorded moves cannot be played, neither can the whole.
pub proof fn lemma_corrupt_prefix(start: Board, moves: Seq<(u64, ActionView)>, k: int)
    requires
        0 <= k <= moves.len(),
        position_after(start, moves.take(k)) is None,
    ensures
        position_after(start, moves) is None,
    decreases moves.len() - k,
{
    if k < moves.len() {
        assert(moves.take(k + 1).drop_last() =~= moves.take(k));
        lemma_corrupt_prefix(start, moves, k + 1);
    } else {
        assert(moves.take(k) =~= moves);
    }
}

/// Plays the move written in `text` on a position.
pub fn play_text(board: &Board, text: &str) -> (r: Played)
    ensures
        r == played_text(*board, text@),
{
    if !text.is_ascii() {
        return Played::Illegal;
    }
    match parse_move(text) {
        Parsed::Move(m) => play_move(board, m),
        _ => Played::Illegal,
    }
}

/// Plays the recorded moves of a game again, starting at `start`.
pub fn replay(start: Board, moves: &Vec<CwChessMove>) -> (r: Option<Board>)
    ensures
        r == position_after(start, moves_view(moves@)),
{
    let ghost all = moves_view(moves@);
    let mut board = start;
    let mut i: usize = 0;
    while i < moves.len()
        invariant
            0 <= i <= moves.len(),
            all == moves_view(moves@),
            position_after(start, all.take(i as int)) == Some(board),
        decreases moves.len() - i,
    {
        proof {
            assert(all.take(i + 1).drop_last() =~= all.take(i as int));
        }
        let next = match &moves[i].1 {
            CwChessAction::MakeMove(text) => play_text(&board, text.as_str()),
            CwChessAction::OfferDraw(text) => play_text(&board, text.as_str()),
            _ => Played::Illegal,
        };
        match next {
            Played::Continuing(reached) => {
                board = reached;
            },
            _ => {
                proof {
                    lemma_corrupt_prefix(start, all, i + 1);
                }
                return None;
            },
        }
        i += 1;
    }
    proof {
        assert(all.take(i as int) =~= all);
    }
    Some(board)
}

/// Asks the rules about the move written in `text`, submitted in a game with
/// the given recorded moves that began at `start`.
pub fn judge(start: Board, moves: &Vec<CwChessMove>, text: &str) -> (r: Verdict)
    ensures
        r == verdict_of(start, moves_view(moves@), text@),
{
    match replay(start, moves) {
        None => Verdict::Corrupt,
        Some(board) => match play_text(&board, text) {
            Played::Continuing(_) => Verdict::Continues,
            Played::Victory(color) => Verdict::Victory(color),
            Played::Stalemate => Verdict::Stalemate,
            Played::Illegal => Verdict::Rejected,
        },
    }
}

} // verus!
