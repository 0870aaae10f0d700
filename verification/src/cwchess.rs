//! One game of chess between two players: whose turn it is, how an action
//! changes the game, and when a player has run out of time.

use vstd::prelude::*;
use chess_engine::Board;
use crate::engine::{judge, position_after, replay, start_board, verdict_of, Verdict};
use crate::error::ContractError;

verus! {

/// What a player submits on their turn.
#[derive(Clone, Debug, PartialEq, Eq)]
pub enum CwChessAction {
    /// Accept the draw that the opponent offered with their last move.
    AcceptDraw,
    /// Play the move written in the text.
    MakeMove(String),
    /// Play the move written in the text and offer a draw with it.
    OfferDraw(String),
    /// Give the game up.
    Resign,
    /// Claim a draw by the rules. No such claim is ever granted.
    DeclareDraw,
}

/// A submitted action as a mathematical value.
pub enum ActionView {
    AcceptDraw,
    MakeMove(Seq<char>),
    OfferDraw(Seq<char>),
    Resign,
    DeclareDraw,
}

impl View for CwChessAction {
    type V = ActionView;

    open spec fn view(&self) -> ActionView {
        match self {
            CwChessAction::AcceptDraw => ActionView::AcceptDraw,
            CwChessAction::MakeMove(text) => ActionView::MakeMove(text@),
            CwChessAction::OfferDraw(text) => ActionView::OfferDraw(text@),
            CwChessAction::Resign => ActionView::Resign,
            CwChessAction::DeclareDraw => ActionView::DeclareDraw,
        }
    }
}

impl CwChessAction {
    /// The action that plays the move written in `make_move`.
    pub fn from(make_move: &str) -> (action: CwChessAction)
        ensures
            action@ == ActionView::MakeMove(make_move@),
    {
        CwChessAction::MakeMove(make_move.to_owned())
    }
}

/// One of the two seats of a game.
#[derive(Clone, Copy, Debug, PartialEq, Eq, Structural)]
pub enum CwChessColor {
    White,
    Black,
}

impl CwChessColor {
    /// The other seat.
    pub open spec fn other(self) -> CwChessColor {
        match self {
            CwChessColor::White => CwChessColor::Black,
            CwChessColor::Black => CwChessColor::White,
        }
    }

    /// The other seat.
    pub fn opposite(self) -> (r: CwChessColor)
        ensures
            r == self.other(),
    {
        match self {
            CwChessColor::White => CwChessColor::Black,
            CwChessColor::Black => CwChessColor::White,
        }
    }
}

/// How a game ended.
#[derive(Clone, Copy, Debug, PartialEq, Eq, Structural)]
pub enum CwChessGameOver {
    BlackCheckmates,
    BlackResigns,
    DrawAccepted,
    DrawDeclared,
    Stalemate,
    WhiteCheckmates,
    WhiteResigns,
    BlackTimeout,
    WhiteTimeout,
}

/// An action together with the block height at which it was submitted.
pub type CwChessMove = (u64, CwChessAction);

/// A game between two players.
#[derive(Clone, Debug, PartialEq, Eq)]
pub struct CwChessGame {
    /// The number of blocks that each player may use for all their moves
    /// together, counted from the first move of the game.
    pub block_limit: Option<u64>,
    /// The block height at which the game was created.
    pub block_start: u64,
    /// The id of the game.
    pub game_id: u64,
    /// The successful actions so far, oldest first.
    pub moves: Vec<CwChessMove>,
    /// The player with the white pieces.
    pub player1: String,
    /// The player with the black pieces.
    pub player2: String,
    /// The outcome; `None` while the game is being played.
    pub status: Option<CwChessGameOver>,
}

/// A game as a mathematical value.
pub struct GameView {
    pub block_limit: Option<u64>,
    pub block_start: u64,
    pub game_id: u64,
    pub moves: Seq<(u64, ActionView)>,
    pub player1: Seq<char>,
    pub player2: Seq<char>,
    pub status: Option<CwChessGameOver>,
}

impl View for CwChessGame {
    type V = GameView;

    open spec fn view(&self) -> GameView {
        GameView {
            block_limit: self.block_limit,
            block_start: self.block_start,
            game_id: self.game_id,
            moves: moves_view(self.moves@),
            player1: self.player1@,
            player2: self.player2@,
            status: self.status,
        }
    }
}

/// The recorded moves as mathematical values.
pub open spec fn moves_view(moves: Seq<CwChessMove>) -> Seq<(u64, ActionView)> {
    moves.map_values(|m: CwChessMove| (m.0, m.1@))
}

/// The block heights of the recorded moves.
pub open spec fn heights(moves: Seq<(u64, ActionView)>) -> Seq<u64> {
    moves.map_values(|m: (u64, ActionView)| m.0)
}

/// No height in the sequence is lower than the one before it.
pub open spec fn non_decreasing(h: Seq<u64>) -> bool {
    forall|i: int, j: int| 0 <= i <= j < h.len() ==> h[i] <= h[j]
}

/// The blocks used by one colour: the sum of the steps `h[i] - h[i - 1]` over
/// the indices `i >= 1` with `i % 2 == parity`. A step that ends at an even
/// index was White's time to think (parity 0), one that ends at an odd index
/// Black's (parity 1).
pub open spec fn time_used(h: Seq<u64>, parity: int) -> int
    decreases h.len(),
{
    if h.len() < 2 {
        0
    } else {
        time_used(h.drop_last(), parity) + if (h.len() - 1) % 2 == parity {
            h[h.len() - 1] - h[h.len() - 2]
        } else {
            0
        }
    }
}

impl GameView {
    /// The heights of the moves never go down.
    pub open spec fn wf(self) -> bool {
        non_decreasing(heights(self.moves))
    }

    /// `height` is not lower than the height of the last move.
    pub open spec fn reaches(self, height: u64) -> bool {
        self.moves.len() > 0 ==> self.moves.last().0 <= height
    }

    /// The colour to move, by the number of moves so far.
    pub open spec fn color_to_move(self) -> CwChessColor {
        if self.moves.len() % 2 == 0 {
            CwChessColor::White
        } else {
            CwChessColor::Black
        }
    }

    /// The colour to move while the game is played, `None` once it is over.
    pub open spec fn turn_color(self) -> Option<CwChessColor> {
        match self.status {
            None => Some(self.color_to_move()),
            Some(_) => None,
        }
    }

    /// The player in the seat of the given colour.
    pub open spec fn seat(self, color: CwChessColor) -> Seq<char> {
        match color {
            CwChessColor::White => self.player1,
            CwChessColor::Black => self.player2,
        }
    }

    /// The colour that offered a draw with the last move, if the last move
    /// offered one and the game is still played.
    pub open spec fn draw_offered(self) -> Option<CwChessColor> {
        if self.moves.len() > 0 && self.moves.last().1 is OfferDraw && self.status is None {
            Some(self.color_to_move().other())
        } else {
            None
        }
    }

    /// The points in time between which the clock runs: the heights of the
    /// moves and, while the game is played, `now` after them.
    pub open spec fn clock(self, now: u64) -> Seq<u64> {
        if self.status is None {
            heights(self.moves).push(now)
        } else {
            heights(self.moves)
        }
    }

    /// The blocks that White and Black have used up to `now`.
    pub open spec fn block_times(self, now: u64) -> (int, int) {
        (time_used(self.clock(now), 0), time_used(self.clock(now), 1))
    }

    /// The timeout that has occurred at `now`, if any: White's if White has
    /// used more than the limit, else Black's if Black has.
    pub open spec fn timeout_at(self, now: u64) -> Option<CwChessGameOver> {
        match self.block_limit {
            None => None,
            Some(limit) => if self.block_times(now).0 > limit {
                Some(CwChessGameOver::WhiteTimeout)
            } else if self.block_times(now).1 > limit {
                Some(CwChessGameOver::BlackTimeout)
            } else {
                None
            },
        }
    }

    /// The game with another outcome.
    pub open spec fn with_status(self, status: Option<CwChessGameOver>) -> GameView {
        GameView { status, ..self }
    }

    /// The game with one more move and the outcome that the move brought.
    pub open spec fn with_move(
        self,
        height: u64,
        action: ActionView,
        status: Option<CwChessGameOver>,
    ) -> GameView {
        GameView { moves: self.moves.push((height, action)), status, ..self }
    }
}

/// The outcome in which the given colour has checkmated.
pub open spec fn checkmate_by(color: CwChessColor) -> CwChessGameOver {
    match color {
        CwChessColor::White => CwChessGameOver::WhiteCheckmates,
        CwChessColor::Black => CwChessGameOver::BlackCheckmates,
    }
}

/// The outcome in which the given colour has resigned.
pub open spec fn resignation_by(color: CwChessColor) -> CwChessGameOver {
    match color {
        CwChessColor::White => CwChessGameOver::WhiteResigns,
        CwChessColor::Black => CwChessGameOver::BlackResigns,
    }
}

/// Whether a player of colour `acceptor` can accept a draw when `offered_by`
/// is the colour that offered one with the last move, if any did: only the
/// other colour's offer can be accepted.
pub open spec fn draw_can_be_accepted(
    offered_by: Option<CwChessColor>,
    acceptor: CwChessColor,
) -> bool {
    match offered_by {
        Some(color) => color != acceptor,
        None => false,
    }
}

/// What a move on the board does to a game whose turn it is, given what the
/// rules say of the move.
pub open spec fn settle_move(
    g: GameView,
    height: u64,
    action: ActionView,
    verdict: Verdict,
) -> (GameView, Result<Option<CwChessGameOver>, ContractError>) {
    match verdict {
        Verdict::Corrupt => (g, Err(ContractError::InvalidPosition)),
        Verdict::Rejected => (g, Err(ContractError::InvalidMove)),
        Verdict::Continues => (g.with_move(height, action, None), Ok(None)),
        Verdict::Victory(color) => (
            g.with_move(height, action, Some(checkmate_by(color))),
            Ok(Some(checkmate_by(color))),
        ),
        Verdict::Stalemate => (
            g.with_move(height, action, Some(CwChessGameOver::Stalemate)),
            Ok(Some(CwChessGameOver::Stalemate)),
        ),
    }
}

/// The game after `player` has submitted `action` at `height`, and what the
/// submission returns, given what the rules say of the move if the action
/// plays one.
///
/// A game that is over refuses everything. Else a timeout that has occurred
/// at `height` ends the game before anything is looked at. Else the player
/// must be the one to move. Then the action decides.
pub open spec fn step(
    g: GameView,
    player: Seq<char>,
    height: u64,
    action: ActionView,
    verdict: Verdict,
) -> (GameView, Result<Option<CwChessGameOver>, ContractError>) {
    if g.status is Some {
        (g, Err(ContractError::GameAlreadyOver))
    } else if g.timeout_at(height) is Some {
        (g.with_status(g.timeout_at(height)), Ok(g.timeout_at(height)))
    } else if player != g.seat(g.color_to_move()) {
        (g, Err(ContractError::NotYourTurn))
    } else {
        match action {
            ActionView::MakeMove(_) => settle_move(g, height, action, verdict),
            ActionView::OfferDraw(_) => settle_move(g, height, action, verdict),
            ActionView::AcceptDraw => if draw_can_be_accepted(g.draw_offered(), g.color_to_move()) {
                (
                    g.with_move(height, action, Some(CwChessGameOver::DrawAccepted)),
                    Ok(Some(CwChessGameOver::DrawAccepted)),
                )
            } else {
                (g, Err(ContractError::InvalidMove))
            },
            ActionView::DeclareDraw => (g, Err(ContractError::InvalidMove)),
            ActionView::Resign => (
                g.with_move(height, action, Some(resignation_by(g.color_to_move()))),
                Ok(Some(resignation_by(g.color_to_move()))),
            ),
        }
    }
}

/// What the rules say of an action submitted in a game that began at
/// `start`. An action that plays no move gets no verdict of the rules; for
/// it this is `Rejected`, which `step` does not look at.
pub open spec fn verdict_for(start: Board, g: GameView, action: ActionView) -> Verdict {
    match action {
        ActionView::MakeMove(text) => verdict_of(start, g.moves, text),
        ActionView::OfferDraw(text) => verdict_of(start, g.moves, text),
        _ => Verdict::Rejected,
    }
}

/// The game after `player` has submitted `action` at `height` in a game that
/// began at the position `start`, and what the submission returns.
pub open spec fn make_move_from(
    start: Board,
    g: GameView,
    player: Seq<char>,
    height: u64,
    action: ActionView,
) -> (GameView, Result<Option<CwChessGameOver>, ContractError>) {
    step(g, player, height, action, verdict_for(start, g, action))
}

/// A game that has an outcome refuses every action and stays as it is: its
/// moves and its outcome never change again.
pub proof fn lemma_over_is_final(
    g: GameView,
    player: Seq<char>,
    height: u64,
    action: ActionView,
    verdict: Verdict,
)
    requires
        g.status is Some,
    ensures
        step(g, player, height, action, verdict) == (
            g,
            Err::<Option<CwChessGameOver>, ContractError>(ContractError::GameAlreadyOver),
        ),
{
}

/// Whatever is submitted, the recorded moves stay as they are or get the
/// submitted action added at their end, and they stay as they are whenever
/// the submission is refused or a timeout ends the game.
pub proof fn lemma_moves_only_grow(
    g: GameView,
    player: Seq<char>,
    height: u64,
    action: ActionView,
    verdict: Verdict,
)
    ensures
        ({
            let after = step(g, player, height, action, verdict);
            &&& after.0.moves == g.moves || after.0.moves == g.moves.push((height, action))
            &&& after.1 is Err ==> after.0 == g
            &&& g.status is None && g.timeout_at(height) is Some ==> after.0.moves == g.moves
        }),
{
}

/// The players take turns, White first: in a game that is played, with no
/// timeout, after `n` moves a submission is refused with `NotYourTurn` if
/// and only if it comes from anyone but the player with White for an even
/// `n`, the player with Black for an odd `n`; and a move after which the
/// game goes on hands the turn to the other colour.
pub proof fn lemma_turns_alternate(
    g: GameView,
    player: Seq<char>,
    height: u64,
    action: ActionView,
    verdict: Verdict,
)
    requires
        g.status is None,
        g.timeout_at(height) is None,
    ensures
        step(g, player, height, action, verdict).1 == Err::<
            Option<CwChessGameOver>,
            ContractError,
        >(ContractError::NotYourTurn) <==> player != if g.moves.len() % 2 == 0 {
            g.player1
        } else {
            g.player2
        },
        step(g, player, height, action, verdict).1 == Ok::<
            Option<CwChessGameOver>,
            ContractError,
        >(None) ==> step(g, player, height, action, verdict).0.turn_color() == Some(
            g.color_to_move().other(),
        ),
{
}

/// A timeout comes before everything else: in a game that is played, once a
/// colour has used more blocks than the limit allows, whatever whoever
/// submits ends the game by timeout, White's if White is over the limit and
/// else Black's, and is not recorded.
pub proof fn lemma_timeout_comes_first(
    g: GameView,
    player: Seq<char>,
    height: u64,
    action: ActionView,
    verdict: Verdict,
    limit: u64,
)
    requires
        g.status is None,
        g.block_limit == Some(limit),
        g.block_times(height).0 > limit || g.block_times(height).1 > limit,
    ensures
        ({
            let over = if g.block_times(height).0 > limit {
                CwChessGameOver::WhiteTimeout
            } else {
                CwChessGameOver::BlackTimeout
            };
            step(g, player, height, action, verdict) == (
                g.with_status(Some(over)),
                Ok::<Option<CwChessGameOver>, ContractError>(Some(over)),
            )
        }),
{
}

/// A draw can be accepted only right after the other colour has offered
/// one: when the player whose turn it is accepts a draw and the last move
/// did not offer one, or there is no move yet, the action is refused with
/// `InvalidMove`; when the last move offered one, the game ends in a draw.
pub proof fn lemma_draw_needs_offer(g: GameView, player: Seq<char>, height: u64, verdict: Verdict)
    requires
        g.status is None,
        g.timeout_at(height) is None,
        player == g.seat(g.color_to_move()),
    ensures
        g.moves.len() == 0 || !(g.moves.last().1 is OfferDraw) ==> step(
            g,
            player,
            height,
            ActionView::AcceptDraw,
            verdict,
        ) == (g, Err::<Option<CwChessGameOver>, ContractError>(ContractError::InvalidMove)),
        g.moves.len() > 0 && g.moves.last().1 is OfferDraw ==> step(
            g,
            player,
            height,
            ActionView::AcceptDraw,
            verdict,
        ).1 == Ok::<Option<CwChessGameOver>, ContractError>(Some(CwChessGameOver::DrawAccepted)),
{
}

/// Nobody accepts their own offer of a draw.
pub proof fn lemma_own_offer_is_refused(color: CwChessColor)
    ensures
        !draw_can_be_accepted(Some(color), color),
        !draw_can_be_accepted(None, color),
        draw_can_be_accepted(Some(color.other()), color),
{
}

/// Every block between the first height and the last is counted once, for
/// one colour or the other.
pub proof fn lemma_clock_adds_up(h: Seq<u64>)
    requires
        h.len() > 0,
    ensures
        time_used(h, 0) + time_used(h, 1) == h.last() - h[0],
    decreases h.len(),
{
    if h.len() >= 2 {
        lemma_clock_adds_up(h.drop_last());
    }
}

/// The clock of a finished game stands still, and a game without moves has
/// no clock: the blocks used do not depend on the present height.
pub proof fn lemma_clock_stops(g: GameView, now: u64, later: u64)
    requires
        g.status is Some || g.moves.len() == 0,
    ensures
        g.block_times(now) == g.block_times(later),
        g.moves.len() == 0 ==> g.block_times(now) == (0int, 0int),
{
}

/// Time only runs for the colour to move: while a game is played, from one
/// height to a later one the blocks used by the colour to move grow by the
/// difference, and those of the other colour stay.
pub proof fn lemma_clock_runs_for_the_mover(g: GameView, now: u64, later: u64)
    requires
        g.status is None,
        g.moves.len() > 0,
        now <= later,
    ensures
        g.color_to_move() == CwChessColor::White ==> g.block_times(later) == (
            g.block_times(now).0 + (later - now),
            g.block_times(now).1,
        ),
        g.color_to_move() == CwChessColor::Black ==> g.block_times(later) == (
            g.block_times(now).0,
            g.block_times(now).1 + (later - now),
        ),
{
    let h = heights(g.moves);
    assert(g.clock(now).drop_last() =~= h);
    assert(g.clock(later).drop_last() =~= h);
}

/// A timeout does not go away: once a timeout has occurred in a game that is
/// played, one has occurred at every later height.
pub proof fn lemma_timeout_persists(g: GameView, now: u64, later: u64)
    requires
        g.status is None,
        now <= later,
        g.timeout_at(now) is Some,
    ensures
        g.timeout_at(later) is Some,
{
    if g.moves.len() == 0 {
    } else {
        lemma_clock_runs_for_the_mover(g, now, later);
    }
}

/// Taking a prefix and dropping its last item gives the shorter prefix.
proof fn lemma_take_drop_last(h: Seq<u64>, i: int)
    requires
        0 <= i < h.len(),
    ensures
        h.take(i + 1).drop_last() == h.take(i),
        h.take(i + 1).len() == i + 1,
        h.take(i + 1)[i] == h[i],
        i > 0 ==> h.take(i + 1)[i - 1] == h[i - 1],
{
}

/// A move at a height that the game reaches keeps the heights in order.
pub proof fn lemma_wf_push(moves: Seq<(u64, ActionView)>, height: u64, action: ActionView)
    requires
        non_decreasing(heights(moves)),
        moves.len() > 0 ==> moves.last().0 <= height,
    ensures
        non_decreasing(heights(moves.push((height, action)))),
{
    let before = heights(moves);
    let after = heights(moves.push((height, action)));
    assert forall|i: int, j: int| 0 <= i <= j < after.len() implies after[i] <= after[j] by {
        if j < before.len() {
            assert(before[i] <= before[j]);
        } else if i < before.len() {
            assert(before[i] <= before[before.len() - 1]);
        }
    }
}

/// Recording a move adds its mathematical value to those of the others.
pub proof fn lemma_moves_view_push(moves: Seq<CwChessMove>, m: CwChessMove)
    ensures
        moves_view(moves.push(m)) == moves_view(moves).push((m.0, m.1@)),
{
}

impl CwChessGame {
    /// Says whether the heights of the moves never go down and `height` is
    /// not lower than the last of them: what `check_timeout` and `make_move`
    /// ask of a game and of the height at which they are called.
    pub fn is_in_order_up_to(&self, height: u64) -> (r: bool)
        ensures
            r == (self@.wf() && self@.reaches(height)),
    {
        let ghost h = heights(self@.moves);
        let n = self.moves.len();
        if n == 0 {
            return true;
        }
        let mut i: usize = 1;
        while i < n
            invariant
                1 <= i <= n,
                n == self.moves.len(),
                h == heights(self@.moves),
                non_decreasing(h.take(i as int)),
            decreases n - i,
        {
            if self.moves[i - 1].0 > self.moves[i].0 {
                assert(h[i - 1] > h[i as int]);
                return false;
            }
            proof {
                let shorter = h.take(i as int);
                let longer = h.take(i + 1);
                assert forall|a: int, b: int| 0 <= a <= b < longer.len() implies longer[a]
                    <= longer[b] by {
                    if b == i && a < i {
                        assert(shorter[a] <= shorter[i - 1]);
                    }
                }
            }
            i += 1;
        }
        assert(h.take(n as int) =~= h);
        self.moves[n - 1].0 <= height
    }

    /// The blocks that White and Black have used: the steps between the
    /// heights of consecutive moves, and, while the game is played, the step
    /// from the last move to `current_block`. The clock starts with the first
    /// move.
    pub fn get_block_times(&self, current_block: u64) -> (r: (u64, u64))
        requires
            self@.wf(),
            self.status is None ==> self@.reaches(current_block),
        ensures
            (r.0 as int, r.1 as int) == self@.block_times(current_block),
    {
        if self.moves.len() == 0 {
            return (0, 0);
        }
        let ghost h = heights(self@.moves);
        let mut blocks: Vec<u64> = Vec::new();
        let mut k: usize = 0;
        while k < self.moves.len()
            invariant
                0 <= k <= self.moves.len(),
                h == heights(self@.moves),
                blocks@ == h.take(k as int),
            decreases self.moves.len() - k,
        {
            blocks.push(self.moves[k].0);
            k += 1;
        }
        if self.status.is_none() {
            blocks.push(current_block);
            assert(self@.moves.last().0 == h[h.len() - 1]);
        }
        assert(blocks@ == self@.clock(current_block));
        let mut white: u64 = 0;
        let mut black: u64 = 0;
        let mut i: usize = 1;
        while i < blocks.len()
            invariant
                1 <= i <= blocks.len(),
                non_decreasing(blocks@),
                white == time_used(blocks@.take(i as int), 0),
                black == time_used(blocks@.take(i as int), 1),
                white + black == blocks@[i - 1] - blocks@[0],
            decreases blocks.len() - i,
        {
            proof {
                lemma_take_drop_last(blocks@, i as int);
            }
            let move_time = blocks[i] - blocks[i - 1];
            if i % 2 == 0 {
                white += move_time;
            } else {
                black += move_time;
            }
            i += 1;
        }
        assert(blocks@.take(i as int) =~= blocks@);
        (white, black)
    }

    /// Ends the game if a player has used more blocks than the limit allows
    /// at `current_block`, and returns the outcome of the game after that.
    ///
    /// A game that is over is refused with `GameAlreadyOver` and left as it
    /// is. Else the outcome becomes the timeout that has occurred, White's
    /// before Black's, or stays `None`; nothing else changes.
    pub fn check_timeout(&mut self, current_block: u64) -> (r: Result<
        Option<CwChessGameOver>,
        ContractError,
    >)
        requires
            old(self)@.wf(),
            old(self)@.reaches(current_block),
        ensures
            old(self).status is Some ==> r == Err::<Option<CwChessGameOver>, ContractError>(
                ContractError::GameAlreadyOver,
            ) && *final(self) == *old(self),
            old(self).status is None ==> r == Ok::<Option<CwChessGameOver>, ContractError>(
                old(self)@.timeout_at(current_block),
            ) && *final(self) == (CwChessGame {
                status: old(self)@.timeout_at(current_block),
                ..*old(self)
            }),
    {
        if self.status.is_some() {
            return Err(ContractError::GameAlreadyOver);
        }
        self.status = match self.block_limit {
            None => None,
            Some(block_time_limit) => {
                let block_times = self.get_block_times(current_block);
                if block_times.0 > block_time_limit {
                    Some(CwChessGameOver::WhiteTimeout)
                } else if block_times.1 > block_time_limit {
                    Some(CwChessGameOver::BlackTimeout)
                } else {
                    None
                }
            },
        };
        Ok(self.status)
    }

    /// Seats two players: the first takes the colour `play_as` if one is
    /// given; if none is, the first takes White at an even `height` and Black
    /// at an odd one. Returns the player with White, then the player with
    /// Black.
    pub fn get_player_order(
        player1: String,
        player2: String,
        play_as: Option<CwChessColor>,
        height: u64,
    ) -> (r: (String, String))
        ensures
            r == if play_as == Some(CwChessColor::White) || (play_as is None && height % 2 == 0) {
                (player1, player2)
            } else {
                (player2, player1)
            },
    {
        match play_as {
            Some(CwChessColor::White) => (player1, player2),
            Some(CwChessColor::Black) => (player2, player1),
            None => {
                if height % 2 == 0 {
                    (player1, player2)
                } else {
                    (player2, player1)
                }
            },
        }
    }

    /// The colour to move: White after an even number of moves, Black after
    /// an odd number, and `None` once the game is over.
    pub fn turn_color(&self) -> (r: Option<CwChessColor>)
        ensures
            r == self@.turn_color(),
    {
        match self.status {
            None => {
                if self.moves.len() % 2 == 0 {
                    Some(CwChessColor::White)
                } else {
                    Some(CwChessColor::Black)
                }
            },
            _ => None,
        }
    }

    /// The colour that offered a draw with the last move, if the last move
    /// offered one and the game is still played.
    pub fn draw_offered(&self) -> (r: Option<CwChessColor>)
        ensures
            r == self@.draw_offered(),
    {
        let n = self.moves.len();
        if n == 0 {
            return None;
        }
        match &self.moves[n - 1].1 {
            CwChessAction::OfferDraw(_) => {
                match self.turn_color() {
                    None => None,
                    Some(color) => Some(color.opposite()),
                }
            },
            _ => None,
        }
    }

    /// Plays the recorded moves again from the first position of a game and
    /// returns the position reached, or `InvalidPosition` if they cannot be
    /// played.
    pub fn load_game(&self) -> (r: Result<Board, ContractError>)
        ensures
            exists|start: Board|
                r == match #[trigger] position_after(start, self@.moves) {
                    Some(board) => Ok::<Board, ContractError>(board),
                    None => Err::<Board, ContractError>(ContractError::InvalidPosition),
                },
    {
        let start = start_board();
        let r = match replay(start, &self.moves) {
            Some(board) => Ok(board),
            None => Err(ContractError::InvalidPosition),
        };
        assert(r == match position_after(start, self@.moves) {
            Some(board) => Ok::<Board, ContractError>(board),
            None => Err::<Board, ContractError>(ContractError::InvalidPosition),
        });
        r
    }

    /// The first part of a submission: refuses it if the game is over, ends
    /// the game if a timeout has occurred, refuses it if it is not the
    /// player's turn. `Ok(None)` says that the action is now to be looked at.
    fn open_turn(&mut self, player: &String, height: u64) -> (r: Result<
        Option<CwChessGameOver>,
        ContractError,
    >)
        requires
            old(self)@.wf(),
            old(self)@.reaches(height),
        ensures
            old(self).status is Some ==> r == Err::<Option<CwChessGameOver>, ContractError>(
                ContractError::GameAlreadyOver,
            ) && *final(self) == *old(self),
            old(self).status is None && old(self)@.timeout_at(height) is Some ==> r == Ok::<
                Option<CwChessGameOver>,
                ContractError,
            >(old(self)@.timeout_at(height)) && *final(self) == (CwChessGame {
                status: old(self)@.timeout_at(height),
                ..*old(self)
            }),
            old(self).status is None && old(self)@.timeout_at(height) is None ==> *final(self)
                == *old(self) && r == if player@ != old(self)@.seat(old(self)@.color_to_move()) {
                Err::<Option<CwChessGameOver>, ContractError>(ContractError::NotYourTurn)
            } else {
                Ok::<Option<CwChessGameOver>, ContractError>(None)
            },
    {
        match self.check_timeout(height) {
            Err(e) => {
                return Err(e);
            },
            Ok(Some(over)) => {
                return Ok(Some(over));
            },
            Ok(None) => {},
        }
        let player_to_move = if self.moves.len() % 2 == 0 {
            &self.player1
        } else {
            &self.player2
        };
        if !(*player_to_move == *player) {
            return Err(ContractError::NotYourTurn);
        }
        Ok(None)
    }

    /// The second part of a submission, for the player whose turn it is:
    /// looks at the action and records it if it is accepted.
    fn act(&mut self, chess_move: CwChessMove, verdict: Verdict) -> (r: Result<
        Option<CwChessGameOver>,
        ContractError,
    >)
        requires
            old(self)@.wf(),
            old(self)@.reaches(chess_move.0),
            old(self).status is None,
            old(self)@.timeout_at(chess_move.0) is None,
        ensures
            (final(self)@, r) == step(
                old(self)@,
                old(self)@.seat(old(self)@.color_to_move()),
                chess_move.0,
                chess_move.1@,
                verdict,
            ),
            final(self)@.wf(),
            r is Err ==> *final(self) == *old(self),
    {
        let color = if self.moves.len() % 2 == 0 {
            CwChessColor::White
        } else {
            CwChessColor::Black
        };
        let outcome = match &chess_move.1 {
            CwChessAction::MakeMove(_) | CwChessAction::OfferDraw(_) => match verdict {
                Verdict::Corrupt => {
                    return Err(ContractError::InvalidPosition);
                },
                Verdict::Rejected => {
                    return Err(ContractError::InvalidMove);
                },
                Verdict::Continues => None,
                Verdict::Victory(CwChessColor::White) => Some(CwChessGameOver::WhiteCheckmates),
                Verdict::Victory(CwChessColor::Black) => Some(CwChessGameOver::BlackCheckmates),
                Verdict::Stalemate => Some(CwChessGameOver::Stalemate),
            },
            CwChessAction::AcceptDraw => match self.draw_offered() {
                Some(offered_by) => {
                    if offered_by == color {
                        return Err(ContractError::InvalidMove);
                    }
                    Some(CwChessGameOver::DrawAccepted)
                },
                None => {
                    return Err(ContractError::InvalidMove);
                },
            },
            CwChessAction::DeclareDraw => {
                return Err(ContractError::InvalidMove);
            },
            CwChessAction::Resign => match color {
                CwChessColor::White => Some(CwChessGameOver::WhiteResigns),
                CwChessColor::Black => Some(CwChessGameOver::BlackResigns),
            },
        };
        proof {
            lemma_moves_view_push(self.moves@, chess_move);
            lemma_wf_push(self@.moves, chess_move.0, chess_move.1@);
        }
        self.moves.push(chess_move);
        self.status = outcome;
        Ok(outcome)
    }

    /// Applies the action that `player` submits at the height of
    /// `chess_move`, given what the rules say of the move if the action plays
    /// one, and returns the outcome of the game after it.
    ///
    /// The game and the result are those of `step`. A refused action leaves
    /// the game as it is.
    pub fn apply_action(&mut self, player: &String, chess_move: CwChessMove, verdict: Verdict) -> (r:
        Result<Option<CwChessGameOver>, ContractError>)
        requires
            old(self)@.wf(),
            old(self)@.reaches(chess_move.0),
        ensures
            (final(self)@, r) == step(
                old(self)@,
                player@,
                chess_move.0,
                chess_move.1@,
                verdict,
            ),
            final(self)@.wf(),
            r is Err ==> *final(self) == *old(self),
    {
        match self.open_turn(player, chess_move.0) {
            Ok(None) => self.act(chess_move, verdict),
            other => other,
        }
    }

    /// Applies the action that `player` submits at the height of
    /// `chess_move`, asking the rules about the move if the action plays one,
    /// and returns the outcome of the game after it.
    ///
    /// The game and the result are those of `make_move_from`, for the
    /// position at which the rules let every game start. A refused action
    /// leaves the game as it is.
    pub fn make_move(&mut self, player: &String, chess_move: CwChessMove) -> (r: Result<
        Option<CwChessGameOver>,
        ContractError,
    >)
        requires
            old(self)@.wf(),
            old(self)@.reaches(chess_move.0),
        ensures
            exists|start: Board|
                (final(self)@, r) == #[trigger] make_move_from(
                    start,
                    old(self)@,
                    player@,
                    chess_move.0,
                    chess_move.1@,
                ),
            final(self)@.wf(),
            r is Err ==> *final(self) == *old(self),
    {
        let start = start_board();
        let r = match self.open_turn(player, chess_move.0) {
            Ok(None) => {
                let verdict = match &chess_move.1 {
                    CwChessAction::MakeMove(text) => judge(start, &self.moves, text.as_str()),
                    CwChessAction::OfferDraw(text) => judge(start, &self.moves, text.as_str()),
                    _ => Verdict::Rejected,
                };
                self.act(chess_move, verdict)
            },
            other => other,
        };
        assert((self@, r) == make_move_from(
            start,
            old(self)@,
            player@,
            chess_move.0,
            chess_move.1@,
        ));
        r
    }
}

} // verus!
