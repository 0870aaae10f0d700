//! The challenges and the games as they are stored, the actions on them and
//! the questions about them.

use vstd::prelude::*;
use chess_engine::Board;
use crate::cwchess::{make_move_from, ActionView, CwChessAction, CwChessColor, CwChessGame};
use crate::error::ContractError;
use crate::merge::{ascending_by, merge_by};
use crate::msg::{
    ExecuteMsg, GameSummary, InstantiateMsg, QueryMsg, QueryResponse, Response, SummaryView,
};
use crate::paging::{
    first_items, is_after, items_of, key_of, key_order, lemma_kept_ascending, lemma_kept_contains,
    lemma_list_ascends, lemma_scan_from_start, listed, scan_after,
};
use crate::state::{id_after, open_key, open_key_text, Challenge, Indexed, Keyed, State};
use crate::store::{is_indexed, Index, IndexedMap, Store, StoreView};

pub use crate::actions::{
    accept_refusal, execute_accept_challenge, execute_cancel_challenge, execute_create_challenge,
    execute_declare_timeout, execute_turn, game_from,
};
pub use crate::queries::{
    is_shown, list_games, listed_games, query_get_challenges, query_get_games,
    query_get_open_challenges, query_get_player_games, summaries, summaries_view,
    ALL_GAMES_LIMIT, PAGE_LIMIT,
};

verus! {

/// What a turn in the game `game` does to what is stored, and what it
/// reports, for a game that began at the position `start`: a refused action
/// changes nothing; an accepted one puts the game after the action in the
/// place of the game, and reports its outcome or whose turn it is.
pub open spec fn turned(
    start: Board,
    before: StoreView,
    game: CwChessGame,
    sender: Seq<char>,
    height: u64,
    action: ActionView,
    after: StoreView,
    r: Result<Response, ContractError>,
) -> bool {
    let submitted = make_move_from(start, game@, sender, height, action);
    match submitted.1 {
        Err(e) => r == Err::<Response, ContractError>(e) && after == before,
        Ok(status) => {
            &&& r == Ok::<Response, ContractError>(
                Response::Turn {
                    game_id: game.game_id,
                    status,
                    turn_color: submitted.0.turn_color(),
                },
            )
            &&& after.games.dom().contains(game.game_id)
            &&& after.games[game.game_id]@ == submitted.0
            &&& after == (StoreView {
                games: before.games.insert(game.game_id, after.games[game.game_id]),
                ..before
            })
        },
    }
}

/// What creating a challenge does to what is stored, and what it reports:
/// it fails with `CannotPlaySelf` and changes nothing if the opponent named
/// is the sender; else the challenge stands under the next id, which is the
/// last one given out from then on.
pub open spec fn created(
    before: StoreView,
    height: u64,
    sender: String,
    block_limit: Option<u64>,
    opponent: Option<String>,
    play_as: Option<CwChessColor>,
    after: StoreView,
    r: Result<Response, ContractError>,
) -> bool {
    let challenge_id = id_after(before.challenge_id) as u64;
    if opponent is Some && opponent.unwrap()@ == sender@ {
        r == Err::<Response, ContractError>(ContractError::CannotPlaySelf) && after == before
    } else {
        &&& r == Ok::<Response, ContractError>(
            Response::CreateChallenge { challenge_id, created_by: sender },
        )
        &&& after == (StoreView {
            challenge_id: Some(challenge_id),
            challenges: before.challenges.insert(
                challenge_id,
                Challenge {
                    block_created: height,
                    block_limit,
                    challenge_id,
                    created_by: sender,
                    play_as,
                    opponent,
                },
            ),
            ..before
        })
    }
}

/// What accepting a challenge does to what is stored, and what it reports:
/// it fails and changes nothing if there is no challenge under the id or
/// the sender cannot accept it; else the game that begins stands under the
/// next id, which is the last one given out from then on, and the challenge
/// is gone.
pub open spec fn accepted(
    before: StoreView,
    height: u64,
    sender: Seq<char>,
    challenge_id: u64,
    after: StoreView,
    r: Result<Response, ContractError>,
) -> bool {
    let game_id = id_after(before.game_id) as u64;
    if !before.challenges.dom().contains(challenge_id) {
        r == Err::<Response, ContractError>(ContractError::ChallengeNotFound) && after == before
    } else if accept_refusal(before.challenges[challenge_id]@, sender) is Some {
        r == Err::<Response, ContractError>(
            accept_refusal(before.challenges[challenge_id]@, sender).unwrap(),
        ) && after == before
    } else {
        &&& after.games.dom().contains(game_id)
        &&& after.games[game_id]@ == game_from(
            before.challenges[challenge_id]@,
            sender,
            game_id,
            height,
        )
        &&& after == (StoreView {
            game_id: Some(game_id),
            challenges: before.challenges.remove(challenge_id),
            games: before.games.insert(game_id, after.games[game_id]),
            ..before
        })
        &&& r == Ok::<Response, ContractError>(
            Response::AcceptChallenge {
                challenge_id,
                game_id,
                player1: after.games[game_id].player1,
                player2: after.games[game_id].player2,
            },
        )
    }
}

/// What withdrawing a challenge does to what is stored, and what it
/// reports: it fails and changes nothing if there is no challenge under the
/// id or the sender did not create it; else the challenge is gone.
pub open spec fn cancelled(
    before: StoreView,
    sender: Seq<char>,
    challenge_id: u64,
    after: StoreView,
    r: Result<Response, ContractError>,
) -> bool {
    if !before.challenges.dom().contains(challenge_id) {
        r == Err::<Response, ContractError>(ContractError::ChallengeNotFound) && after == before
    } else if before.challenges[challenge_id].created_by@ != sender {
        r == Err::<Response, ContractError>(ContractError::NotYourChallenge) && after == before
    } else {
        &&& r == Ok::<Response, ContractError>(Response::CancelChallenge { challenge_id })
        &&& after == (StoreView {
            challenges: before.challenges.remove(challenge_id),
            ..before
        })
    }
}

/// What declaring a timeout does to what is stored, and what it reports: it
/// fails and changes nothing if there is no game under the id, if the game
/// is over, or if no timeout has occurred; else the game is over by the
/// timeout.
pub open spec fn timed_out(
    before: StoreView,
    height: u64,
    game_id: u64,
    after: StoreView,
    r: Result<Response, ContractError>,
) -> bool {
    if !before.games.dom().contains(game_id) {
        r == Err::<Response, ContractError>(ContractError::GameNotFound) && after == before
    } else {
        let game = before.games[game_id];
        if game.status is Some {
            r == Err::<Response, ContractError>(ContractError::GameAlreadyOver) && after == before
        } else if game@.timeout_at(height) is None {
            r == Err::<Response, ContractError>(ContractError::GameNotTimedOut) && after == before
        } else {
            &&& r == Ok::<Response, ContractError>(
                Response::DeclareTimeout { game_id, status: game@.timeout_at(height).unwrap() },
            )
            &&& after == (StoreView {
                games: before.games.insert(
                    game_id,
                    CwChessGame { status: game@.timeout_at(height), ..game },
                ),
                ..before
            })
        }
    }
}

/// What a turn does to what is stored, and what it reports: it fails with
/// `GameNotFound` and changes nothing if there is no game under the id;
/// else it does what `turned` says, for the position at which the rules let
/// every game start.
pub open spec fn turn_taken(
    before: StoreView,
    height: u64,
    sender: Seq<char>,
    action: ActionView,
    game_id: u64,
    after: StoreView,
    r: Result<Response, ContractError>,
) -> bool {
    if !before.games.dom().contains(game_id) {
        r == Err::<Response, ContractError>(ContractError::GameNotFound) && after == before
    } else {
        exists|start: Board| #[trigger]
            turned(start, before, before.games[game_id], sender, height, action, after, r)
    }
}

/// Sets up what is stored, for the sender as its owner: no challenge, no
/// game, no id given out.
pub fn instantiate(sender: String, _msg: InstantiateMsg) -> (r: (Store, Response))
    ensures
        r.0.wf(),
        r.0@ == (StoreView {
            owner: sender@,
            challenge_id: None,
            game_id: None,
            challenges: Map::empty(),
            games: Map::empty(),
        }),
        r.1 == (Response::Instantiate { owner: sender }),
{
    let owner = sender.clone();
    let store = Store {
        state: State { owner: sender },
        challenge_id: None,
        game_id: None,
        challenges: IndexedMap::new(),
        games: IndexedMap::new(),
    };
    (store, Response::Instantiate { owner })
}

impl Store {
    /// Creates a challenge by the sender at `height` and stores it under
    /// the next id.
    ///
    /// It fails with `CannotPlaySelf` if and only if the opponent named is
    /// the sender; then nothing changes.
    pub fn create_challenge(
        &mut self,
        height: u64,
        sender: String,
        block_limit: Option<u64>,
        opponent: Option<String>,
        play_as: Option<CwChessColor>,
    ) -> (r: Result<Response, ContractError>)
        requires
            old(self).wf(),
            id_after(old(self).challenge_id) <= u64::MAX,
        ensures
            final(self).wf(),
            created(old(self)@, height, sender, block_limit, opponent, play_as, final(self)@, r),
    {
        let created_by = sender.clone();
        match execute_create_challenge(
            self.challenge_id,
            height,
            sender,
            block_limit,
            opponent,
            play_as,
        ) {
            Err(e) => Err(e),
            Ok(challenge) => {
                let challenge_id = challenge.challenge_id;
                self.challenge_id = Some(challenge_id);
                self.challenges.save(challenge);
                Ok(Response::CreateChallenge { challenge_id, created_by })
            },
        }
    }

    /// Accepts the challenge under the id for the sender at `height`: the
    /// game that begins is stored under the next id, and the challenge is
    /// removed.
    ///
    /// It fails with `ChallengeNotFound` if there is no such challenge,
    /// else with `CannotPlaySelf` if the sender created it, else with
    /// `NotYourChallenge` if it names another opponent; then nothing changes.
    pub fn accept_challenge(&mut self, height: u64, sender: String, challenge_id: u64) -> (r: Result<
        Response,
        ContractError,
    >)
        requires
            old(self).wf(),
            id_after(old(self).game_id) <= u64::MAX,
        ensures
            final(self).wf(),
            accepted(old(self)@, height, sender@, challenge_id, final(self)@, r),
    {
        let accepted = execute_accept_challenge(
            self.challenges.load(challenge_id),
            sender,
            self.game_id,
            height,
        );
        match accepted {
            Err(e) => Err(e),
            Ok(game) => {
                let game_id = game.game_id;
                let player1 = game.player1.clone();
                let player2 = game.player2.clone();
                self.game_id = Some(game_id);
                self.games.save(game);
                self.challenges.remove(challenge_id);
                Ok(Response::AcceptChallenge { challenge_id, game_id, player1, player2 })
            },
        }
    }

    /// Withdraws the challenge under the id for the sender: the challenge
    /// is removed.
    ///
    /// It fails with `ChallengeNotFound` if there is no such challenge,
    /// else with `NotYourChallenge` if the sender did not create it; then
    /// nothing changes.
    pub fn cancel_challenge(&mut self, sender: &String, challenge_id: u64) -> (r: Result<
        Response,
        ContractError,
    >)
        requires
            old(self).wf(),
        ensures
            final(self).wf(),
            cancelled(old(self)@, sender@, challenge_id, final(self)@, r),
    {
        match execute_cancel_challenge(self.challenges.load(challenge_id), sender) {
            Err(e) => Err(e),
            Ok(id) => {
                self.challenges.remove(id);
                Ok(Response::CancelChallenge { challenge_id })
            },
        }
    }

    /// Ends the game under the id by the timeout that has occurred at
    /// `height`.
    ///
    /// It fails with `GameNotFound` if there is no such game, else with
    /// `GameAlreadyOver` if the game has an outcome, else with
    /// `GameNotTimedOut` if no player has used more blocks than the limit
    /// allows; then nothing changes.
    pub fn declare_timeout(&mut self, height: u64, game_id: u64) -> (r: Result<
        Response,
        ContractError,
    >)
        requires
            old(self).wf(),
            old(self).reaches(game_id, height),
        ensures
            final(self).wf(),
            timed_out(old(self)@, height, game_id, final(self)@, r),
    {
        match self.games.remove(game_id) {
            None => {
                assert(self.games@ =~= old(self).games@);
                Err(ContractError::GameNotFound)
            },
            Some(mut game) => {
                let checked = game.check_timeout(height);
                self.games.save(game);
                proof {
                    if !(checked is Ok && checked.unwrap() is Some) {
                        assert(self.games@ =~= old(self).games@);
                    }
                    assert(self.games@ =~= old(self).games@.insert(game_id, game));
                }
                match checked {
                    Err(e) => Err(e),
                    Ok(None) => Err(ContractError::GameNotTimedOut),
                    Ok(Some(status)) => Ok(Response::DeclareTimeout { game_id, status }),
                }
            },
        }
    }

    /// Submits the action of the sender at `height` in the game under the
    /// id.
    ///
    /// It fails with `GameNotFound` if there is no such game, else as
    /// `make_move` does; then nothing changes. Else the game is the one
    /// after `make_move`.
    pub fn turn(&mut self, height: u64, sender: &String, action: CwChessAction, game_id: u64) -> (r:
        Result<Response, ContractError>)
        requires
            old(self).wf(),
            old(self).reaches(game_id, height),
        ensures
            final(self).wf(),
            turn_taken(old(self)@, height, sender@, action@, game_id, final(self)@, r),
            r is Err ==> final(self)@ == old(self)@,
    {
        match self.games.remove(game_id) {
            None => {
                assert(self.games@ =~= old(self).games@);
                Err(ContractError::GameNotFound)
            },
            Some(mut game) => {
                let ghost before = game;
                let ghost action_view = action@;
                let submitted = game.make_move(sender, (height, action));
                let turn_color = game.turn_color();
                self.games.save(game);
                let r = match submitted {
                    Err(e) => Err(e),
                    Ok(status) => Ok(Response::Turn { game_id, status, turn_color }),
                };
                proof {
                    let start = choose|start: Board|
                        (game@, submitted) == #[trigger] make_move_from(
                            start,
                            before@,
                            sender@,
                            height,
                            action_view,
                        );
                    if submitted is Err {
                        assert(self.games@ =~= old(self).games@);
                    }
                    assert(self.games@ =~= old(self).games@.insert(game_id, game));
                    assert(turned(
                        start,
                        old(self)@,
                        before,
                        sender@,
                        height,
                        action_view,
                        self@,
                        r,
                    ));
                }
                r
            },
        }
    }
}

/// The scan of an index of a collection under a key.
pub open spec fn index_scan<T: Indexed>(entries: Seq<T>, index: Index, key: Seq<char>) -> Seq<T> {
    entries.filter(is_indexed::<T>(index, key, None))
}

/// One page of challenges: of those that a player created or was sent, or,
/// with no player given, of the open ones; behind `after`, in the order of
/// their ids.
pub open spec fn challenges_listed(
    entries: Seq<Challenge>,
    after: Option<u64>,
    player: Option<Seq<char>>,
) -> Seq<Challenge> {
    match player {
        None => first_items(
            scan_after(index_scan(entries, Index::Second, open_key()), after),
            PAGE_LIMIT as nat,
        ),
        Some(player) => listed(
            index_scan(entries, Index::First, player),
            index_scan(entries, Index::Second, player),
            after,
            PAGE_LIMIT,
        ),
    }
}

/// One page of games, summed up: of those of a player, or, with no player
/// given, of all; behind `after`, in the order of their ids, without the
/// games that are over unless they are asked for.
pub open spec fn games_listed(
    entries: Seq<CwChessGame>,
    after: Option<u64>,
    game_over: Option<bool>,
    player: Option<Seq<char>>,
) -> Seq<SummaryView> {
    match player {
        None => summaries(
            first_items(
                scan_after(entries, after).filter(is_shown(game_over == Some(true))),
                ALL_GAMES_LIMIT as nat,
            ),
        ),
        Some(player) => listed_games(
            index_scan(entries, Index::First, player),
            index_scan(entries, Index::Second, player),
            after,
            game_over == Some(true),
            PAGE_LIMIT,
        ),
    }
}

/// The view of the player that a question names, if it names one.
pub open spec fn player_view(player: Option<&String>) -> Option<Seq<char>> {
    match player {
        Some(player) => Some(player@),
        None => None,
    }
}

impl Store {
    /// The challenge under the id, or `ChallengeNotFound`.
    pub fn get_challenge(&self, challenge_id: u64) -> (r: Result<&Challenge, ContractError>)
        requires
            self.wf(),
        ensures
            r == if self@.challenges.dom().contains(challenge_id) {
                Ok::<&Challenge, ContractError>(&self@.challenges[challenge_id])
            } else {
                Err::<&Challenge, ContractError>(ContractError::ChallengeNotFound)
            },
    {
        match self.challenges.load(challenge_id) {
            Some(challenge) => Ok(challenge),
            None => Err(ContractError::ChallengeNotFound),
        }
    }

    /// The game under the id, or `GameNotFound`.
    pub fn get_game(&self, game_id: u64) -> (r: Result<&CwChessGame, ContractError>)
        requires
            self.wf(),
        ensures
            r == if self@.games.dom().contains(game_id) {
                Ok::<&CwChessGame, ContractError>(&self@.games[game_id])
            } else {
                Err::<&CwChessGame, ContractError>(ContractError::GameNotFound)
            },
    {
        match self.games.load(game_id) {
            Some(game) => Ok(game),
            None => Err(ContractError::GameNotFound),
        }
    }

    /// One page of the challenges that `player` created or was sent, or,
    /// with no player given, of the open challenges.
    pub fn get_challenges<'a>(&'a self, after: Option<u64>, player: Option<&String>) -> (page: Vec<
        &'a Challenge,
    >)
        ensures
            items_of(page@) == challenges_listed(
                self.challenges.entries(),
                after,
                player_view(player),
            ),
    {
        match player {
            None => {
                let open = self.challenges.prefix(Index::Second, &open_key_text(), None);
                query_get_open_challenges(open, after)
            },
            Some(addr) => {
                let created_by = self.challenges.prefix(Index::First, addr, None);
                let opponent = self.challenges.prefix(Index::Second, addr, None);
                query_get_challenges(created_by, opponent, after)
            },
        }
    }

    /// One page of the games of `player`, or, with no player given, of all
    /// games, summed up.
    pub fn get_games(&self, after: Option<u64>, game_over: Option<bool>, player: Option<&String>) -> (page:
        Vec<GameSummary>)
        ensures
            summaries_view(page@) == games_listed(
                self.games.entries(),
                after,
                game_over,
                player_view(player),
            ),
    {
        match player {
            None => {
                let all_games = self.games.range(None);
                proof {
                    lemma_scan_from_start(self.games.entries());
                }
                query_get_games(all_games, after, game_over)
            },
            Some(addr) => {
                let player1 = self.games.prefix(Index::First, addr, None);
                let player2 = self.games.prefix(Index::Second, addr, None);
                query_get_player_games(player1, player2, after, game_over)
            },
        }
    }
}

/// The two scans of a player's key share no id, where no item stands in
/// both indexes under one key.
pub proof fn lemma_index_scans_share_nothing<T: Indexed>(entries: Seq<T>, key: Seq<char>)
    requires
        ascending_by(entries, key_of::<T>()),
        forall|i: int|
            0 <= i < entries.len() ==> !((#[trigger] entries[i]).first_key() == key
                && entries[i].second_key() == key),
    ensures
        ascending_by(index_scan(entries, Index::First, key), key_of::<T>()),
        ascending_by(index_scan(entries, Index::Second, key), key_of::<T>()),
        forall|i: int, j: int|
            0 <= i < index_scan(entries, Index::First, key).len() && 0 <= j < index_scan(
                entries,
                Index::Second,
                key,
            ).len() ==> index_scan(entries, Index::First, key)[i].key() != index_scan(
                entries,
                Index::Second,
                key,
            )[j].key(),
{
    let in_first = is_indexed::<T>(Index::First, key, None);
    let in_second = is_indexed::<T>(Index::Second, key, None);
    let a = entries.filter(in_first);
    let b = entries.filter(in_second);
    lemma_kept_ascending(entries, in_first);
    lemma_kept_ascending(entries, in_second);
    assert forall|i: int, j: int| 0 <= i < a.len() && 0 <= j < b.len() implies a[i].key()
        != b[j].key() by {
        lemma_kept_contains(entries, in_first, a[i]);
        lemma_kept_contains(entries, in_second, b[j]);
    }
}

/// The challenges on a page come in the order of their ids, and none comes
/// twice: those of a player, unless the player goes by the key that is
/// reserved for the open challenges, and the open ones.
pub proof fn lemma_challenge_pages_ascend(store: Store, after: Option<u64>, player: Option<Seq<char>>)
    requires
        store.wf(),
        player != Some(open_key()),
    ensures
        ascending_by(
            challenges_listed(store.challenges.entries(), after, player),
            key_of::<Challenge>(),
        ),
{
    let entries = store.challenges.entries();
    match player {
        None => {
            let open = index_scan(entries, Index::Second, open_key());
            lemma_kept_ascending(
                entries,
                is_indexed::<Challenge>(Index::Second, open_key(), None),
            );
            lemma_kept_ascending(open, is_after::<Challenge>(after));
        },
        Some(name) => {
            assert forall|i: int| 0 <= i < entries.len() implies !((#[trigger] entries[i]).first_key()
                == name && entries[i].second_key() == name) by {
                store.challenges.lemma_entry(i);
            }
            lemma_index_scans_share_nothing(entries, name);
            lemma_list_ascends(
                index_scan(entries, Index::First, name),
                index_scan(entries, Index::Second, name),
                after,
                PAGE_LIMIT,
            );
        },
    }
}

/// The games on a page come in the order of their ids, and none comes
/// twice.
pub proof fn lemma_game_pages_ascend(
    store: Store,
    after: Option<u64>,
    game_over: Option<bool>,
    player: Option<Seq<char>>,
)
    requires
        store.wf(),
    ensures
        forall|i: int, j: int|
            0 <= i < j < games_listed(store.games.entries(), after, game_over, player).len()
                ==> games_listed(store.games.entries(), after, game_over, player)[i].game_id
                < games_listed(store.games.entries(), after, game_over, player)[j].game_id,
{
    let entries = store.games.entries();
    let shown = is_shown(game_over == Some(true));
    let merged = match player {
        None => scan_after(entries, after),
        Some(name) => merge_by(
            scan_after(index_scan(entries, Index::First, name), after),
            scan_after(index_scan(entries, Index::Second, name), after),
            key_order::<CwChessGame>(),
        ),
    };
    let limit = match player {
        None => ALL_GAMES_LIMIT,
        Some(_) => PAGE_LIMIT,
    };
    match player {
        None => {
            lemma_kept_ascending(entries, is_after::<CwChessGame>(after));
        },
        Some(name) => {
            assert forall|i: int| 0 <= i < entries.len() implies !((#[trigger] entries[i]).first_key()
                == name && entries[i].second_key() == name) by {
                store.games.lemma_entry(i);
            }
            lemma_index_scans_share_nothing(entries, name);
            lemma_list_ascends(
                index_scan(entries, Index::First, name),
                index_scan(entries, Index::Second, name),
                after,
                PAGE_LIMIT,
            );
        },
    }
    lemma_kept_ascending(merged, shown);
    let page = games_listed(entries, after, game_over, player);
    assert forall|i: int, j: int| 0 <= i < j < page.len() implies page[i].game_id
        < page[j].game_id by {}
}

/// An id is given out once: the id that the next challenge gets is the id
/// of no challenge that is stored, and the id that the next game gets is the
/// id of no game that is stored.
pub proof fn lemma_next_ids_are_fresh(store: Store)
    requires
        store.wf(),
    ensures
        id_after(store.challenge_id) <= u64::MAX ==> !store@.challenges.dom().contains(
            id_after(store.challenge_id) as u64,
        ),
        id_after(store.game_id) <= u64::MAX ==> !store@.games.dom().contains(
            id_after(store.game_id) as u64,
        ),
{
}

/// The answer to a question about what is stored.
pub open spec fn answered(store: Store, msg: QueryMsg, r: Result<QueryResponse, ContractError>) -> bool {
    match msg {
        QueryMsg::GetChallenge { challenge_id } => r == if store@.challenges.dom().contains(
            challenge_id,
        ) {
            Ok::<QueryResponse, ContractError>(
                QueryResponse::Challenge(&store@.challenges[challenge_id]),
            )
        } else {
            Err::<QueryResponse, ContractError>(ContractError::ChallengeNotFound)
        },
        QueryMsg::GetGame { game_id } => r == if store@.games.dom().contains(game_id) {
            Ok::<QueryResponse, ContractError>(QueryResponse::Game(&store@.games[game_id]))
        } else {
            Err::<QueryResponse, ContractError>(ContractError::GameNotFound)
        },
        QueryMsg::GetChallenges { after, player } => r is Ok && r.unwrap() is Challenges
            && items_of(r.unwrap()->Challenges_0@) == challenges_listed(
            store.challenges.entries(),
            after,
            match player {
                Some(player) => Some(player@),
                None => None,
            },
        ),
        QueryMsg::GetGames { after, game_over, player } => r is Ok && r.unwrap() is Games
            && summaries_view(r.unwrap()->Games_0@) == games_listed(
            store.games.entries(),
            after,
            game_over,
            match player {
                Some(player) => Some(player@),
                None => None,
            },
        ),
    }
}

/// Answers a question about what is stored.
pub fn query<'a>(store: &'a Store, msg: QueryMsg) -> (r: Result<QueryResponse<'a>, ContractError>)
    requires
        store.wf(),
    ensures
        answered(*store, msg, r),
{
    match msg {
        QueryMsg::GetGame { game_id } => match store.get_game(game_id) {
            Ok(game) => Ok(QueryResponse::Game(game)),
            Err(e) => Err(e),
        },
        QueryMsg::GetChallenge { challenge_id } => match store.get_challenge(challenge_id) {
            Ok(challenge) => Ok(QueryResponse::Challenge(challenge)),
            Err(e) => Err(e),
        },
        QueryMsg::GetChallenges { after, player } => Ok(
            QueryResponse::Challenges(store.get_challenges(after, player.as_ref())),
        ),
        QueryMsg::GetGames { after, game_over, player } => Ok(
            QueryResponse::Games(store.get_games(after, game_over, player.as_ref())),
        ),
    }
}

/// What an action needs: an id that can still be given out where it
/// creates a challenge or a game, and a height that is not lower than that
/// of the last move where it looks at the clock of a game.
pub open spec fn admits(store: Store, height: u64, msg: ExecuteMsg) -> bool {
    match msg {
        ExecuteMsg::CreateChallenge { .. } => id_after(store.challenge_id) <= u64::MAX,
        ExecuteMsg::AcceptChallenge { .. } => id_after(store.game_id) <= u64::MAX,
        ExecuteMsg::CancelChallenge { .. } => true,
        ExecuteMsg::DeclareTimeout { game_id } => store.reaches(game_id, height),
        ExecuteMsg::Turn { game_id, .. } => store.reaches(game_id, height),
    }
}

impl Store {
    /// Says whether what is stored admits the action at `height`: whether
    /// `execute` can be called with them.
    pub fn can_execute(&self, height: u64, msg: &ExecuteMsg) -> (r: bool)
        requires
            self.wf(),
        ensures
            r == admits(*self, height, *msg),
    {
        match msg {
            ExecuteMsg::CreateChallenge { .. } => match self.challenge_id {
                Some(id) => id < u64::MAX,
                None => true,
            },
            ExecuteMsg::AcceptChallenge { .. } => match self.game_id {
                Some(id) => id < u64::MAX,
                None => true,
            },
            ExecuteMsg::CancelChallenge { .. } => true,
            ExecuteMsg::DeclareTimeout { game_id } => match self.games.load(*game_id) {
                Some(game) => game.is_in_order_up_to(height),
                None => true,
            },
            ExecuteMsg::Turn { game_id, .. } => match self.games.load(*game_id) {
                Some(game) => game.is_in_order_up_to(height),
                None => true,
            },
        }
    }
}

/// What an action of the sender at `height` does to what is stored, and
/// what it reports.
pub open spec fn executed(
    before: StoreView,
    height: u64,
    sender: String,
    msg: ExecuteMsg,
    after: StoreView,
    r: Result<Response, ContractError>,
) -> bool {
    match msg {
        ExecuteMsg::CreateChallenge { block_limit, opponent, play_as } => created(
            before,
            height,
            sender,
            block_limit,
            opponent,
            play_as,
            after,
            r,
        ),
        ExecuteMsg::AcceptChallenge { challenge_id } => accepted(
            before,
            height,
            sender@,
            challenge_id,
            after,
            r,
        ),
        ExecuteMsg::CancelChallenge { challenge_id } => cancelled(
            before,
            sender@,
            challenge_id,
            after,
            r,
        ),
        ExecuteMsg::DeclareTimeout { game_id } => timed_out(before, height, game_id, after, r),
        ExecuteMsg::Turn { game_id, action } => turn_taken(
            before,
            height,
            sender@,
            action@,
            game_id,
            after,
            r,
        ),
    }
}

/// Carries out an action of the sender at `height` on what is stored. A
/// refused action changes nothing.
pub fn execute(store: &mut Store, height: u64, sender: String, msg: ExecuteMsg) -> (r: Result<
    Response,
    ContractError,
>)
    requires
        old(store).wf(),
        admits(*old(store), height, msg),
    ensures
        final(store).wf(),
        executed(old(store)@, height, sender, msg, final(store)@, r),
        r is Err ==> final(store)@ == old(store)@,
{
    match msg {
        ExecuteMsg::AcceptChallenge { challenge_id } => store.accept_challenge(
            height,
            sender,
            challenge_id,
        ),
        ExecuteMsg::CancelChallenge { challenge_id } => store.cancel_challenge(
            &sender,
            challenge_id,
        ),
        ExecuteMsg::CreateChallenge { block_limit, opponent, play_as } => store.create_challenge(
            height,
            sender,
            block_limit,
            opponent,
            play_as,
        ),
        ExecuteMsg::DeclareTimeout { game_id } => store.declare_timeout(height, game_id),
        ExecuteMsg::Turn { action, game_id } => store.turn(height, &sender, action, game_id),
    }
}

} // verus!
