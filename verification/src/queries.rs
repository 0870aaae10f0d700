//! Pages of challenges and of games, in the order of their ids, from the
//! scans of two indexes.

use vstd::prelude::*;
use crate::cwchess::CwChessGame;
use crate::merge::{ascending_by, decides, lemma_merge_contains, merge_by, ordered_by, IterMerge};
use crate::msg::{summary_of, GameSummary, SummaryView};
use crate::paging::{
    comes_first, first_items, is_after, items_of, key_of, key_order, lemma_all_kept,
    lemma_items_of_filter, lemma_items_of_listed, lemma_items_of_merge, lemma_kept_ascending,
    lemma_kept_contains, lemma_merge_of_kept, lemma_merge_of_prefixes, list, listed, queue_after,
    scan_after,
};
use crate::state::Challenge;

verus! {

/// The number of items on a page of challenges, and of a player's games.
pub const PAGE_LIMIT: u32 = 25;

/// The number of items on a page of all games.
pub const ALL_GAMES_LIMIT: u32 = 100;

/// The challenges that a player created or was sent: one page of them, in
/// the order of their ids, from the scan of the index by creator and the
/// scan of the index by opponent under the player's key.
pub fn query_get_challenges<'a>(
    created_by_scan: Vec<&'a Challenge>,
    opponent_scan: Vec<&'a Challenge>,
    after: Option<u64>,
) -> (page: Vec<&'a Challenge>)
    ensures
        items_of(page@) == listed(
            items_of(created_by_scan@),
            items_of(opponent_scan@),
            after,
            PAGE_LIMIT,
        ),
{
    proof {
        lemma_items_of_listed(created_by_scan@, opponent_scan@, after, PAGE_LIMIT);
    }
    list(created_by_scan, opponent_scan, after, PAGE_LIMIT)
}

/// The open challenges: one page of them, in the order of their ids, from
/// the scan of the index by opponent under the key of the open challenges.
pub fn query_get_open_challenges<'a>(open_scan: Vec<&'a Challenge>, after: Option<u64>) -> (page:
    Vec<&'a Challenge>)
    ensures
        items_of(page@) == first_items(scan_after(items_of(open_scan@), after), PAGE_LIMIT as nat),
{
    let ghost none = Seq::<&'a Challenge>::empty();
    proof {
        lemma_items_of_listed(open_scan@, none, after, PAGE_LIMIT);
    }
    list(open_scan, Vec::new(), after, PAGE_LIMIT)
}

/// Whether a game is listed: a game that is played always, a game that is
/// over only when games that are over were asked for.
pub open spec fn is_shown(game_over: bool) -> spec_fn(CwChessGame) -> bool {
    |game: CwChessGame| game_over || game.status is None
}

impl CwChessGame {
    /// Says whether the game is listed when games that are over are asked
    /// for, or are not.
    pub fn is_listed(&self, game_over: bool) -> (r: bool)
        ensures
            r == is_shown(game_over)(*self),
    {
        game_over || self.status.is_none()
    }
}

/// The summaries of some games, in their order.
pub open spec fn summaries(games: Seq<CwChessGame>) -> Seq<SummaryView> {
    games.map_values(|game: CwChessGame| summary_of(game@))
}

/// The page of summaries as mathematical values.
pub open spec fn summaries_view(page: Seq<GameSummary>) -> Seq<SummaryView> {
    page.map_values(|summary: GameSummary| summary@)
}

/// One page of the games of two scans: those behind `after`, merged in the
/// order of their ids; of these the ones that are shown; of these the first
/// `limit`, summed up.
pub open spec fn listed_games(
    index_a_scan: Seq<CwChessGame>,
    index_b_scan: Seq<CwChessGame>,
    after: Option<u64>,
    game_over: bool,
    limit: u32,
) -> Seq<SummaryView> {
    summaries(
        first_items(
            merge_by(
                scan_after(index_a_scan, after),
                scan_after(index_b_scan, after),
                key_order::<CwChessGame>(),
            ).filter(is_shown(game_over)),
            limit as nat,
        ),
    )
}

/// A page of games needs no scan beyond the first `limit` games that lie
/// behind `after` and are shown: given two scans with ascending ids, the
/// page made from these is the page made from the whole scans.
pub proof fn lemma_games_page_needs_only_prefixes(
    index_a_scan: Seq<CwChessGame>,
    index_b_scan: Seq<CwChessGame>,
    after: Option<u64>,
    game_over: bool,
    limit: u32,
)
    requires
        ascending_by(index_a_scan, key_of::<CwChessGame>()),
        ascending_by(index_b_scan, key_of::<CwChessGame>()),
    ensures
        listed_games(
            first_items(scan_after(index_a_scan, after).filter(is_shown(game_over)), limit as nat),
            first_items(scan_after(index_b_scan, after).filter(is_shown(game_over)), limit as nat),
            after,
            game_over,
            limit,
        ) == listed_games(index_a_scan, index_b_scan, after, game_over, limit),
{
    let behind = is_after::<CwChessGame>(after);
    let shown = is_shown(game_over);
    let key = key_of::<CwChessGame>();
    let order = key_order::<CwChessGame>();
    let a = scan_after(index_a_scan, after);
    let b = scan_after(index_b_scan, after);
    let short_a = first_items(a.filter(shown), limit as nat);
    let short_b = first_items(b.filter(shown), limit as nat);
    assert forall|i: int| 0 <= i < short_a.len() implies behind(#[trigger] short_a[i]) && shown(
        short_a[i],
    ) by {
        let game = a.filter(shown)[i];
        lemma_kept_contains(a, shown, game);
        lemma_kept_contains(index_a_scan, behind, game);
    }
    assert forall|i: int| 0 <= i < short_b.len() implies behind(#[trigger] short_b[i]) && shown(
        short_b[i],
    ) by {
        let game = b.filter(shown)[i];
        lemma_kept_contains(b, shown, game);
        lemma_kept_contains(index_b_scan, behind, game);
    }
    lemma_all_kept(short_a, behind);
    lemma_all_kept(short_b, behind);
    let short = merge_by(short_a, short_b, order);
    assert forall|i: int| 0 <= i < short.len() implies shown(#[trigger] short[i]) by {
        lemma_merge_contains(short_a, short_b, order, short[i]);
    }
    lemma_all_kept(short, shown);
    lemma_merge_of_prefixes(
        a.filter(shown),
        b.filter(shown),
        order,
        limit as nat,
        limit as nat,
        limit as nat,
    );
    lemma_kept_ascending(index_a_scan, behind);
    lemma_kept_ascending(index_b_scan, behind);
    lemma_merge_of_kept(a, b, order, key, shown);
}

/// `is_shown`, of a reference to a game.
spec fn is_shown_ref<'a>(game_over: bool) -> spec_fn(&'a CwChessGame) -> bool {
    |game: &'a CwChessGame| game_over || game.status is None
}

/// `summaries`, of references to games.
spec fn summaries_ref<'a>(games: Seq<&'a CwChessGame>) -> Seq<SummaryView> {
    games.map_values(|game: &'a CwChessGame| summary_of(game@))
}

/// `listed_games`, of scans of references to games.
spec fn listed_games_ref<'a>(
    index_a_scan: Seq<&'a CwChessGame>,
    index_b_scan: Seq<&'a CwChessGame>,
    after: Option<u64>,
    game_over: bool,
    limit: u32,
) -> Seq<SummaryView> {
    summaries_ref(
        first_items(
            merge_by(
                scan_after(index_a_scan, after),
                scan_after(index_b_scan, after),
                key_order::<&'a CwChessGame>(),
            ).filter(is_shown_ref(game_over)),
            limit as nat,
        ),
    )
}

/// A page made from references to games is the page of the games.
proof fn lemma_listed_games_ref<'a>(
    index_a_scan: Seq<&'a CwChessGame>,
    index_b_scan: Seq<&'a CwChessGame>,
    after: Option<u64>,
    game_over: bool,
    limit: u32,
)
    ensures
        listed_games_ref(index_a_scan, index_b_scan, after, game_over, limit) == listed_games(
            items_of(index_a_scan),
            items_of(index_b_scan),
            after,
            game_over,
            limit,
        ),
{
    lemma_items_of_filter(
        index_a_scan,
        is_after::<&'a CwChessGame>(after),
        is_after::<CwChessGame>(after),
    );
    lemma_items_of_filter(
        index_b_scan,
        is_after::<&'a CwChessGame>(after),
        is_after::<CwChessGame>(after),
    );
    lemma_items_of_merge(scan_after(index_a_scan, after), scan_after(index_b_scan, after));
    let merged = merge_by(
        scan_after(index_a_scan, after),
        scan_after(index_b_scan, after),
        key_order::<&'a CwChessGame>(),
    );
    lemma_items_of_filter(merged, is_shown_ref(game_over), is_shown(game_over));
}

/// Lists one page of the games of two scans: those whose id is higher than
/// `after`, merged in the order of their ids, without the games that are
/// over unless `game_over` asks for them, and of these the first `limit`.
pub fn list_games<'a>(
    index_a_scan: Vec<&'a CwChessGame>,
    index_b_scan: Vec<&'a CwChessGame>,
    after: Option<u64>,
    game_over: bool,
    limit: u32,
) -> (page: Vec<GameSummary>)
    ensures
        summaries_view(page@) == listed_games(
            items_of(index_a_scan@),
            items_of(index_b_scan@),
            after,
            game_over,
            limit,
        ),
{
    proof {
        lemma_listed_games_ref(index_a_scan@, index_b_scan@, after, game_over, limit);
    }
    let first = queue_after(index_a_scan, after);
    let second = queue_after(index_b_scan, after);
    let mut merge = IterMerge::of_queues(first, second, comes_first::<&'a CwChessGame>);
    let ghost order = key_order::<&'a CwChessGame>();
    let ghost shown = is_shown_ref(game_over);
    let ghost all = merge.remaining_by(order);
    let ghost mut seen: int = 0;
    let mut page: Vec<GameSummary> = Vec::new();
    while page.len() < limit as usize
        invariant
            merge.wf(),
            decides::<&'a CwChessGame, _>(merge.predicate(), order),
            order == key_order::<&'a CwChessGame>(),
            shown == is_shown_ref(game_over),
            all == merge_by(
                scan_after(index_a_scan@, after),
                scan_after(index_b_scan@, after),
                order,
            ),
            0 <= seen <= all.len(),
            merge.remaining_by(order) == all.skip(seen),
            summaries_view(page@) == summaries_ref(all.take(seen).filter(shown)),
            page@.len() == all.take(seen).filter(shown).len(),
            page@.len() <= limit,
        decreases all.len() - seen,
    {
        let ghost before = merge;
        match merge.next() {
            Some(game) => {
                proof {
                    before.lemma_step(Some(game), merge, order);
                    let longer = all.take(seen + 1);
                    let kept = all.take(seen).filter(shown);
                    assert(longer.drop_last() =~= all.take(seen));
                    assert(longer.filter(shown) == if shown(game) {
                        kept.push(game)
                    } else {
                        kept
                    }) by {
                        reveal(Seq::filter);
                    }
                }
                if game.is_listed(game_over) {
                    let summary = GameSummary::from(game);
                    page.push(summary);
                    proof {
                        let kept = all.take(seen).filter(shown);
                        assert(summaries_ref(kept.push(game)) =~= summaries_ref(kept).push(
                            summary_of(game@),
                        ));
                    }
                }
                proof {
                    seen = seen + 1;
                }
            },
            None => {
                proof {
                    lemma_listed_games_ref(index_a_scan@, index_b_scan@, after, game_over, limit);
                    assert(all.take(seen) =~= all);
                }
                return page;
            },
        }
    }
    proof {
        assert(all.take(seen) + all.skip(seen) =~= all);
    }
    page
}

/// The games of a player: one page of their summaries, in the order of the
/// games' ids, from the scans of the indexes by the player with White and
/// by the player with Black under the player's key. Games that are over are
/// left out unless `game_over` is `Some(true)`.
pub fn query_get_player_games<'a>(
    player1_scan: Vec<&'a CwChessGame>,
    player2_scan: Vec<&'a CwChessGame>,
    after: Option<u64>,
    game_over: Option<bool>,
) -> (page: Vec<GameSummary>)
    ensures
        summaries_view(page@) == listed_games(
            items_of(player1_scan@),
            items_of(player2_scan@),
            after,
            game_over == Some(true),
            PAGE_LIMIT,
        ),
{
    let game_over = match game_over {
        Some(wanted) => wanted,
        None => false,
    };
    list_games(player1_scan, player2_scan, after, game_over, PAGE_LIMIT)
}

/// All games: one page of their summaries, in the order of the games' ids,
/// from the scan of the games. Games that are over are left out unless
/// `game_over` is `Some(true)`.
pub fn query_get_games<'a>(all_scan: Vec<&'a CwChessGame>, after: Option<u64>, game_over: Option<bool>) -> (page:
    Vec<GameSummary>)
    ensures
        summaries_view(page@) == summaries(
            first_items(
                scan_after(items_of(all_scan@), after).filter(is_shown(game_over == Some(true))),
                ALL_GAMES_LIMIT as nat,
            ),
        ),
{
    let game_over = match game_over {
        Some(wanted) => wanted,
        None => false,
    };
    list_games(all_scan, Vec::new(), after, game_over, ALL_GAMES_LIMIT)
}

} // verus!
