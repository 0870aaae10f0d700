use cosmwasm_chess::cwchess::CwChessColor;
use cosmwasm_chess::paging::{comes_first, list};
use cosmwasm_chess::state::{merge_iters, next_challenge_id, next_game_id, Challenge, Keyed};

#[test]
fn test_merge_iters() {
    let merged = merge_iters(vec![1, 3, 5, 7], vec![2, 4, 6], |n1, n2| -> bool { n1 <= n2 })
        .collect();

    assert_eq!(merged, vec![1, 2, 3, 4, 5, 6, 7]);
}

#[test]
fn test_merge_iters_empty_first() {
    let merged = merge_iters(vec![], vec![2, 4, 6], |n1, n2| -> bool { n1 <= n2 }).collect();

    assert_eq!(merged, vec![2, 4, 6]);
}

#[test]
fn test_merge_iters_empty_second() {
    let merged = merge_iters(vec![1, 3, 5], vec![], |n1, n2| -> bool { n1 <= n2 }).collect();

    assert_eq!(merged, vec![1, 3, 5]);
}

#[test]
fn merge_is_lazy_item_by_item() {
    let mut merge = merge_iters(vec![1u64, 4], vec![2u64, 3, 5], |a, b| -> bool { a <= b });
    assert_eq!(merge.next(), Some(1));
    assert_eq!(merge.next(), Some(2));
    assert_eq!(merge.take(2), vec![3, 4]);
    assert_eq!(merge.next(), Some(5));
    assert_eq!(merge.next(), None);
    assert_eq!(merge.next(), None);
    assert_eq!(merge.take(3), Vec::<u64>::new());
}

#[test]
fn merge_ties_go_to_the_first_scan() {
    let merged = merge_iters(
        vec![(1, "a"), (2, "a")],
        vec![(1, "b"), (2, "b")],
        |x: &(i32, &str), y: &(i32, &str)| -> bool { x.0 <= y.0 },
    )
    .collect();
    assert_eq!(merged, vec![(1, "a"), (1, "b"), (2, "a"), (2, "b")]);
}

#[test]
fn merge_follows_the_predicate_not_the_values() {
    // a predicate that always prefers the second scan
    let merged = merge_iters(vec![1, 2], vec![9, 8], |_, _| -> bool { false }).collect();
    assert_eq!(merged, vec![9, 8, 1, 2]);
}

#[test]
fn list_is_the_sorted_union() {
    let a: Vec<u64> = vec![1, 4, 6, 9];
    let b: Vec<u64> = vec![2, 3, 7, 10, 11];
    assert_eq!(
        list(a.clone(), b.clone(), None, u32::MAX),
        vec![1, 2, 3, 4, 6, 7, 9, 10, 11]
    );
    assert_eq!(list(a.clone(), b.clone(), Some(4), u32::MAX), vec![6, 7, 9, 10, 11]);
    assert_eq!(list(a.clone(), b.clone(), Some(5), u32::MAX), vec![6, 7, 9, 10, 11]);
    assert_eq!(list(a.clone(), b.clone(), Some(11), u32::MAX), Vec::<u64>::new());
    assert_eq!(list(a.clone(), b.clone(), Some(0), 3), vec![1, 2, 3]);
    assert_eq!(list(a.clone(), b.clone(), Some(3), 3), vec![4, 6, 7]);
    assert_eq!(list(a.clone(), b.clone(), None, 0), Vec::<u64>::new());
    assert_eq!(list(a, Vec::new(), Some(1), 2), vec![4, 6]);
    assert_eq!(list(Vec::new(), b, Some(2), 2), vec![3, 7]);
}

#[test]
fn ids_start_at_one_and_go_up() {
    assert_eq!(next_challenge_id(None), 1);
    assert_eq!(next_challenge_id(Some(1)), 2);
    assert_eq!(next_challenge_id(Some(41)), 42);
    assert_eq!(next_game_id(None), 1);
    assert_eq!(next_game_id(Some(u64::MAX - 1)), u64::MAX);
}

fn challenge(id: u64, opponent: Option<&str>) -> Challenge {
    Challenge {
        block_created: 5,
        block_limit: None,
        challenge_id: id,
        created_by: "creator".to_string(),
        play_as: Some(CwChessColor::White),
        opponent: opponent.map(|s| s.to_string()),
    }
}

#[test]
fn challenges_are_indexed_by_creator_and_opponent() {
    let open = challenge(3, None);
    let sent = challenge(4, Some("friend"));
    assert_eq!(open.created_by_key(), "creator");
    assert_eq!(open.opponent_key(), "open");
    assert_eq!(sent.created_by_key(), "creator");
    assert_eq!(sent.opponent_key(), "friend");
    assert_eq!(open.primary_key(), 3);
    assert_eq!(sent.primary_key(), 4);
    assert!(comes_first(&open, &sent));
    assert!(comes_first(&open, &open));
    assert!(!comes_first(&sent, &open));
    assert_eq!(7u64.primary_key(), 7);
}
