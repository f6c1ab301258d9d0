use revent::ids::ClientId;
use revent::selection::{sorted_ids, RoundRobinStrategy};

fn ids(values: &[&str]) -> Vec<ClientId> {
    values.iter().filter_map(|v| ClientId::new(v).ok()).collect()
}

fn id(value: &str) -> ClientId {
    ClientId::new(value).expect("valid client id")
}

#[test]
fn round_robin_rotates_through_all_candidates() {
    let mut strategy = RoundRobinStrategy::new();
    let candidates = ids(&["client-1", "client-2", "client-3"]);

    assert_eq!(strategy.next(&candidates), Some(id("client-1")));
    assert_eq!(strategy.next(&candidates), Some(id("client-2")));
    assert_eq!(strategy.next(&candidates), Some(id("client-3")));
    assert_eq!(strategy.next(&candidates), Some(id("client-1")));
}

#[test]
fn round_robin_recovers_when_last_selected_is_removed() {
    let mut strategy = RoundRobinStrategy::new();

    let initial = ids(&["client-1", "client-2", "client-3"]);
    assert_eq!(strategy.next(&initial), Some(id("client-1")));

    let without_first = ids(&["client-2", "client-3"]);
    assert_eq!(strategy.next(&without_first), Some(id("client-2")));
    assert_eq!(strategy.next(&without_first), Some(id("client-3")));
}

#[test]
fn round_robin_returns_none_for_empty_candidates() {
    let mut strategy = RoundRobinStrategy::new();
    let empty: Vec<ClientId> = vec![];

    assert_eq!(strategy.next(&empty), None);
}

#[test]
fn round_robin_resets_after_empty_candidate_set() {
    let mut strategy = RoundRobinStrategy::new();
    let candidates = ids(&["client-1", "client-2"]);
    let empty: Vec<ClientId> = vec![];

    assert_eq!(strategy.next(&candidates), Some(id("client-1")));
    assert_eq!(strategy.next(&empty), None);
    assert_eq!(strategy.next(&candidates), Some(id("client-1")));
}

#[test]
fn round_robin_orders_candidates_by_id_whatever_their_order() {
    let mut strategy = RoundRobinStrategy::new();
    let candidates = ids(&["zeta", "alpha", "mid"]);
    assert_eq!(strategy.next(&candidates), Some(id("alpha")));
    assert_eq!(strategy.next(&candidates), Some(id("mid")));
    assert_eq!(strategy.next(&candidates), Some(id("zeta")));
    assert_eq!(strategy.next(&candidates), Some(id("alpha")));
    assert_eq!(strategy.last_selected(), Some(id("alpha")));
}

#[test]
fn round_robin_cycle_visits_each_candidate_once_per_round() {
    let mut strategy = RoundRobinStrategy::new();
    let candidates = ids(&["c-4", "c-2", "c-3", "c-1"]);
    let picked: Vec<ClientId> = (0..8).filter_map(|_| strategy.next(&candidates)).collect();
    assert_eq!(
        picked,
        ids(&["c-1", "c-2", "c-3", "c-4", "c-1", "c-2", "c-3", "c-4"])
    );
}

#[test]
fn round_robin_with_duplicates_follows_first_occurrence() {
    let mut strategy = RoundRobinStrategy::new();
    let candidates = ids(&["bbb", "aaa", "aaa"]);
    assert_eq!(strategy.next(&candidates), Some(id("aaa")));
    assert_eq!(strategy.next(&candidates), Some(id("aaa")));
    assert_eq!(strategy.next(&candidates), Some(id("aaa")));
}

#[test]
fn sorting_uses_code_point_order() {
    let sorted = sorted_ids(&ids(&["b-x", "B-x", "a-x", "ab-x", "a-xy", "é-x"]));
    let mut expected = ids(&["b-x", "B-x", "a-x", "ab-x", "a-xy", "é-x"]);
    expected.sort();
    assert_eq!(sorted, expected);
}
