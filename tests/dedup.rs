use the_collector::match_ids::{next_query, order_for_processing, GetMatchIdsQuery, MatchIdsHandler, CACHE_SIZE};
use the_collector::model::Match;

fn ids(v: &[&str]) -> Vec<String> {
    v.iter().map(|s| s.to_string()).collect()
}

#[test]
fn cache_at_capacity_filters_and_evicts() {
    let mut stage = MatchIdsHandler::with_capacity(2);
    let first = stage.filter_batch(ids(&["m1", "m2"]), &Vec::new());
    assert_eq!(first, ids(&["m1", "m2"]));
    assert_eq!(stage.cached_ids(), ids(&["m1", "m2"]));

    let out = stage.filter_batch(ids(&["m2", "m3", "m4"]), &Vec::new());
    assert_eq!(out, ids(&["m3", "m4"]));
    assert_eq!(stage.cached_ids(), ids(&["m3", "m4"]));
}

#[test]
fn stored_ids_are_never_forwarded() {
    let mut stage = MatchIdsHandler::new();
    let out = stage.filter_batch(ids(&["a", "b", "c", "d"]), &ids(&["b", "d"]));
    assert_eq!(out, ids(&["a", "c"]));
    assert_eq!(stage.cached_ids(), ids(&["a", "c"]));
    let again = stage.filter_batch(ids(&["a", "b", "e"]), &ids(&["b"]));
    assert_eq!(again, ids(&["e"]));
}

#[test]
fn zero_capacity_cache_keeps_nothing() {
    let mut stage = MatchIdsHandler::with_capacity(0);
    let out = stage.filter_batch(ids(&["x", "y"]), &Vec::new());
    assert_eq!(out, ids(&["x", "y"]));
    assert!(stage.cached_ids().is_empty());
    let out = stage.filter_batch(ids(&["x"]), &Vec::new());
    assert_eq!(out, ids(&["x"]));
}

#[test]
fn default_cache_capacity() {
    assert_eq!(CACHE_SIZE, 100);
    let mut stage = MatchIdsHandler::new();
    let batch: Vec<String> = (0..150).map(|i| format!("m{i}")).collect();
    let out = stage.filter_batch(batch.clone(), &Vec::new());
    assert_eq!(out.len(), 150);
    let cached = stage.cached_ids();
    assert_eq!(cached.len(), 100);
    assert_eq!(cached[0], "m50");
    assert_eq!(cached[99], "m149");
}

#[test]
fn requested_count_rules() {
    let first = GetMatchIdsQuery { puuid: "p".into(), start_time: None, count: Some(50) };
    assert_eq!(first.requested_count(), 1);
    let capped = GetMatchIdsQuery { puuid: "p".into(), start_time: Some(10), count: Some(500) };
    assert_eq!(capped.requested_count(), 100);
    let small = GetMatchIdsQuery { puuid: "p".into(), start_time: Some(10), count: Some(5) };
    assert_eq!(small.requested_count(), 5);
    let open = GetMatchIdsQuery { puuid: "p".into(), start_time: Some(10), count: None };
    assert_eq!(open.requested_count(), 100);
}

#[test]
fn listed_ids_are_processed_oldest_first() {
    assert_eq!(order_for_processing(ids(&["new", "mid", "old"])), ids(&["old", "mid", "new"]));
    assert!(order_for_processing(Vec::new()).is_empty());
}

fn stored_match(start_time: i64, duration: i64) -> Match {
    Match {
        id: "m".into(),
        start_time,
        duration,
        queue_id: 420,
        game_version: "14.3.1".into(),
        game_mode: "CLASSIC".into(),
        winning_team_id: 100,
        surrender: false,
    }
}

#[test]
fn next_query_starts_after_latest_match() {
    let m = stored_match(1_700_000_000_500, 1800);
    let q = next_query("p".into(), Some(&m), 5).unwrap();
    assert_eq!(q.puuid, "p");
    assert_eq!(q.start_time, Some(1_700_001_800));
    assert_eq!(q.count, None);

    let q = next_query("p".into(), None, 1_600_000_000).unwrap();
    assert_eq!(q.start_time, Some(1_600_000_000));

    let before_epoch = stored_match(-1500, 10);
    assert_eq!(next_query("p".into(), Some(&before_epoch), 0).unwrap().start_time, Some(8));

    let huge = stored_match(0, i64::MAX);
    assert_eq!(next_query("p".into(), Some(&stored_match(1000, i64::MAX)), 0).is_none(), true);
    assert_eq!(next_query("p".into(), Some(&huge), 0).unwrap().start_time, Some(i64::MAX));
}
