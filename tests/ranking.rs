use the_collector::leaderboard::{leaderboard_candidates, rank_leaderboard, DEFAULT_LEADERBOARD_SIZE};
use the_collector::model::{GuildFollowing, Match, SummonerMatch};
use the_collector::store::MatchTable;

fn row(puuid: &str, match_id: &str, deaths: i64) -> SummonerMatch {
    SummonerMatch {
        puuid: puuid.into(),
        match_id: match_id.into(),
        kills: 1,
        deaths,
        assists: 1,
        champion_id: 1,
        position: None,
        longest_time_living: 0,
        time_dead: 0,
        team_id: 100,
    }
}

fn stored(id: &str, queue_id: i64) -> Match {
    Match {
        id: id.into(),
        start_time: 0,
        duration: 1800,
        queue_id,
        game_version: "14.3.1".into(),
        game_mode: "CLASSIC".into(),
        winning_team_id: 100,
        surrender: false,
    }
}

fn follow(guild_id: i64, puuid: &str) -> GuildFollowing {
    GuildFollowing { guild_id, puuid: puuid.into() }
}

#[test]
fn short_leaderboard_reports_unfilled_bound() {
    let follows = vec![follow(7, "a"), follow(7, "b"), follow(7, "c"), follow(8, "d")];
    let matches = vec![stored("m1", 420), stored("m2", 440), stored("m3", 400), stored("m4", 450)];
    let rows = vec![
        row("a", "m1", 3),
        row("b", "m2", 12),
        row("c", "m3", 7),
        row("a", "m2", 9),
        row("d", "m1", 20),
        row("b", "m4", 30),
    ];
    let candidates = leaderboard_candidates(&rows, &follows, &matches, 7);
    assert_eq!(candidates.len(), 4);
    let board = rank_leaderboard(candidates, DEFAULT_LEADERBOARD_SIZE);
    assert_eq!(board.entries.len(), 4);
    let deaths: Vec<i64> = board.entries.iter().map(|r| r.deaths).collect();
    assert_eq!(deaths, vec![12, 9, 7, 3]);
    assert!(!board.filled);
}

#[test]
fn leaderboard_is_cut_at_its_size() {
    let rows = vec![row("a", "m1", 1), row("b", "m1", 5), row("c", "m1", 5), row("d", "m1", 2)];
    let board = rank_leaderboard(rows, 2);
    assert!(board.filled);
    assert_eq!(board.entries[0].puuid, "b");
    assert_eq!(board.entries[1].puuid, "c");
    let empty = rank_leaderboard(Vec::new(), 3);
    assert!(empty.entries.is_empty());
    assert!(!empty.filled);
    let zero = rank_leaderboard(vec![row("a", "m1", 1)], 0);
    assert!(zero.entries.is_empty());
    assert!(zero.filled);
}

#[test]
fn duplicate_match_insert_keeps_one_row() {
    let mut table = MatchTable::new();
    assert!(table.insert_match(stored("m1", 420)));
    assert!(!table.insert_match(stored("m1", 420)));
    assert!(table.contains(&"m1".to_string()));
    assert!(!table.contains(&"m2".to_string()));
    let ids = vec!["m2".to_string(), "m1".to_string()];
    assert_eq!(table.existing_ids(&ids), vec!["m1".to_string()]);
}
