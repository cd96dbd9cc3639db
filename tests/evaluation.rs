use the_collector::evaluator::{
    InsignificanceFloor, IntLevel, LevelRange, MatchEvaluator, RoleWeights, WeightedKda, Weights,
};
use the_collector::model::SummonerMatch;
use the_collector::role::Role;

fn line(kills: i64, deaths: i64, assists: i64, position: Option<&str>) -> SummonerMatch {
    SummonerMatch {
        puuid: "p".into(),
        match_id: "m".into(),
        kills,
        deaths,
        assists,
        champion_id: 1,
        position: position.map(|p| p.to_string()),
        longest_time_living: 0,
        time_dead: 0,
        team_id: 100,
    }
}

fn uniform(w: Weights) -> RoleWeights {
    RoleWeights { top: w, jungle: w, mid: w, bot: w, support: w, other: w }
}

const HALF_ASSIST: Weights = Weights { kill_weight: 100, death_weight: -100, assist_weight: 50 };

#[test]
fn support_line_scores_below_threshold() {
    let stats = line(2, 9, 1, Some("support"));
    assert_eq!(HALF_ASSIST.calculate_weighted_kda(&stats), WeightedKda(-650));
    let ev = MatchEvaluator::new(uniform(HALF_ASSIST), WeightedKda(0), Vec::new(), None);
    let e = ev.evaluate(&stats);
    assert!(e.level >= IntLevel::Insignificant);
    assert!(ev.is_int(&stats));
}

#[test]
fn score_above_threshold_is_not_noteworthy() {
    let ev = MatchEvaluator::new(uniform(HALF_ASSIST), WeightedKda(0), Vec::new(), None);
    let stats = line(10, 2, 4, Some("TOP"));
    assert_eq!(ev.evaluate(&stats).level, IntLevel::Not);
    assert!(!ev.is_int(&stats));
}

#[test]
fn death_buckets_pick_the_first_match() {
    let ranges = vec![
        LevelRange { level: IntLevel::Normal, start: 5, end: 10 },
        LevelRange { level: IntLevel::Big, start: 8, end: 15 },
        LevelRange { level: IntLevel::Turbo, start: 15, end: 100 },
    ];
    let ev = MatchEvaluator::new(uniform(HALF_ASSIST), WeightedKda(0), ranges, None);
    assert_eq!(ev.evaluate(&line(0, 9, 0, None)).level, IntLevel::Normal);
    assert_eq!(ev.evaluate(&line(0, 12, 0, None)).level, IntLevel::Big);
    assert_eq!(ev.evaluate(&line(0, 20, 0, None)).level, IntLevel::Turbo);
    assert_eq!(ev.evaluate(&line(0, 3, 0, None)).level, IntLevel::Insignificant);
    assert_eq!(ev.evaluate(&line(10, 3, 0, None)).level, IntLevel::Not);
}

#[test]
fn noteworthy_score_outside_every_bucket() {
    let ranges = vec![LevelRange { level: IntLevel::Big, start: 0, end: 5 }];
    let ev = MatchEvaluator::new(uniform(HALF_ASSIST), WeightedKda(0), ranges, None);
    let stats = line(2, 9, 1, Some("support"));
    assert_eq!(ev.evaluate(&stats).level, IntLevel::Insignificant);
    assert!(ev.is_int(&stats));
    assert_eq!(ev.evaluate(&line(0, 4, 0, None)).level, IntLevel::Big);
}

#[test]
fn insignificance_floor_rules_out_low_death_games() {
    let floor = InsignificanceFloor { max_deaths: 4, min_kills: 1 };
    let ev = MatchEvaluator::new(uniform(HALF_ASSIST), WeightedKda(0), Vec::new(), Some(floor));
    assert_eq!(ev.evaluate(&line(1, 4, 0, None)).level, IntLevel::Not);
    assert_eq!(ev.evaluate(&line(0, 4, 0, None)).level, IntLevel::Insignificant);
}

#[test]
fn role_weights_follow_the_position() {
    let zero = Weights { kill_weight: 0, death_weight: 0, assist_weight: 0 };
    let harsh = Weights { kill_weight: 0, death_weight: -100, assist_weight: 0 };
    let table = RoleWeights { top: zero, jungle: zero, mid: zero, bot: zero, support: harsh, other: zero };
    let ev = MatchEvaluator::new(table, WeightedKda(-100), Vec::new(), None);
    assert!(ev.is_int(&line(0, 3, 0, Some("UTILITY"))));
    assert!(!ev.is_int(&line(0, 3, 0, Some("BOTTOM"))));
    assert_eq!(ev.classify(&line(0, 3, 0, None), Role::Support).level, IntLevel::Insignificant);
    assert_eq!(ev.classify(&line(0, 3, 0, None), Role::Other).level, IntLevel::Not);
}

#[test]
fn identical_inputs_give_identical_levels() {
    let ev = MatchEvaluator::new(uniform(HALF_ASSIST), WeightedKda(0), Vec::new(), None);
    let a = ev.evaluate(&line(3, 7, 2, Some("jungle")));
    let b = ev.evaluate(&line(3, 7, 2, Some("jungle")));
    assert_eq!(a, b);
}

#[test]
fn extreme_stat_lines_do_not_overflow() {
    let w = Weights { kill_weight: i32::MAX, death_weight: i32::MIN, assist_weight: i32::MAX };
    let stats = line(i64::MAX, i64::MAX, i64::MAX, None);
    let expected = (i32::MAX as i128) * (i64::MAX as i128) * 2 + (i32::MIN as i128) * (i64::MAX as i128);
    assert_eq!(w.calculate_weighted_kda(&stats), WeightedKda(expected));
}

#[test]
fn positions_map_to_roles_in_any_case() {
    assert_eq!(Role::from_position("Top"), Role::Top);
    assert_eq!(Role::from_position("JUNGLE"), Role::Jungle);
    assert_eq!(Role::from_position("middle"), Role::Mid);
    assert_eq!(Role::from_position("Bottom"), Role::Bot);
    assert_eq!(Role::from_position("UTILITY"), Role::Support);
    assert_eq!(Role::from_position(""), Role::Other);
    assert_eq!(Role::from_position("mid"), Role::Other);
    assert_eq!(Role::from_lowered("TOP"), Role::Other);
    assert_eq!(Role::from_optional(&None), Role::Other);
}

#[test]
fn changing_weights_moves_the_score_linearly() {
    let stats = line(2, 9, 1, Some("support"));
    let before = HALF_ASSIST.calculate_weighted_kda(&stats);
    let heavier = Weights { kill_weight: 150, death_weight: -200, assist_weight: 50 };
    let after = heavier.calculate_weighted_kda(&stats);
    assert_eq!(after.0 - before.0, 50 * 2 + (-100) * 9 + 0 * 1);
    let lenient = MatchEvaluator::new(uniform(HALF_ASSIST), WeightedKda(-700), Vec::new(), None);
    let strict = MatchEvaluator::new(uniform(heavier), WeightedKda(-700), Vec::new(), None);
    assert_eq!(lenient.evaluate(&stats).level, IntLevel::Not);
    assert_eq!(strict.evaluate(&stats).level, IntLevel::Insignificant);
}
