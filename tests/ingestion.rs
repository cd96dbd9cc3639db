use the_collector::ingest::{
    get_surrender, get_winning_team, match_record, plan_match_ingest, summoner_match_row, Error, MatchPayload,
    MissingField, ParticipantPayload,
};

fn participant(puuid: &str, win: bool, team: u16, kills: i32, deaths: i32) -> ParticipantPayload {
    ParticipantPayload {
        puuid: puuid.into(),
        win,
        team_id: team,
        kills,
        deaths,
        assists: 3,
        champion_id: Some(17),
        team_position: Some("TOP".into()),
        longest_time_spent_living: 600,
        total_time_spent_dead: 120,
        game_ended_in_surrender: true,
    }
}

fn payload(participants: Vec<ParticipantPayload>) -> MatchPayload {
    MatchPayload {
        match_id: "NA1_1".into(),
        participant_ids: participants.iter().map(|p| p.puuid.clone()).collect(),
        game_start_timestamp: 1_700_000_000_000,
        game_duration: 1800,
        queue_id: 420,
        game_version: "14.3.558.106".into(),
        game_mode: "CLASSIC".into(),
        participants,
    }
}

#[test]
fn winning_side_is_the_winners_team() {
    let d = payload(vec![participant("a", false, 100, 1, 1), participant("b", true, 200, 2, 2)]);
    assert_eq!(get_winning_team(&d), Ok(200));
    assert_eq!(get_surrender(&d), Ok(true));
}

#[test]
fn payload_without_winner_is_rejected_whole() {
    let d = payload(vec![participant("a", false, 100, 1, 1), participant("b", false, 200, 2, 2)]);
    assert_eq!(get_winning_team(&d), Err(Error::MissingData(MissingField::Winner)));
    assert_eq!(match_record(&d).unwrap_err(), Error::MissingData(MissingField::Winner));
    assert_eq!(plan_match_ingest(&d, &vec![true, true]).unwrap_err(), Error::MissingData(MissingField::Winner));
}

#[test]
fn empty_payload_has_no_surrender_flag() {
    let d = payload(Vec::new());
    assert_eq!(get_surrender(&d), Err(Error::MissingData(MissingField::Participants)));
    assert_eq!(get_winning_team(&d), Err(Error::MissingData(MissingField::Winner)));
}

#[test]
fn record_keeps_the_payload_fields() {
    let d = payload(vec![participant("a", true, 100, 1, 1)]);
    let m = match_record(&d).unwrap();
    assert_eq!(m.id, "NA1_1");
    assert_eq!(m.start_time, 1_700_000_000_000);
    assert_eq!(m.duration, 1800);
    assert_eq!(m.queue_id, 420);
    assert_eq!(m.game_version, "14.3.558.106");
    assert_eq!(m.game_mode, "CLASSIC");
    assert_eq!(m.winning_team_id, 100);
    assert!(m.surrender);
}

#[test]
fn out_of_range_start_is_rejected() {
    let mut d = payload(vec![participant("a", true, 100, 1, 1)]);
    d.game_start_timestamp = i64::MAX;
    assert_eq!(match_record(&d).unwrap_err(), Error::DateTimeOutOfRange);
}

#[test]
fn untracked_participants_get_no_row_and_no_query() {
    let d = payload(vec![
        participant("a", true, 100, 4, 2),
        participant("b", false, 200, 1, 9),
        participant("c", false, 200, 0, 5),
    ]);
    let plan = plan_match_ingest(&d, &vec![false, true, false]).unwrap();
    assert_eq!(plan.record.id, "NA1_1");
    assert_eq!(plan.rows.len(), 1);
    assert_eq!(plan.queries.len(), 1);
    assert_eq!(plan.rows[0].puuid, "b");
    assert_eq!(plan.rows[0].deaths, 9);
    assert_eq!(plan.queries[0].puuid, "b");
    assert_eq!(plan.queries[0].match_id, "NA1_1");

    let none = plan_match_ingest(&d, &vec![false, false, false]).unwrap();
    assert!(none.rows.is_empty());
    assert!(none.queries.is_empty());
}

#[test]
fn row_holds_the_participants_stats() {
    let d = payload(vec![participant("a", true, 100, 4, 2)]);
    let row = summoner_match_row(&"a".to_string(), &d).unwrap();
    assert_eq!(row.match_id, "NA1_1");
    assert_eq!((row.kills, row.deaths, row.assists), (4, 2, 3));
    assert_eq!(row.champion_id, 17);
    assert_eq!(row.position.as_deref(), Some("TOP"));
    assert_eq!(row.longest_time_living, 600);
    assert_eq!(row.time_dead, 120);
    assert_eq!(row.team_id, 100);
    assert_eq!(
        summoner_match_row(&"zz".to_string(), &d).unwrap_err(),
        Error::MissingData(MissingField::MatchingPuuid)
    );
}

#[test]
fn unreadable_champion_skips_that_row() {
    let mut bad = participant("b", false, 200, 1, 1);
    bad.champion_id = None;
    let d = payload(vec![participant("a", true, 100, 4, 2), bad]);
    assert_eq!(summoner_match_row(&"b".to_string(), &d).unwrap_err(), Error::ParseChampion);
    let plan = plan_match_ingest(&d, &vec![true, true]).unwrap();
    assert_eq!(plan.rows.len(), 1);
    assert_eq!(plan.rows[0].puuid, "a");
}

use the_collector::ingest::{summoner_record, AccountPayload};

#[test]
fn accounts_need_name_and_tag() {
    let full = AccountPayload { puuid: "p".into(), game_name: Some("riot".into()), tag_line: Some("games".into()) };
    let s = summoner_record(&full, 1_700_000_000).unwrap();
    assert_eq!((s.puuid.as_str(), s.game_name.as_str(), s.tag.as_str()), ("p", "riot", "games"));
    assert_eq!(s.create_time, 1_700_000_000);
    let no_name = AccountPayload { puuid: "p".into(), game_name: None, tag_line: Some("games".into()) };
    assert_eq!(summoner_record(&no_name, 0).unwrap_err(), Error::MissingData(MissingField::GameName));
    let no_tag = AccountPayload { puuid: "p".into(), game_name: Some("riot".into()), tag_line: None };
    assert_eq!(summoner_record(&no_tag, 0).unwrap_err(), Error::MissingData(MissingField::Tag));
}
