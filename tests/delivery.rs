use the_collector::ddragon::{ChampionEntry, DataDragon, GameVersion, InvalidChampionKey};
use the_collector::dispatch::{decide, delivery_channels, DispatchDecision};
use the_collector::evaluator::{IntLevel, MatchEvaluator, RoleWeights, WeightedKda, Weights};
use the_collector::model::{Guild, SummonerMatch, SummonerMatchQuery};
use the_collector::queue::RequestQueue;

#[test]
fn destinations_without_channel_are_skipped() {
    let guilds = vec![
        Guild { id: 1, channel_id: Some(10) },
        Guild { id: 2, channel_id: None },
        Guild { id: 3, channel_id: Some(30) },
    ];
    assert_eq!(delivery_channels(&guilds), vec![10, 30]);
    assert!(delivery_channels(&Vec::new()).is_empty());
}

fn evaluator() -> MatchEvaluator {
    let w = Weights { kill_weight: 100, death_weight: -100, assist_weight: 50 };
    MatchEvaluator::new(
        RoleWeights { top: w, jungle: w, mid: w, bot: w, support: w, other: w },
        WeightedKda(0),
        Vec::new(),
        None,
    )
}

fn stats(kills: i64, deaths: i64) -> SummonerMatch {
    SummonerMatch {
        puuid: "p".into(),
        match_id: "m".into(),
        kills,
        deaths,
        assists: 0,
        champion_id: 1,
        position: Some("MIDDLE".into()),
        longest_time_living: 0,
        time_dead: 0,
        team_id: 100,
    }
}

#[test]
fn dispatch_decisions() {
    let ev = evaluator();
    assert_eq!(decide(&ev, &None, true), DispatchDecision::MissingStats);
    assert_eq!(decide(&ev, &Some(stats(0, 8)), false), DispatchDecision::MissingMatch);
    assert_eq!(decide(&ev, &Some(stats(9, 1)), true), DispatchDecision::NotNoteworthy);
    assert_eq!(decide(&ev, &Some(stats(0, 8)), true), DispatchDecision::Notify(IntLevel::Insignificant));
}

#[test]
fn request_queue_is_first_in_first_out() {
    let mut q: RequestQueue<SummonerMatchQuery> = RequestQueue::new();
    assert!(q.is_empty());
    q.push(SummonerMatchQuery { puuid: "a".into(), match_id: "1".into() });
    q.extend(vec![
        SummonerMatchQuery { puuid: "b".into(), match_id: "2".into() },
        SummonerMatchQuery { puuid: "c".into(), match_id: "3".into() },
    ]);
    assert_eq!(q.len(), 3);
    assert_eq!(q.pop().unwrap().puuid, "a");
    assert_eq!(q.pop().unwrap().puuid, "b");
    assert_eq!(q.pop().unwrap().puuid, "c");
    assert!(q.pop().is_none());
}

#[test]
fn data_version_matches_major_and_minor() {
    let versions = vec!["14.4.1".to_string(), "14.3.1".to_string(), "14.3.0".to_string()];
    let game = GameVersion("14.3.558.106".into());
    assert_eq!(game.major_minor(), "14.3");
    assert_eq!(game.to_data_dragon_version(&versions).unwrap().as_str(), "14.3.1");
    assert!(GameVersion("13.1.2".into()).to_data_dragon_version(&versions).is_none());
    assert_eq!(GameVersion("14".into()).major_minor(), "14");
}

#[test]
fn champion_names_are_cached_per_version() {
    let versions = vec!["14.3.1".to_string()];
    let version = GameVersion("14.3.5".into()).to_data_dragon_version(&versions).unwrap();
    let mut dd = DataDragon::new();
    assert_eq!(dd.get_champion_name(&version, 17), None);
    let entries = vec![
        ChampionEntry { key: "17".into(), name: "Teemo".into() },
        ChampionEntry { key: "+1".into(), name: "Annie".into() },
    ];
    assert_eq!(dd.insert_blob(version.clone(), entries), Ok(()));
    assert_eq!(dd.get_champion_name(&version, 17), Some(Some("Teemo".to_string())));
    assert_eq!(dd.get_champion_name(&version, 1), Some(Some("Annie".to_string())));
    assert_eq!(dd.get_champion_name(&version, 2), Some(None));
    let bad = vec![ChampionEntry { key: "70000".into(), name: "Nobody".into() }];
    assert_eq!(dd.insert_blob(version.clone(), bad), Err(InvalidChampionKey));
    assert_eq!(dd.get_champion_name(&version, 17), Some(Some("Teemo".to_string())));
}

use the_collector::message::{LevelTemplates, MessageBuilder};
use the_collector::model::Summoner;
use the_collector::provider::RivenWrapper;

fn player() -> Summoner {
    Summoner { puuid: "p".into(), game_name: "riot".into(), tag: "games".into(), create_time: 0 }
}

#[test]
fn messages_fill_in_placeholders() {
    let builder = MessageBuilder::new(vec![
        LevelTemplates { level: IntLevel::Insignificant, templates: vec!["%s died %d times".into()] },
        LevelTemplates {
            level: IntLevel::Big,
            templates: vec!["quiet".into(), "%S went %k kills and %d deaths (%s)".into()],
        },
    ]);
    let line = stats(-3, 12);
    assert_eq!(builder.template_count(IntLevel::Big), 2);
    assert_eq!(builder.template_count(IntLevel::Turbo), 0);
    assert_eq!(
        builder.build_message(&line, &player(), IntLevel::Big, 1),
        Some("RIOT went -3 kills and 12 deaths (riot)".to_string())
    );
    assert_eq!(
        builder.build_message(&line, &player(), IntLevel::Insignificant, 0),
        Some("riot died 12 times".to_string())
    );
    assert_eq!(builder.build_message(&line, &player(), IntLevel::Big, 2), None);
    assert_eq!(builder.build_message(&line, &player(), IntLevel::Normal, 0), None);
}

#[test]
fn provider_credentials_are_kept() {
    let key = String::from("SECRET-REDACTED");
    let wrapper = RivenWrapper::new(&key);
    assert_eq!(wrapper.api_key(), "SECRET-REDACTED");
}
