use crate::model::{Match, Summoner, SummonerMatch, SummonerMatchQuery};
use vstd::prelude::*;

verus! {

/// What a malformed payload lacks.
#[derive(Debug, Clone, Copy, PartialEq, Eq, Structural)]
pub enum MissingField {
    Winner,
    Participants,
    MatchingPuuid,
    GameName,
    Tag,
}

/// Why a payload, or part of one, cannot be persisted.
#[derive(Debug, Clone, Copy, PartialEq, Eq, Structural)]
pub enum Error {
    MissingData(MissingField),
    NotEnoughLeaderboardMatches,
    DateTimeOutOfRange,
    ParseChampion,
}

/// One participant of a match payload, as the provider reports it.
#[derive(Debug, Clone)]
pub struct ParticipantPayload {
    pub puuid: String,
    pub win: bool,
    pub team_id: u16,
    pub kills: i32,
    pub deaths: i32,
    pub assists: i32,
    /// `None` where the provider's champion could not be read.
    pub champion_id: Option<i16>,
    pub team_position: Option<String>,
    pub longest_time_spent_living: i32,
    pub total_time_spent_dead: i32,
    pub game_ended_in_surrender: bool,
}

/// A full match payload, as the provider reports it. `game_start_timestamp`
/// is in milliseconds since the Unix epoch, `game_duration` in seconds.
#[derive(Debug, Clone)]
pub struct MatchPayload {
    pub match_id: String,
    /// The identifiers of the participants, in the provider's order.
    pub participant_ids: Vec<String>,
    pub game_start_timestamp: i64,
    pub game_duration: i64,
    pub queue_id: u16,
    pub game_version: String,
    pub game_mode: String,
    pub participants: Vec<ParticipantPayload>,
}

/// An account as the provider reports it.
#[derive(Debug, Clone)]
pub struct AccountPayload {
    pub puuid: String,
    pub game_name: Option<String>,
    pub tag_line: Option<String>,
}

/// The tracked-player record of an account looked up at `create_time`
/// (seconds since the Unix epoch). An account without a display name or tag
/// cannot be stored.
pub fn summoner_record(account: &AccountPayload, create_time: i64) -> (r: Result<Summoner, Error>)
    ensures
        account.game_name is None ==> r == Err::<Summoner, Error>(Error::MissingData(MissingField::GameName)),
        account.game_name is Some && account.tag_line is None ==> r == Err::<Summoner, Error>(
            Error::MissingData(MissingField::Tag),
        ),
        account.game_name is Some && account.tag_line is Some ==> (r matches Ok(s) && s.puuid@
            == account.puuid@ && s.game_name@ == account.game_name->0@ && s.tag@
            == account.tag_line->0@ && s.create_time == create_time),
{
    let game_name = match &account.game_name {
        Some(n) => n.clone(),
        None => return Err(Error::MissingData(MissingField::GameName)),
    };
    let tag = match &account.tag_line {
        Some(t) => t.clone(),
        None => return Err(Error::MissingData(MissingField::Tag)),
    };
    Ok(Summoner { puuid: account.puuid.clone(), game_name, tag, create_time })
}

/// Whether a millisecond timestamp stands for a representable UTC date and
/// time, as `chrono::DateTime::from_timestamp_millis` decides.
pub uninterp spec fn utc_millis_representable(ms: i64) -> bool;

/// Relies on `chrono::DateTime::from_timestamp_millis`, which returns `None`
/// exactly for out-of-range timestamps.
#[verifier::external_body]
fn timestamp_in_range(ms: i64) -> (r: bool)
    ensures
        r == utc_millis_representable(ms),
{
    chrono::DateTime::from_timestamp_millis(ms).is_some()
}

/// The team of the first participant flagged as winner.
pub open spec fn first_winner(ps: Seq<ParticipantPayload>) -> Option<u16>
    decreases ps.len(),
{
    if ps.len() == 0 {
        None
    } else if ps[0].win {
        Some(ps[0].team_id)
    } else {
        first_winner(ps.drop_first())
    }
}

/// The index of the first participant with this identifier.
pub open spec fn find_participant(ps: Seq<ParticipantPayload>, puuid: Seq<char>) -> Option<int>
    decreases ps.len(),
{
    if ps.len() == 0 {
        None
    } else if ps[0].puuid@ == puuid {
        Some(0)
    } else {
        match find_participant(ps.drop_first(), puuid) {
            Some(i) => Some(i + 1),
            None => None,
        }
    }
}

/// The winning side: the team of any participant flagged as winner.
pub fn get_winning_team(data: &MatchPayload) -> (r: Result<u16, Error>)
    ensures
        r == match first_winner(data.participants@) {
            Some(t) => Ok::<u16, Error>(t),
            None => Err(Error::MissingData(MissingField::Winner)),
        },
{
    let ghost ps = data.participants@;
    let mut i: usize = 0;
    assert(ps.subrange(0, ps.len() as int) =~= ps);
    while i < data.participants.len()
        invariant
            0 <= i <= ps.len(),
            ps == data.participants@,
            first_winner(ps) == first_winner(ps.subrange(i as int, ps.len() as int)),
        decreases ps.len() - i,
    {
        let ghost rest = ps.subrange(i as int, ps.len() as int);
        assert(rest.drop_first() =~= ps.subrange(i + 1, ps.len() as int));
        if data.participants[i].win {
            return Ok(data.participants[i].team_id);
        }
        i = i + 1;
    }
    Err(Error::MissingData(MissingField::Winner))
}

/// Whether the game ended in surrender, read from the first participant.
pub fn get_surrender(data: &MatchPayload) -> (r: Result<bool, Error>)
    ensures
        r == if data.participants@.len() == 0 {
            Err(Error::MissingData(MissingField::Participants))
        } else {
            Ok::<bool, Error>(data.participants@[0].game_ended_in_surrender)
        },
{
    if data.participants.len() == 0 {
        Err(Error::MissingData(MissingField::Participants))
    } else {
        Ok(data.participants[0].game_ended_in_surrender)
    }
}

/// The stored form of a payload whose winning side is `winner`.
pub open spec fn is_record_of(m: Match, d: MatchPayload, winner: u16) -> bool {
    &&& m.id@ == d.match_id@
    &&& m.start_time == d.game_start_timestamp
    &&& m.duration == d.game_duration
    &&& m.queue_id == d.queue_id as i64
    &&& m.game_version@ == d.game_version@
    &&& m.game_mode@ == d.game_mode@
    &&& m.winning_team_id == winner as i64
    &&& m.surrender == d.participants@[0].game_ended_in_surrender
}

/// The match record of a payload, given whether its start timestamp is a
/// representable date. A payload without a winner is rejected whole.
pub fn build_match_record(data: &MatchPayload, start_in_range: bool) -> (r: Result<Match, Error>)
    ensures
        first_winner(data.participants@) is None ==> r == Err::<Match, Error>(
            Error::MissingData(MissingField::Winner),
        ),
        first_winner(data.participants@) is Some && !start_in_range ==> r == Err::<Match, Error>(
            Error::DateTimeOutOfRange,
        ),
        first_winner(data.participants@) is Some && start_in_range ==> (r matches Ok(m) && is_record_of(
            m,
            *data,
            first_winner(data.participants@)->0,
        )),
{
    let winning_team_id = match get_winning_team(data) {
        Ok(t) => t,
        Err(e) => return Err(e),
    };
    proof {
        lemma_winner_has_participants(data.participants@);
    }
    let surrender = match get_surrender(data) {
        Ok(s) => s,
        Err(e) => return Err(e),
    };
    if !start_in_range {
        return Err(Error::DateTimeOutOfRange);
    }
    Ok(Match {
        id: data.match_id.clone(),
        start_time: data.game_start_timestamp,
        duration: data.game_duration,
        queue_id: data.queue_id as i64,
        game_version: data.game_version.clone(),
        game_mode: data.game_mode.clone(),
        winning_team_id: winning_team_id as i64,
        surrender,
    })
}

proof fn lemma_winner_has_participants(ps: Seq<ParticipantPayload>)
    requires
        first_winner(ps) is Some,
    ensures
        ps.len() > 0,
{
}

/// The match record of a payload; its start timestamp is checked with chrono.
pub fn match_record(data: &MatchPayload) -> (r: Result<Match, Error>)
    ensures
        first_winner(data.participants@) is None ==> r == Err::<Match, Error>(
            Error::MissingData(MissingField::Winner),
        ),
        first_winner(data.participants@) is Some && !utc_millis_representable(
            data.game_start_timestamp,
        ) ==> r == Err::<Match, Error>(Error::DateTimeOutOfRange),
        first_winner(data.participants@) is Some && utc_millis_representable(
            data.game_start_timestamp,
        ) ==> (r matches Ok(m) && is_record_of(m, *data, first_winner(data.participants@)->0)),
{
    let ok = timestamp_in_range(data.game_start_timestamp);
    build_match_record(data, ok)
}

/// The stat line stored for participant `p` of payload `d`.
pub open spec fn is_row_of(row: SummonerMatch, d: MatchPayload, p: ParticipantPayload) -> bool {
    &&& row.puuid@ == p.puuid@
    &&& row.match_id@ == d.match_id@
    &&& row.kills == p.kills as i64
    &&& row.deaths == p.deaths as i64
    &&& row.assists == p.assists as i64
    &&& p.champion_id matches Some(c) && row.champion_id == c as i64
    &&& row.position == p.team_position
    &&& row.longest_time_living == p.longest_time_spent_living as i64
    &&& row.time_dead == p.total_time_spent_dead as i64
    &&& row.team_id == p.team_id as i64
}

/// Whether a stat line can be built for this identifier.
pub open spec fn row_buildable(d: MatchPayload, puuid: Seq<char>) -> bool {
    match find_participant(d.participants@, puuid) {
        Some(i) => d.participants@[i].champion_id is Some,
        None => false,
    }
}

proof fn lemma_find_participant(ps: Seq<ParticipantPayload>, puuid: Seq<char>)
    ensures
        match find_participant(ps, puuid) {
            Some(i) => 0 <= i < ps.len() && ps[i].puuid@ == puuid && forall|j: int|
                0 <= j < i ==> ps[j].puuid@ != puuid,
            None => forall|j: int| 0 <= j < ps.len() ==> ps[j].puuid@ != puuid,
        },
    decreases ps.len(),
{
    if ps.len() > 0 {
        lemma_find_participant(ps.drop_first(), puuid);
        assert forall|j: int| 1 <= j < ps.len() implies ps[j] == ps.drop_first()[j - 1] by {}
    }
}

/// The stat line of the participant with identifier `puuid`.
pub fn summoner_match_row(puuid: &String, data: &MatchPayload) -> (r: Result<SummonerMatch, Error>)
    ensures
        match find_participant(data.participants@, puuid@) {
            None => r == Err::<SummonerMatch, Error>(Error::MissingData(MissingField::MatchingPuuid)),
            Some(i) => if data.participants@[i].champion_id is None {
                r == Err::<SummonerMatch, Error>(Error::ParseChampion)
            } else {
                r matches Ok(row) && is_row_of(row, *data, data.participants@[i])
            },
        },
{
    let mut i: usize = 0;
    while i < data.participants.len()
        invariant
            0 <= i <= data.participants@.len(),
            forall|j: int| 0 <= j < i ==> data.participants@[j].puuid@ != puuid@,
        decreases data.participants@.len() - i,
    {
        let p = &data.participants[i];
        if p.puuid == *puuid {
            proof {
                lemma_find_participant(data.participants@, puuid@);
            }
            let champion_id = match p.champion_id {
                Some(c) => c,
                None => return Err(Error::ParseChampion),
            };
            return Ok(SummonerMatch {
                puuid: p.puuid.clone(),
                match_id: data.match_id.clone(),
                kills: p.kills as i64,
                deaths: p.deaths as i64,
                assists: p.assists as i64,
                champion_id: champion_id as i64,
                position: p.team_position.clone(),
                longest_time_living: p.longest_time_spent_living as i64,
                time_dead: p.total_time_spent_dead as i64,
                team_id: p.team_id as i64,
            });
        }
        i = i + 1;
    }
    proof {
        lemma_find_participant(data.participants@, puuid@);
    }
    Err(Error::MissingData(MissingField::MatchingPuuid))
}

/// What persisting a payload consists of: its match record, then for each
/// tracked participant whose stat line could be built, the line and the
/// notification query for it (`rows` and `queries` pair up by index).
#[derive(Debug)]
pub struct IngestPlan {
    pub record: Match,
    pub rows: Vec<SummonerMatch>,
    pub queries: Vec<SummonerMatchQuery>,
}

/// The identifiers, in order, that get a stat line and a query: those marked
/// as tracked whose stat line can be built.
pub open spec fn planned_ids(d: MatchPayload, ids: Seq<Seq<char>>, known: Seq<bool>) -> Seq<Seq<char>>
    decreases ids.len(),
{
    if ids.len() == 0 || known.len() != ids.len() {
        Seq::empty()
    } else {
        let rest = planned_ids(d, ids.drop_last(), known.drop_last());
        if known.last() && row_buildable(d, ids.last()) {
            rest.push(ids.last())
        } else {
            rest
        }
    }
}

/// Whether a plan holds, for each planned identifier in turn, its stat line
/// and its query.
pub open spec fn plan_pairs_match(
    d: MatchPayload,
    rows: Seq<SummonerMatch>,
    queries: Seq<SummonerMatchQuery>,
    planned: Seq<Seq<char>>,
) -> bool {
    &&& rows.len() == planned.len()
    &&& queries.len() == planned.len()
    &&& forall|k: int| 0 <= k < planned.len() ==> {
        &&& #[trigger] find_participant(d.participants@, planned[k]) matches Some(i)
        &&& is_row_of(rows[k], d, d.participants@[i])
    }
    &&& forall|k: int| 0 <= k < planned.len() ==> (#[trigger] queries[k])@.puuid == planned[k]
        && queries[k]@.match_id == d.match_id@
}

/// Plans the persistence of a payload. `known[i]` says whether
/// `participant_ids[i]` is a tracked player; `start_in_range` whether the
/// start timestamp is a representable date. A rejected record rejects the
/// whole payload; an untracked participant gets neither a stat line nor a
/// query.
pub fn plan_ingest(data: &MatchPayload, known: &Vec<bool>, start_in_range: bool) -> (r: Result<IngestPlan, Error>)
    requires
        known@.len() == data.participant_ids@.len(),
    ensures
        first_winner(data.participants@) is None ==> (r matches Err(e) && e == Error::MissingData(
            MissingField::Winner,
        )),
        first_winner(data.participants@) is Some && !start_in_range ==> (r matches Err(e) && e
            == Error::DateTimeOutOfRange),
        first_winner(data.participants@) is Some && start_in_range ==> (r matches Ok(plan) && {
            &&& is_record_of(plan.record, *data, first_winner(data.participants@)->0)
            &&& plan_pairs_match(
                *data,
                plan.rows@,
                plan.queries@,
                planned_ids(*data, data.participant_ids.deep_view(), known@),
            )
        }),
{
    let record = match build_match_record(data, start_in_range) {
        Ok(m) => m,
        Err(e) => return Err(e),
    };
    let ghost ids = data.participant_ids.deep_view();
    let mut rows: Vec<SummonerMatch> = Vec::new();
    let mut queries: Vec<SummonerMatchQuery> = Vec::new();
    let mut i: usize = 0;
    while i < data.participant_ids.len()
        invariant
            0 <= i <= ids.len(),
            ids == data.participant_ids.deep_view(),
            known@.len() == ids.len(),
            plan_pairs_match(
                *data,
                rows@,
                queries@,
                planned_ids(*data, ids.take(i as int), known@.take(i as int)),
            ),
        decreases ids.len() - i,
    {
        let ghost prev = planned_ids(*data, ids.take(i as int), known@.take(i as int));
        assert(ids.take(i + 1).drop_last() =~= ids.take(i as int));
        assert(known@.take(i + 1).drop_last() =~= known@.take(i as int));
        assert(ids.take(i + 1).last() == ids[i as int]);
        assert(ids[i as int] == data.participant_ids@[i as int]@);
        if known[i] {
            let puuid = &data.participant_ids[i];
            proof {
                lemma_find_participant(data.participants@, puuid@);
            }
            match summoner_match_row(puuid, data) {
                Ok(row) => {
                    let query = SummonerMatchQuery::for_row(&row);
                    rows.push(row);
                    queries.push(query);
                    let ghost now = prev.push(puuid@);
                    assert(planned_ids(*data, ids.take(i + 1), known@.take(i + 1)) == now);
                    assert forall|k: int| 0 <= k < now.len() implies {
                        &&& #[trigger] find_participant(data.participants@, now[k]) matches Some(j)
                        &&& is_row_of(rows@[k], *data, data.participants@[j])
                    } by {
                        if k < prev.len() {
                            assert(now[k] == prev[k]);
                        }
                    }
                    assert forall|k: int| 0 <= k < now.len() implies (#[trigger] queries@[k])@.puuid == now[k]
                        && queries@[k]@.match_id == data.match_id@ by {
                        if k < prev.len() {
                            assert(now[k] == prev[k]);
                        }
                    }
                },
                Err(_) => {
                    assert(!row_buildable(*data, puuid@));
                },
            }
        }
        i = i + 1;
    }
    assert(ids.take(ids.len() as int) =~= ids);
    assert(known@.take(ids.len() as int) =~= known@);
    Ok(IngestPlan { record, rows, queries })
}

/// Plans the persistence of a payload, checking its start timestamp with
/// chrono.
pub fn plan_match_ingest(data: &MatchPayload, known: &Vec<bool>) -> (r: Result<IngestPlan, Error>)
    requires
        known@.len() == data.participant_ids@.len(),
    ensures
        first_winner(data.participants@) is None ==> (r matches Err(e) && e == Error::MissingData(
            MissingField::Winner,
        )),
        first_winner(data.participants@) is Some && !utc_millis_representable(
            data.game_start_timestamp,
        ) ==> (r matches Err(e) && e == Error::DateTimeOutOfRange),
        first_winner(data.participants@) is Some && utc_millis_representable(
            data.game_start_timestamp,
        ) ==> (r matches Ok(plan) && {
            &&& is_record_of(plan.record, *data, first_winner(data.participants@)->0)
            &&& plan_pairs_match(
                *data,
                plan.rows@,
                plan.queries@,
                planned_ids(*data, data.participant_ids.deep_view(), known@),
            )
        }),
{
    let ok = timestamp_in_range(data.game_start_timestamp);
    plan_ingest(data, known, ok)
}

/// A participant that is not tracked gets no stat line and no query: its
/// identifier is not among the planned ones.
pub proof fn lemma_untracked_not_planned(
    d: MatchPayload,
    ids: Seq<Seq<char>>,
    known: Seq<bool>,
    puuid: Seq<char>,
)
    requires
        known.len() == ids.len(),
        forall|j: int| 0 <= j < ids.len() && ids[j] == puuid ==> !known[j],
    ensures
        !planned_ids(d, ids, known).contains(puuid),
    decreases ids.len(),
{
    if ids.len() > 0 {
        let ids0 = ids.drop_last();
        let t0 = known.drop_last();
        assert forall|j: int| 0 <= j < ids0.len() && ids0[j] == puuid implies !t0[j] by {
            assert(ids[j] == ids0[j]);
        }
        lemma_untracked_not_planned(d, ids0, t0, puuid);
        let rest = planned_ids(d, ids0, t0);
        if known.last() && row_buildable(d, ids.last()) {
            assert(ids[ids.len() - 1] != puuid);
            assert forall|k: int| 0 <= k < rest.push(ids.last()).len() implies rest.push(ids.last())[k] != puuid by {
                if k < rest.len() {
                    assert(rest[k] == rest.push(ids.last())[k]);
                }
            }
        }
    }
}

} // verus!
