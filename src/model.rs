use vstd::prelude::*;

verus! {

/// A chat destination (a guild) and the channel that notifications go to, if
/// one has been configured.
#[derive(Debug, Clone, Copy, PartialEq, Eq, Structural)]
pub struct Guild {
    pub id: i64,
    pub channel_id: Option<i64>,
}

/// A tracked player. `create_time` is in seconds since the Unix epoch.
#[derive(Debug, Clone)]
pub struct Summoner {
    pub puuid: String,
    pub game_name: String,
    pub tag: String,
    pub create_time: i64,
}

/// A stored match. `start_time` is in milliseconds since the Unix epoch and
/// `duration` in seconds.
#[derive(Debug, Clone)]
pub struct Match {
    pub id: String,
    pub start_time: i64,
    pub duration: i64,
    pub queue_id: i64,
    pub game_version: String,
    pub game_mode: String,
    pub winning_team_id: i64,
    pub surrender: bool,
}

/// A destination following a player.
#[derive(Debug, Clone)]
pub struct GuildFollowing {
    pub guild_id: i64,
    pub puuid: String,
}

/// The stat line of one tracked player in one match.
#[derive(Debug, Clone)]
pub struct SummonerMatch {
    pub puuid: String,
    pub match_id: String,
    pub kills: i64,
    pub deaths: i64,
    pub assists: i64,
    pub champion_id: i64,
    pub position: Option<String>,
    pub longest_time_living: i64,
    pub time_dead: i64,
    pub team_id: i64,
}

/// The handle sent across the process boundary: which player's stat line in
/// which match needs evaluating.
#[derive(Debug, Clone)]
pub struct SummonerMatchQuery {
    pub puuid: String,
    pub match_id: String,
}

/// The mathematical value of a [`SummonerMatchQuery`].
pub struct QueryView {
    pub puuid: Seq<char>,
    pub match_id: Seq<char>,
}

impl View for SummonerMatchQuery {
    type V = QueryView;

    open spec fn view(&self) -> QueryView {
        QueryView { puuid: self.puuid@, match_id: self.match_id@ }
    }
}

/// A rendered message for one delivery channel.
#[derive(Debug, Clone)]
pub struct IntNotification {
    pub channel_id: u64,
    pub message: String,
}

/// A display name and tag to look an account up by.
#[derive(Debug, Clone)]
pub struct UsernameAndTag(pub String, pub String);

/// A request to start tracking the account with this name and tag.
#[derive(Debug, Clone)]
pub struct NewAccountData {
    pub game_name: String,
    pub tag_line: String,
}

impl SummonerMatch {
    /// A copy of the stat line.
    pub fn duplicate(&self) -> (r: SummonerMatch)
        ensures
            r == *self,
    {
        SummonerMatch {
            puuid: self.puuid.clone(),
            match_id: self.match_id.clone(),
            kills: self.kills,
            deaths: self.deaths,
            assists: self.assists,
            champion_id: self.champion_id,
            position: self.position.clone(),
            longest_time_living: self.longest_time_living,
            time_dead: self.time_dead,
            team_id: self.team_id,
        }
    }
}

impl SummonerMatchQuery {
    /// The query that names the player and match of a stat line.
    pub fn for_row(row: &SummonerMatch) -> (r: SummonerMatchQuery)
        ensures
            r.puuid@ == row.puuid@,
            r.match_id@ == row.match_id@,
    {
        SummonerMatchQuery { puuid: row.puuid.clone(), match_id: row.match_id.clone() }
    }
}

} // verus!
