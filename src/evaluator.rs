use crate::model::SummonerMatch;
use crate::role::{role_of_position, Role};
use vstd::prelude::*;

verus! {

/// The ordered severity scale of a classification.
#[derive(Debug, Clone, Copy, PartialEq, Eq, Structural, PartialOrd, Ord, Hash)]
pub enum IntLevel {
    Not,
    Insignificant,
    Normal,
    Big,
    Turbo,
}

/// The rank of a level on the severity scale.
pub open spec fn level_rank(l: IntLevel) -> int {
    match l {
        IntLevel::Not => 0,
        IntLevel::Insignificant => 1,
        IntLevel::Normal => 2,
        IntLevel::Big => 3,
        IntLevel::Turbo => 4,
    }
}

/// A weighted score, in hundredths.
#[derive(Debug, Clone, Copy, PartialEq, Eq, Structural, Default)]
pub struct WeightedKda(pub i128);

/// Weights of kills, deaths and assists, each in hundredths (a weight of
/// `50` counts a half).
#[derive(Debug, Clone, Copy, PartialEq, Eq, Structural)]
pub struct Weights {
    pub kill_weight: i32,
    pub death_weight: i32,
    pub assist_weight: i32,
}

/// The weighted linear combination of a stat line, in hundredths.
pub open spec fn weighted_score(w: Weights, kills: int, deaths: int, assists: int) -> int {
    w.kill_weight * kills + w.death_weight * deaths + w.assist_weight * assists
}

impl Weights {
    /// The weighted score of a stat line.
    pub fn calculate_weighted_kda(&self, stats: &SummonerMatch) -> (r: WeightedKda)
        ensures
            r.0 == weighted_score(*self, stats.kills as int, stats.deaths as int, stats.assists as int),
    {
        let k = stats.kills as i128;
        let d = stats.deaths as i128;
        let a = stats.assists as i128;
        let kw = self.kill_weight as i128;
        let dw = self.death_weight as i128;
        let aw = self.assist_weight as i128;
        assert(-0x8000_0000_0000_0000_0000_0000 <= kw * k <= 0x8000_0000_0000_0000_0000_0000)
            by (nonlinear_arith)
            requires
                -0x8000_0000 <= kw <= 0x8000_0000,
                -0x8000_0000_0000_0000 <= k <= 0x8000_0000_0000_0000,
        ;
        assert(-0x8000_0000_0000_0000_0000_0000 <= dw * d <= 0x8000_0000_0000_0000_0000_0000)
            by (nonlinear_arith)
            requires
                -0x8000_0000 <= dw <= 0x8000_0000,
                -0x8000_0000_0000_0000 <= d <= 0x8000_0000_0000_0000,
        ;
        assert(-0x8000_0000_0000_0000_0000_0000 <= aw * a <= 0x8000_0000_0000_0000_0000_0000)
            by (nonlinear_arith)
            requires
                -0x8000_0000 <= aw <= 0x8000_0000,
                -0x8000_0000_0000_0000 <= a <= 0x8000_0000_0000_0000,
        ;
        WeightedKda(kw * k + dw * d + aw * a)
    }
}

/// One weighting profile per role.
#[derive(Debug, Clone, Copy, PartialEq, Eq, Structural)]
pub struct RoleWeights {
    pub top: Weights,
    pub jungle: Weights,
    pub mid: Weights,
    pub bot: Weights,
    pub support: Weights,
    pub other: Weights,
}

/// The weighting profile of a role.
pub open spec fn weights_of(t: RoleWeights, role: Role) -> Weights {
    match role {
        Role::Top => t.top,
        Role::Jungle => t.jungle,
        Role::Mid => t.mid,
        Role::Bot => t.bot,
        Role::Support => t.support,
        Role::Other => t.other,
    }
}

impl RoleWeights {
    /// The weighting profile of a role.
    pub fn for_role(&self, role: Role) -> (r: Weights)
        ensures
            r == weights_of(*self, role),
    {
        match role {
            Role::Top => self.top,
            Role::Jungle => self.jungle,
            Role::Mid => self.mid,
            Role::Bot => self.bot,
            Role::Support => self.support,
            Role::Other => self.other,
        }
    }
}

/// A death-count bucket: deaths in `start..end` (end excluded) give `level`.
#[derive(Debug, Clone, Copy, PartialEq, Eq, Structural)]
pub struct LevelRange {
    pub level: IntLevel,
    pub start: i64,
    pub end: i64,
}

/// A stat line with at most `max_deaths` deaths and at least `min_kills`
/// kills is never noteworthy.
#[derive(Debug, Clone, Copy, PartialEq, Eq, Structural)]
pub struct InsignificanceFloor {
    pub max_deaths: i64,
    pub min_kills: i64,
}

/// The level of the first bucket that holds `deaths`, or `Not` where none does.
pub open spec fn bucket_level(ranges: Seq<LevelRange>, deaths: int) -> IntLevel
    decreases ranges.len(),
{
    if ranges.len() == 0 {
        IntLevel::Not
    } else if ranges[0].start <= deaths < ranges[0].end {
        ranges[0].level
    } else {
        bucket_level(ranges.drop_first(), deaths)
    }
}

/// Whether the floor, if any, rules the stat line out.
pub open spec fn below_floor(floor: Option<InsignificanceFloor>, kills: int, deaths: int) -> bool {
    match floor {
        Some(f) => deaths <= f.max_deaths && kills >= f.min_kills,
        None => false,
    }
}

/// The evaluator's configuration: loaded once, then read only.
#[derive(Debug, Clone)]
pub struct MatchEvaluator {
    pub kda_weights: RoleWeights,
    pub kda_threshold: WeightedKda,
    pub level_ranges: Vec<LevelRange>,
    pub insignificance: Option<InsignificanceFloor>,
}

/// The evaluator under the name the notification side uses.
pub type MatchStatsEvaluator = MatchEvaluator;

/// The level of a stat line whose weighted score is already known: above the
/// threshold (or below the floor) it is `Not`; at or below the threshold it
/// is at least the lowest noteworthy tier, raised to the level of the first
/// death bucket that holds the deaths, where one does.
pub open spec fn level_for_score(
    threshold: int,
    ranges: Seq<LevelRange>,
    floor: Option<InsignificanceFloor>,
    score: int,
    kills: int,
    deaths: int,
) -> IntLevel {
    if below_floor(floor, kills, deaths) {
        IntLevel::Not
    } else if score > threshold {
        IntLevel::Not
    } else {
        match bucket_level(ranges, deaths) {
            IntLevel::Not => IntLevel::Insignificant,
            level => level,
        }
    }
}

/// The classification of a stat line played in `role`.
pub open spec fn level_for(
    ev: MatchEvaluator,
    role: Role,
    kills: int,
    deaths: int,
    assists: int,
) -> IntLevel {
    level_for_score(
        ev.kda_threshold.0 as int,
        ev.level_ranges@,
        ev.insignificance,
        weighted_score(weights_of(ev.kda_weights, role), kills, deaths, assists),
        kills,
        deaths,
    )
}

/// The result of evaluating a stat line.
#[derive(Debug, Clone, Copy, PartialEq, Eq, Structural)]
pub struct Evaluation {
    pub level: IntLevel,
}

impl MatchEvaluator {
    pub fn new(
        kda_weights: RoleWeights,
        kda_threshold: WeightedKda,
        level_ranges: Vec<LevelRange>,
        insignificance: Option<InsignificanceFloor>,
    ) -> (r: MatchEvaluator)
        ensures
            r.kda_weights == kda_weights,
            r.kda_threshold == kda_threshold,
            r.level_ranges@ == level_ranges@,
            r.insignificance == insignificance,
    {
        MatchEvaluator { kda_weights, kda_threshold, level_ranges, insignificance }
    }

    /// Classifies a stat line played in a given role.
    pub fn classify(&self, stats: &SummonerMatch, role: Role) -> (r: Evaluation)
        ensures
            r.level == level_for(*self, role, stats.kills as int, stats.deaths as int, stats.assists as int),
    {
        if let Some(f) = self.insignificance {
            if stats.deaths <= f.max_deaths && stats.kills >= f.min_kills {
                return Evaluation { level: IntLevel::Not };
            }
        }
        let kda = self.kda_weights.for_role(role).calculate_weighted_kda(stats);
        if kda.0 > self.kda_threshold.0 {
            return Evaluation { level: IntLevel::Not };
        }
        if self.level_ranges.len() == 0 {
            return Evaluation { level: IntLevel::Insignificant };
        }
        let mut i: usize = 0;
        assert(self.level_ranges@.subrange(0, self.level_ranges@.len() as int) =~= self.level_ranges@);
        while i < self.level_ranges.len()
            invariant
                0 <= i <= self.level_ranges@.len(),
                self.level_ranges@.len() > 0,
                !below_floor(self.insignificance, stats.kills as int, stats.deaths as int),
                kda.0 == weighted_score(weights_of(self.kda_weights, role), stats.kills as int, stats.deaths as int, stats.assists as int),
                kda.0 <= self.kda_threshold.0,
                bucket_level(self.level_ranges@, stats.deaths as int) == bucket_level(
                    self.level_ranges@.subrange(i as int, self.level_ranges@.len() as int),
                    stats.deaths as int,
                ),
            decreases self.level_ranges@.len() - i,
        {
            let range = self.level_ranges[i];
            let ghost rest = self.level_ranges@.subrange(i as int, self.level_ranges@.len() as int);
            assert(rest.drop_first() =~= self.level_ranges@.subrange(
                i + 1,
                self.level_ranges@.len() as int,
            ));
            assert(rest[0] == range);
            if range.start <= stats.deaths && stats.deaths < range.end {
                return match range.level {
                    IntLevel::Not => Evaluation { level: IntLevel::Insignificant },
                    level => Evaluation { level },
                };
            }
            i = i + 1;
        }
        Evaluation { level: IntLevel::Insignificant }
    }

    /// Classifies a stat line, taking the role from its position.
    pub fn evaluate(&self, stats: &SummonerMatch) -> (r: Evaluation)
        ensures
            r.level == level_for(
                *self,
                match stats.position {
                    Some(p) => role_of_position(p@),
                    None => Role::Other,
                },
                stats.kills as int,
                stats.deaths as int,
                stats.assists as int,
            ),
    {
        let role = Role::from_optional(&stats.position);
        self.classify(stats, role)
    }

    /// Whether a stat line is noteworthy, that is classified above `Not`.
    pub fn is_int(&self, stats: &SummonerMatch) -> (r: bool)
        ensures
            r == (level_for(
                *self,
                match stats.position {
                    Some(p) => role_of_position(p@),
                    None => Role::Other,
                },
                stats.kills as int,
                stats.deaths as int,
                stats.assists as int,
            ) != IntLevel::Not),
    {
        let e = self.evaluate(stats);
        match e.level {
            IntLevel::Not => false,
            _ => true,
        }
    }
}

/// A stat line whose weighted score is at or below the threshold, and that
/// the floor does not rule out, is at or above the lowest noteworthy tier,
/// whatever death buckets are configured.
pub proof fn lemma_at_or_below_threshold_is_noteworthy(
    ev: MatchEvaluator,
    role: Role,
    kills: int,
    deaths: int,
    assists: int,
)
    requires
        weighted_score(weights_of(ev.kda_weights, role), kills, deaths, assists) <= ev.kda_threshold.0,
        !below_floor(ev.insignificance, kills, deaths),
    ensures
        level_rank(level_for(ev, role, kills, deaths, assists)) >= level_rank(IntLevel::Insignificant),
{
}

/// Classification is a function of the configuration, the role and the stat
/// line: equal inputs give the same level.
pub proof fn lemma_classification_deterministic(
    a: MatchEvaluator,
    b: MatchEvaluator,
    role: Role,
    kills: int,
    deaths: int,
    assists: int,
)
    requires
        a.kda_weights == b.kda_weights,
        a.kda_threshold == b.kda_threshold,
        a.level_ranges@ == b.level_ranges@,
        a.insignificance == b.insignificance,
    ensures
        level_for(a, role, kills, deaths, assists) == level_for(b, role, kills, deaths, assists),
{
}

/// Replacing only the weighting table changes the classification through the
/// weighted score alone, which is the linear combination of the new role's
/// weights with kills, deaths and assists.
pub proof fn lemma_weights_act_linearly(
    a: MatchEvaluator,
    b: MatchEvaluator,
    role: Role,
    kills: int,
    deaths: int,
    assists: int,
)
    requires
        a.kda_threshold == b.kda_threshold,
        a.level_ranges@ == b.level_ranges@,
        a.insignificance == b.insignificance,
    ensures
        level_for(b, role, kills, deaths, assists) == level_for_score(
            a.kda_threshold.0 as int,
            a.level_ranges@,
            a.insignificance,
            weights_of(b.kda_weights, role).kill_weight * kills
                + weights_of(b.kda_weights, role).death_weight * deaths
                + weights_of(b.kda_weights, role).assist_weight * assists,
            kills,
            deaths,
        ),
        weighted_score(weights_of(b.kda_weights, role), kills, deaths, assists)
            - weighted_score(weights_of(a.kda_weights, role), kills, deaths, assists)
            == (weights_of(b.kda_weights, role).kill_weight - weights_of(a.kda_weights, role).kill_weight) * kills
                + (weights_of(b.kda_weights, role).death_weight - weights_of(a.kda_weights, role).death_weight) * deaths
                + (weights_of(b.kda_weights, role).assist_weight - weights_of(a.kda_weights, role).assist_weight) * assists,
{
    let wa = weights_of(a.kda_weights, role);
    let wb = weights_of(b.kda_weights, role);
    assert((wb.kill_weight - wa.kill_weight) * kills == wb.kill_weight * kills - wa.kill_weight * kills)
        by (nonlinear_arith);
    assert((wb.death_weight - wa.death_weight) * deaths == wb.death_weight * deaths - wa.death_weight * deaths)
        by (nonlinear_arith);
    assert((wb.assist_weight - wa.assist_weight) * assists == wb.assist_weight * assists - wa.assist_weight * assists)
        by (nonlinear_arith);
}

} // verus!
