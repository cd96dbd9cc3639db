use crate::evaluator::{level_for, IntLevel, MatchEvaluator};
use crate::model::{Guild, SummonerMatch};
use crate::role::{role_of_position, Role};
use vstd::prelude::*;

verus! {

/// What the dispatch loop does with one received query, once the stat line
/// and match record it names have been looked up.
#[derive(Debug, Clone, Copy, PartialEq, Eq, Structural)]
pub enum DispatchDecision {
    /// No stat line is stored for the query: it is dropped.
    MissingStats,
    /// No match record is stored for the stat line: it is dropped.
    MissingMatch,
    /// The stat line is below the noteworthy floor: nothing is sent.
    NotNoteworthy,
    /// The stat line is noteworthy at this level: the subscribed
    /// destinations are notified.
    Notify(IntLevel),
}

/// The role a stat line was played in.
pub open spec fn role_of_row(row: SummonerMatch) -> Role {
    match row.position {
        Some(p) => role_of_position(p@),
        None => Role::Other,
    }
}

/// The decision for a query whose stat line lookup gave `row` and whose
/// match lookup found a record or not.
pub open spec fn decision_of(ev: MatchEvaluator, row: Option<SummonerMatch>, match_found: bool) -> DispatchDecision {
    match row {
        None => DispatchDecision::MissingStats,
        Some(s) => if !match_found {
            DispatchDecision::MissingMatch
        } else {
            let level = level_for(ev, role_of_row(s), s.kills as int, s.deaths as int, s.assists as int);
            if level == IntLevel::Not {
                DispatchDecision::NotNoteworthy
            } else {
                DispatchDecision::Notify(level)
            }
        },
    }
}

/// Decides what to do with one received query.
pub fn decide(ev: &MatchEvaluator, row: &Option<SummonerMatch>, match_found: bool) -> (r: DispatchDecision)
    ensures
        r == decision_of(*ev, *row, match_found),
{
    match row {
        None => DispatchDecision::MissingStats,
        Some(s) => {
            if !match_found {
                return DispatchDecision::MissingMatch;
            }
            let e = ev.evaluate(s);
            match e.level {
                IntLevel::Not => DispatchDecision::NotNoteworthy,
                level => DispatchDecision::Notify(level),
            }
        },
    }
}

/// The delivery channels, in order, of the destinations that have one
/// configured.
pub open spec fn channels_of(guilds: Seq<Guild>) -> Seq<i64>
    decreases guilds.len(),
{
    if guilds.len() == 0 {
        Seq::empty()
    } else {
        let rest = channels_of(guilds.drop_last());
        match guilds.last().channel_id {
            Some(c) => rest.push(c),
            None => rest,
        }
    }
}

/// The channels to deliver to for a set of subscribed destinations;
/// destinations without a configured channel are skipped.
pub fn delivery_channels(guilds: &Vec<Guild>) -> (r: Vec<i64>)
    ensures
        r@ == channels_of(guilds@),
{
    let mut out: Vec<i64> = Vec::new();
    let mut i: usize = 0;
    while i < guilds.len()
        invariant
            0 <= i <= guilds@.len(),
            out@ == channels_of(guilds@.take(i as int)),
        decreases guilds@.len() - i,
    {
        assert(guilds@.take(i + 1).drop_last() =~= guilds@.take(i as int));
        assert(guilds@.take(i + 1).last() == guilds@[i as int]);
        if let Some(c) = guilds[i].channel_id {
            out.push(c);
        }
        i = i + 1;
    }
    assert(guilds@.take(guilds@.len() as int) =~= guilds@);
    out
}

} // verus!
