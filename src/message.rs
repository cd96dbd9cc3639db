//! Rendering of notification messages from per-level templates.
//!
//! A template may hold `%s` (display name), `%S` (display name in upper
//! case), `%d` (deaths) and `%k` (kills).
use crate::evaluator::IntLevel;
use crate::model::{Summoner, SummonerMatch};
use vstd::prelude::*;

verus! {

/// Text with every occurrence of `from` replaced by `to`, as `str::replace`
/// computes it.
pub uninterp spec fn replaced(s: Seq<char>, from: Seq<char>, to: Seq<char>) -> Seq<char>;

/// The uppercase form of a string, as `str::to_uppercase` computes it.
pub uninterp spec fn upper_of(s: Seq<char>) -> Seq<char>;

/// Relies on `str::replace`: the result depends on the three strings alone.
#[verifier::external_body]
fn replace_all(s: &str, from: &str, to: &str) -> (r: String)
    ensures
        r@ == replaced(s@, from@, to@),
{
    s.replace(from, to)
}

/// Relies on `str::to_uppercase`: the result depends on the characters alone.
#[verifier::external_body]
fn uppercase(s: &str) -> (r: String)
    ensures
        r@ == upper_of(s@),
{
    s.to_uppercase()
}

/// The decimal digit for `d`.
pub open spec fn digit_char(d: nat) -> char {
    if d == 0 { '0' }
    else if d == 1 { '1' }
    else if d == 2 { '2' }
    else if d == 3 { '3' }
    else if d == 4 { '4' }
    else if d == 5 { '5' }
    else if d == 6 { '6' }
    else if d == 7 { '7' }
    else if d == 8 { '8' }
    else { '9' }
}

/// The decimal digits of a natural number, without leading zeros.
pub open spec fn digits_of(n: nat) -> Seq<char>
    decreases n,
{
    if n < 10 {
        seq![digit_char(n)]
    } else {
        digits_of(n / 10).push(digit_char(n % 10))
    }
}

/// The decimal text of an integer, with a leading `-` where it is negative.
pub open spec fn decimal_text(n: int) -> Seq<char> {
    if n < 0 {
        seq!['-'] + digits_of((-n) as nat)
    } else {
        digits_of(n as nat)
    }
}

/// Relies on `i64`'s `Display`: decimal digits, with a leading `-` for a
/// negative number.
#[verifier::external_body]
fn decimal(n: i64) -> (r: String)
    ensures
        r@ == decimal_text(n as int),
{
    n.to_string()
}

/// The message a template gives for a player's stat line.
pub open spec fn rendered(template: Seq<char>, name: Seq<char>, deaths: int, kills: int) -> Seq<char> {
    replaced(
        replaced(
            replaced(replaced(template, seq!['%', 's'], name), seq!['%', 'S'], upper_of(name)),
            seq!['%', 'd'],
            decimal_text(deaths),
        ),
        seq!['%', 'k'],
        decimal_text(kills),
    )
}

/// The templates for one severity level.
#[derive(Debug, Clone)]
pub struct LevelTemplates {
    pub level: IntLevel,
    pub templates: Vec<String>,
}

/// The templates of the first entry for a level.
pub open spec fn templates_of(entries: Seq<LevelTemplates>, level: IntLevel) -> Option<Seq<String>>
    decreases entries.len(),
{
    if entries.len() == 0 {
        None
    } else if entries[0].level == level {
        Some(entries[0].templates@)
    } else {
        templates_of(entries.drop_first(), level)
    }
}

/// Builds notification messages from per-level templates.
#[derive(Debug, Clone)]
pub struct MessageBuilder {
    pub templates: Vec<LevelTemplates>,
}

impl MessageBuilder {
    pub fn new(templates: Vec<LevelTemplates>) -> (r: MessageBuilder)
        ensures
            r.templates@ == templates@,
    {
        MessageBuilder { templates }
    }

    /// The index of the first entry for a level.
    fn entry_of(&self, level: IntLevel) -> (r: Option<usize>)
        ensures
            match r {
                Some(i) => i < self.templates@.len() && templates_of(self.templates@, level) == Some(
                    self.templates@[i as int].templates@,
                ),
                None => templates_of(self.templates@, level) is None,
            },
    {
        let ghost t = self.templates@;
        let mut i: usize = 0;
        assert(t.subrange(0, t.len() as int) =~= t);
        while i < self.templates.len()
            invariant
                0 <= i <= t.len(),
                t == self.templates@,
                templates_of(t, level) == templates_of(t.subrange(i as int, t.len() as int), level),
            decreases t.len() - i,
        {
            let ghost rest = t.subrange(i as int, t.len() as int);
            assert(rest.drop_first() =~= t.subrange(i + 1, t.len() as int));
            if self.templates[i].level == level {
                return Some(i);
            }
            i = i + 1;
        }
        None
    }

    /// How many templates there are for a level.
    pub fn template_count(&self, level: IntLevel) -> (r: usize)
        ensures
            r == match templates_of(self.templates@, level) {
                Some(ts) => ts.len(),
                None => 0,
            },
    {
        match self.entry_of(level) {
            Some(i) => self.templates[i].templates.len(),
            None => 0,
        }
    }

    /// Renders template `choice` of a level for a player's stat line; `None`
    /// where the level has no template with that index.
    pub fn build_message(
        &self,
        summoner_match: &SummonerMatch,
        summoner: &Summoner,
        level: IntLevel,
        choice: usize,
    ) -> (r: Option<String>)
        ensures
            match templates_of(self.templates@, level) {
                Some(ts) => if choice < ts.len() {
                    r matches Some(m) && m@ == rendered(
                        ts[choice as int]@,
                        summoner.game_name@,
                        summoner_match.deaths as int,
                        summoner_match.kills as int,
                    )
                } else {
                    r is None
                },
                None => r is None,
            },
    {
        let i = match self.entry_of(level) {
            Some(i) => i,
            None => return None,
        };
        if choice >= self.templates[i].templates.len() {
            return None;
        }
        let template = &self.templates[i].templates[choice];
        let name = summoner.game_name.as_str();
        let upper = uppercase(name);
        let deaths = decimal(summoner_match.deaths);
        let kills = decimal(summoner_match.kills);
        proof {
            reveal_strlit("%s");
            reveal_strlit("%S");
            reveal_strlit("%d");
            reveal_strlit("%k");
            assert("%s"@ =~= seq!['%', 's']);
            assert("%S"@ =~= seq!['%', 'S']);
            assert("%d"@ =~= seq!['%', 'd']);
            assert("%k"@ =~= seq!['%', 'k']);
        }
        let step = replace_all(template.as_str(), "%s", name);
        let step = replace_all(step.as_str(), "%S", upper.as_str());
        let step = replace_all(step.as_str(), "%d", deaths.as_str());
        let message = replace_all(step.as_str(), "%k", kills.as_str());
        Some(message)
    }
}

} // verus!
