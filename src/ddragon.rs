//! Static game data: which published data version fits a match's game
//! version, and the champion names of each version, cached.
use std::collections::HashMap;
use vstd::prelude::*;

verus! {

broadcast use vstd::std_specs::hash::group_hash_axioms;

/// Where the list of published data versions is fetched from.
pub const VERSIONS_URL: &'static str = "https://ddragon.leagueoflegends.com/api/versions.json";

/// The game version a match was played on, such as `14.3.558.106`.
#[derive(Debug, PartialEq, Eq, Clone)]
pub struct GameVersion(pub String);

/// A published data version, such as `14.3.1`.
#[derive(Debug, Hash, PartialEq, Eq, Clone)]
pub struct DataDragonVersion(pub String);

/// The champion names of one data version, by champion identifier.
#[derive(Debug)]
pub struct DataDragonBlob {
    pub champions: HashMap<u16, String>,
}

/// One champion as the data files list it: its identifier as text, and its
/// name.
#[derive(Debug, Clone)]
pub struct ChampionEntry {
    pub key: String,
    pub name: String,
}

/// A champion identifier that is not a number in range.
#[derive(Debug, Clone, Copy, PartialEq, Eq, Structural)]
pub struct InvalidChampionKey;

/// How many characters of a version lie before its second dot (all of them
/// where it has fewer than two).
pub open spec fn cut_len(s: Seq<char>, seen_dot: bool) -> nat
    decreases s.len(),
{
    if s.len() == 0 {
        0
    } else if s[0] == '.' && seen_dot {
        0
    } else {
        1 + cut_len(s.drop_first(), seen_dot || s[0] == '.')
    }
}

/// The first two dot-separated parts of a version.
pub open spec fn major_minor(s: Seq<char>) -> Seq<char> {
    s.take(cut_len(s, false) as int)
}

/// Whether `s` begins with `p`.
pub open spec fn has_prefix(s: Seq<char>, p: Seq<char>) -> bool {
    p.len() <= s.len() && s.take(p.len() as int) == p
}

/// The first of `versions` that begins with `prefix`.
pub open spec fn first_with_prefix(versions: Seq<Seq<char>>, prefix: Seq<char>) -> Option<Seq<char>>
    decreases versions.len(),
{
    if versions.len() == 0 {
        None
    } else if has_prefix(versions[0], prefix) {
        Some(versions[0])
    } else {
        first_with_prefix(versions.drop_first(), prefix)
    }
}

/// The value of a string of decimal digits.
pub open spec fn digits_value(s: Seq<char>) -> int
    decreases s.len(),
{
    if s.len() == 0 {
        0
    } else {
        digits_value(s.drop_last()) * 10 + (s.last() as int - '0' as int)
    }
}

/// The number that text stands for as `u16::from_str` reads it: an optional
/// `+`, then one or more ASCII digits, of value at most `65535`.
pub open spec fn decimal_u16(s: Seq<char>) -> Option<u16> {
    let d = if s.len() > 0 && s[0] == '+' {
        s.drop_first()
    } else {
        s
    };
    if d.len() > 0 && (forall|i: int| 0 <= i < d.len() ==> '0' <= #[trigger] d[i] <= '9')
        && digits_value(d) <= 65535 {
        Some(digits_value(d) as u16)
    } else {
        None
    }
}

/// Relies on `u16::from_str`: an optional `+` and decimal digits, in range.
#[verifier::external_body]
fn parse_u16(s: &str) -> (r: Option<u16>)
    ensures
        r == decimal_u16(s@),
{
    s.parse::<u16>().ok()
}

/// Whether `s` begins with `p`.
fn starts_with(s: &str, p: &str) -> (r: bool)
    ensures
        r == has_prefix(s@, p@),
{
    let n = p.unicode_len();
    if n > s.unicode_len() {
        return false;
    }
    let mut i: usize = 0;
    while i < n
        invariant
            n == p@.len(),
            n <= s@.len(),
            i <= n,
            forall|j: int| 0 <= j < i ==> s@[j] == p@[j],
        decreases n - i,
    {
        if s.get_char(i) != p.get_char(i) {
            assert(s@.take(n as int)[i as int] != p@[i as int]);
            return false;
        }
        i = i + 1;
    }
    assert(s@.take(n as int) =~= p@);
    true
}

impl GameVersion {
    /// The first two dot-separated parts of the version.
    pub fn major_minor(&self) -> (r: &str)
        ensures
            r@ == major_minor(self.0@),
    {
        let s = self.0.as_str();
        let n = s.unicode_len();
        let mut i: usize = 0;
        let mut seen_dot = false;
        assert(s@.subrange(0, n as int) =~= s@);
        while i < n && !(s.get_char(i) == '.' && seen_dot)
            invariant
                n == s@.len(),
                s@ == self.0@,
                i <= n,
                cut_len(s@, false) == i + cut_len(s@.subrange(i as int, n as int), seen_dot),
            decreases n - i,
        {
            let c = s.get_char(i);
            let ghost rest = s@.subrange(i as int, n as int);
            assert(rest.drop_first() =~= s@.subrange(i + 1, n as int));
            if c == '.' {
                seen_dot = true;
            }
            i = i + 1;
        }
        assert(cut_len(s@.subrange(i as int, n as int), seen_dot) == 0);
        assert(s@.take(i as int) =~= s@.subrange(0, i as int));
        s.substring_char(0, i)
    }

    /// The published data version that fits this game version: the first of
    /// `versions`, as the version list gives them, that begins with the
    /// first two parts of this one.
    pub fn to_data_dragon_version(&self, versions: &Vec<String>) -> (r: Option<DataDragonVersion>)
        ensures
            r matches Some(v) ==> first_with_prefix(versions.deep_view(), major_minor(self.0@))
                == Some(v.0@),
            r is None ==> first_with_prefix(versions.deep_view(), major_minor(self.0@)) is None,
    {
        let prefix = self.major_minor();
        let ghost vs = versions.deep_view();
        let mut i: usize = 0;
        assert(vs.subrange(0, vs.len() as int) =~= vs);
        while i < versions.len()
            invariant
                0 <= i <= vs.len(),
                vs == versions.deep_view(),
                prefix@ == major_minor(self.0@),
                first_with_prefix(vs, prefix@) == first_with_prefix(
                    vs.subrange(i as int, vs.len() as int),
                    prefix@,
                ),
            decreases vs.len() - i,
        {
            let ghost rest = vs.subrange(i as int, vs.len() as int);
            assert(rest.drop_first() =~= vs.subrange(i + 1, vs.len() as int));
            assert(rest[0] == versions@[i as int]@);
            if starts_with(versions[i].as_str(), prefix) {
                return Some(DataDragonVersion(versions[i].clone()));
            }
            i = i + 1;
        }
        None
    }
}

impl DataDragonVersion {
    /// The version's text, as used in data file addresses.
    pub fn as_str(&self) -> (r: &str)
        ensures
            r@ == self.0@,
    {
        self.0.as_str()
    }
}

/// The names by identifier that a list of champions gives, a later entry
/// winning over an earlier one with the same identifier; `None` where an
/// identifier does not parse.
pub open spec fn champions_of(entries: Seq<ChampionEntry>) -> Option<Map<u16, String>>
    decreases entries.len(),
{
    if entries.len() == 0 {
        Some(Map::empty())
    } else {
        match (champions_of(entries.drop_last()), decimal_u16(entries.last().key@)) {
            (Some(m), Some(k)) => Some(m.insert(k, entries.last().name)),
            _ => None,
        }
    }
}

/// A cache of champion names per data version.
#[derive(Debug)]
pub struct DataDragon {
    cache: Vec<(DataDragonVersion, DataDragonBlob)>,
}

/// The champion names cached for a version, if any: the first entry of it.
pub open spec fn cached_names(cache: Seq<(DataDragonVersion, DataDragonBlob)>, v: Seq<char>) -> Option<Map<u16, String>>
    decreases cache.len(),
{
    if cache.len() == 0 {
        None
    } else if cache[0].0.0@ == v {
        Some(cache[0].1.champions@)
    } else {
        cached_names(cache.drop_first(), v)
    }
}

impl DataDragon {
    /// The champion names cached for a version.
    pub closed spec fn names(&self, v: Seq<char>) -> Option<Map<u16, String>> {
        cached_names(self.cache@, v)
    }

    /// An empty cache.
    pub fn new() -> (r: DataDragon)
        ensures
            forall|v: Seq<char>| r.names(v) is None,
    {
        DataDragon { cache: Vec::new() }
    }

    /// The index of the first cache entry for a version.
    fn find(&self, version: &DataDragonVersion) -> (r: Option<usize>)
        ensures
            match r {
                Some(i) => i < self.cache@.len() && self.names(version.0@) == Some(
                    self.cache@[i as int].1.champions@,
                ) && self.cache@[i as int].0.0@ == version.0@ && forall|j: int|
                    0 <= j < i ==> (#[trigger] self.cache@[j]).0.0@ != version.0@,
                None => self.names(version.0@) is None,
            },
    {
        let ghost c = self.cache@;
        let mut i: usize = 0;
        assert(c.subrange(0, c.len() as int) =~= c);
        while i < self.cache.len()
            invariant
                0 <= i <= c.len(),
                c == self.cache@,
                cached_names(c, version.0@) == cached_names(c.subrange(i as int, c.len() as int), version.0@),
                forall|j: int| 0 <= j < i ==> (#[trigger] c[j]).0.0@ != version.0@,
            decreases c.len() - i,
        {
            let ghost rest = c.subrange(i as int, c.len() as int);
            assert(rest.drop_first() =~= c.subrange(i + 1, c.len() as int));
            if self.cache[i].0.0 == version.0 {
                return Some(i);
            }
            i = i + 1;
        }
        None
    }

    /// The name of a champion in a version's data: `None` where the version
    /// is not cached yet, `Some(None)` where its data has no such champion.
    pub fn get_champion_name(&self, version: &DataDragonVersion, champion_id: u16) -> (r: Option<Option<String>>)
        ensures
            match self.names(version.0@) {
                None => r is None,
                Some(m) => r matches Some(n) && n == if m.contains_key(champion_id) {
                    Some(m[champion_id])
                } else {
                    None
                },
            },
    {
        match self.find(version) {
            None => None,
            Some(i) => {
                let name = self.cache[i].1.champions.get(&champion_id);
                match name {
                    Some(n) => Some(Some(n.clone())),
                    None => Some(None),
                }
            },
        }
    }

    /// Caches a version's champion list. Every identifier must parse; if one
    /// does not, nothing changes.
    pub fn insert_blob(&mut self, version: DataDragonVersion, champions: Vec<ChampionEntry>) -> (r: Result<(), InvalidChampionKey>)
        ensures
            champions_of(champions@) is None ==> r is Err && forall|v: Seq<char>| final(self).names(v) == old(self).names(v),
            champions_of(champions@) matches Some(m) ==> r is Ok && final(self).names(version.0@) == Some(m)
                && forall|v: Seq<char>| v != version.0@ ==> final(self).names(v) == old(self).names(v),
    {
        let mut map: HashMap<u16, String> = HashMap::new();
        let mut i: usize = 0;
        while i < champions.len()
            invariant
                0 <= i <= champions@.len(),
                champions_of(champions@.take(i as int)) == Some(map@),
            decreases champions@.len() - i,
        {
            assert(champions@.take(i + 1).drop_last() =~= champions@.take(i as int));
            assert(champions@.take(i + 1).last() == champions@[i as int]);
            let key = match parse_u16(champions[i].key.as_str()) {
                Some(k) => k,
                None => {
                    proof {
                        lemma_champions_prefix_none(champions@, i + 1);
                    }
                    return Err(InvalidChampionKey);
                },
            };
            map.insert(key, champions[i].name.clone());
            i = i + 1;
        }
        assert(champions@.take(champions@.len() as int) =~= champions@);
        let blob = DataDragonBlob { champions: map };
        let ghost before = self.cache@;
        match self.find(&version) {
            Some(idx) => {
                self.cache.set(idx, (version, blob));
                assert(self.cache@ =~= before.update(idx as int, self.cache@[idx as int]));
                proof {
                    lemma_cache_replace(before, idx as int, self.cache@);
                }
            },
            None => {
                self.cache.push((version, blob));
                assert(self.cache@.drop_last() =~= before);
                proof {
                    lemma_cache_push(before, self.cache@);
                }
            },
        }
        Ok(())
    }
}

proof fn lemma_champions_prefix_none(entries: Seq<ChampionEntry>, n: int)
    requires
        0 <= n <= entries.len(),
        champions_of(entries.take(n)) is None,
    ensures
        champions_of(entries) is None,
    decreases entries.len() - n,
{
    if n < entries.len() {
        assert(entries.take(n + 1).drop_last() =~= entries.take(n));
        lemma_champions_prefix_none(entries, n + 1);
    } else {
        assert(entries.take(n) =~= entries);
    }
}

proof fn lemma_cache_replace(
    before: Seq<(DataDragonVersion, DataDragonBlob)>,
    idx: int,
    after: Seq<(DataDragonVersion, DataDragonBlob)>,
)
    requires
        0 <= idx < before.len(),
        after == before.update(idx, after[idx]),
        before[idx].0.0@ == after[idx].0.0@,
        forall|j: int| 0 <= j < idx ==> (#[trigger] before[j]).0.0@ != after[idx].0.0@,
    ensures
        cached_names(after, after[idx].0.0@) == Some(after[idx].1.champions@),
        forall|v: Seq<char>| v != after[idx].0.0@ ==> cached_names(after, v) == cached_names(before, v),
    decreases before.len(),
{
    let key = after[idx].0.0@;
    if idx == 0 {
        assert(after.drop_first() =~= before.drop_first());
        assert forall|v: Seq<char>| v != key implies cached_names(after, v) == cached_names(before, v) by {
            assert(after.drop_first() =~= before.drop_first());
        }
    } else {
        assert(before[0].0.0@ != key);
        let b1 = before.drop_first();
        let a1 = after.drop_first();
        assert(a1 =~= b1.update(idx - 1, after[idx]));
        assert(a1[idx - 1] == after[idx]);
        assert forall|j: int| 0 <= j < idx - 1 implies (#[trigger] b1[j]).0.0@ != a1[idx - 1].0.0@ by {
            assert(b1[j] == before[j + 1]);
        }
        lemma_cache_replace(b1, idx - 1, a1);
        assert(after[0] == before[0]);
        assert forall|v: Seq<char>| v != key implies cached_names(after, v) == cached_names(before, v) by {
            if before[0].0.0@ != v {
                assert(cached_names(a1, v) == cached_names(b1, v));
            }
        }
    }
}

proof fn lemma_cache_push(before: Seq<(DataDragonVersion, DataDragonBlob)>, after: Seq<(DataDragonVersion, DataDragonBlob)>)
    requires
        after.len() == before.len() + 1,
        after.drop_last() == before,
        cached_names(before, after.last().0.0@) is None,
    ensures
        cached_names(after, after.last().0.0@) == Some(after.last().1.champions@),
        forall|v: Seq<char>| v != after.last().0.0@ ==> cached_names(after, v) == cached_names(before, v),
    decreases before.len(),
{
    if before.len() > 0 {
        let b1 = before.drop_first();
        let a1 = after.drop_first();
        assert(a1.drop_last() =~= b1);
        assert(a1.last() == after.last());
        lemma_cache_push(b1, a1);
        assert(after[0] == before[0]);
        assert(before[0].0.0@ != after.last().0.0@);
        assert forall|v: Seq<char>| v != after.last().0.0@ implies cached_names(after, v) == cached_names(before, v) by {
            if before[0].0.0@ != v {
                assert(cached_names(a1, v) == cached_names(b1, v));
            }
        }
    } else {
        assert forall|v: Seq<char>| v != after.last().0.0@ implies cached_names(after, v) == cached_names(before, v) by {
            assert(after.drop_first().len() == 0);
            assert(after[0] == after.last());
            assert(cached_names(after.drop_first(), v) is None);
            assert(cached_names(before, v) is None);
        }
    }
}

} // verus!
