use crate::model::{GuildFollowing, Match, SummonerMatch};
use vstd::prelude::*;

verus! {

/// Queue of draft games.
pub const DRAFT_QUEUE: i64 = 400;

/// Queue of ranked solo games.
pub const RANKED_SOLO_QUEUE: i64 = 420;

/// Queue of ranked flex games.
pub const RANKED_FLEX_QUEUE: i64 = 440;

/// Size of a leaderboard when none is asked for.
pub const DEFAULT_LEADERBOARD_SIZE: usize = 10;

/// Whether a queue counts towards the leaderboard.
pub open spec fn is_leaderboard_queue(queue_id: i64) -> bool {
    queue_id == DRAFT_QUEUE || queue_id == RANKED_SOLO_QUEUE || queue_id == RANKED_FLEX_QUEUE
}

/// Whether a stat line belongs on a destination's leaderboard: its player is
/// followed by the destination and its match is stored with a counted queue.
pub open spec fn qualifies(
    row: SummonerMatch,
    follows: Seq<GuildFollowing>,
    matches: Seq<Match>,
    guild_id: i64,
) -> bool {
    &&& exists|j: int| 0 <= j < follows.len() && follows[j].guild_id == guild_id && (
    #[trigger] follows[j]).puuid@ == row.puuid@
    &&& exists|j: int|
        0 <= j < matches.len() && (#[trigger] matches[j]).id@ == row.match_id@
            && is_leaderboard_queue(matches[j].queue_id)
}

/// The stat lines, in order, that belong on a destination's leaderboard.
pub open spec fn qualifying(
    rows: Seq<SummonerMatch>,
    follows: Seq<GuildFollowing>,
    matches: Seq<Match>,
    guild_id: i64,
) -> Seq<SummonerMatch>
    decreases rows.len(),
{
    if rows.len() == 0 {
        Seq::empty()
    } else {
        let rest = qualifying(rows.drop_last(), follows, matches, guild_id);
        if qualifies(rows.last(), follows, matches, guild_id) {
            rest.push(rows.last())
        } else {
            rest
        }
    }
}

/// The index of the first stat line with the most deaths.
pub open spec fn first_max(s: Seq<SummonerMatch>) -> int
    decreases s.len(),
{
    if s.len() <= 1 {
        0
    } else {
        let i = first_max(s.drop_last());
        if s.last().deaths > s[i].deaths {
            s.len() - 1
        } else {
            i
        }
    }
}

/// The first `k` stat lines by deaths, most first; of equal death counts the
/// earlier line comes first.
pub open spec fn top_by_deaths(s: Seq<SummonerMatch>, k: nat) -> Seq<SummonerMatch>
    decreases k,
{
    if k == 0 || s.len() == 0 {
        Seq::empty()
    } else {
        let i = first_max(s);
        seq![s[i]] + top_by_deaths(s.remove(i), (k - 1) as nat)
    }
}

/// A ranked leaderboard and whether it reached the size asked for.
#[derive(Debug)]
pub struct Leaderboard {
    pub entries: Vec<SummonerMatch>,
    pub filled: bool,
}

proof fn lemma_first_max(s: Seq<SummonerMatch>)
    requires
        s.len() > 0,
    ensures
        0 <= first_max(s) < s.len(),
        forall|j: int| 0 <= j < s.len() ==> (#[trigger] s[j]).deaths <= s[first_max(s)].deaths,
    decreases s.len(),
{
    if s.len() > 1 {
        lemma_first_max(s.drop_last());
        assert forall|j: int| 0 <= j < s.len() - 1 implies s[j] == s.drop_last()[j] by {}
    }
}

/// A leaderboard holds as many lines as asked for, or all candidates where
/// there are fewer; its lines come from the candidates, none more often than
/// it occurs among them, ordered by death count, most first.
pub proof fn lemma_leaderboard_ranked(s: Seq<SummonerMatch>, k: nat)
    ensures
        top_by_deaths(s, k).len() == if k < s.len() {
            k as int
        } else {
            s.len() as int
        },
        forall|i: int|
            0 <= i < top_by_deaths(s, k).len() ==> s.contains(#[trigger] top_by_deaths(s, k)[i]),
        forall|i: int, j: int|
            0 <= i < j < top_by_deaths(s, k).len() ==> (#[trigger] top_by_deaths(s, k)[i]).deaths
                >= (#[trigger] top_by_deaths(s, k)[j]).deaths,
        top_by_deaths(s, k).to_multiset().subset_of(s.to_multiset()),
    decreases k,
{
    if k == 0 || s.len() == 0 {
        broadcast use vstd::seq_lib::group_to_multiset_ensures;
        assert(top_by_deaths(s, k).len() == 0);
        assert(top_by_deaths(s, k).to_multiset().len() == 0);
        assert forall|x: SummonerMatch| #[trigger] top_by_deaths(s, k).to_multiset().count(x) <= s.to_multiset().count(x) by {
            assert(top_by_deaths(s, k).to_multiset() =~= vstd::multiset::Multiset::empty());
        }
    } else {
        let m = first_max(s);
        lemma_first_max(s);
        let r = s.remove(m);
        lemma_leaderboard_ranked(r, (k - 1) as nat);
        let t = top_by_deaths(s, k);
        let rest = top_by_deaths(r, (k - 1) as nat);
        assert(t == seq![s[m]] + rest);
        assert(t.to_multiset().subset_of(s.to_multiset())) by {
            broadcast use vstd::seq_lib::group_to_multiset_ensures;
            vstd::seq_lib::lemma_multiset_commutative(seq![s[m]], rest);
            assert(seq![s[m]] =~= Seq::<SummonerMatch>::empty().push(s[m]));
            assert(r.to_multiset() =~= s.to_multiset().remove(s[m]));
            assert forall|x: SummonerMatch| #[trigger] t.to_multiset().count(x) <= s.to_multiset().count(x) by {
                assert(rest.to_multiset().count(x) <= r.to_multiset().count(x));
                assert(s.to_multiset().count(s[m]) > 0);
            }
        }
        assert forall|i: int| 0 <= i < r.len() implies s.contains(#[trigger] r[i]) by {
            if i < m {
                assert(r[i] == s[i]);
            } else {
                assert(r[i] == s[i + 1]);
            }
        }
        assert forall|i: int| 0 <= i < t.len() implies s.contains(#[trigger] t[i]) by {
            if i > 0 {
                assert(t[i] == rest[i - 1]);
                assert(r.contains(rest[i - 1]));
            } else {
                assert(t[0] == s[m]);
            }
        }
        assert forall|i: int, j: int| 0 <= i < j < t.len() implies (#[trigger] t[i]).deaths
            >= (#[trigger] t[j]).deaths by {
            assert(t[j] == rest[j - 1]);
            if i == 0 {
                assert(r.contains(rest[j - 1]));
                let w = choose|w: int| 0 <= w < r.len() && r[w] == rest[j - 1];
                assert(s.contains(r[w]));
            } else {
                assert(t[i] == rest[i - 1]);
            }
        }
    }
}

/// Whether `v` holds a following of `guild_id` for `puuid`.
fn is_followed(follows: &Vec<GuildFollowing>, guild_id: i64, puuid: &String) -> (r: bool)
    ensures
        r == exists|j: int|
            0 <= j < follows@.len() && follows@[j].guild_id == guild_id && (
            #[trigger] follows@[j]).puuid@ == puuid@,
{
    let mut i: usize = 0;
    while i < follows.len()
        invariant
            0 <= i <= follows@.len(),
            forall|j: int|
                0 <= j < i ==> !(follows@[j].guild_id == guild_id && (
                #[trigger] follows@[j]).puuid@ == puuid@),
        decreases follows@.len() - i,
    {
        if follows[i].guild_id == guild_id && follows[i].puuid == *puuid {
            return true;
        }
        i = i + 1;
    }
    false
}

/// Whether `matches` holds a match with this identifier in a counted queue.
fn is_counted_match(matches: &Vec<Match>, match_id: &String) -> (r: bool)
    ensures
        r == exists|j: int|
            0 <= j < matches@.len() && (#[trigger] matches@[j]).id@ == match_id@
                && is_leaderboard_queue(matches@[j].queue_id),
{
    let mut i: usize = 0;
    while i < matches.len()
        invariant
            0 <= i <= matches@.len(),
            forall|j: int|
                0 <= j < i ==> !((#[trigger] matches@[j]).id@ == match_id@ && is_leaderboard_queue(
                    matches@[j].queue_id,
                )),
        decreases matches@.len() - i,
    {
        let q = matches[i].queue_id;
        if matches[i].id == *match_id && (q == DRAFT_QUEUE || q == RANKED_SOLO_QUEUE || q
            == RANKED_FLEX_QUEUE) {
            return true;
        }
        i = i + 1;
    }
    false
}

/// The stat lines that belong on a destination's leaderboard, in order.
pub fn leaderboard_candidates(
    rows: &Vec<SummonerMatch>,
    follows: &Vec<GuildFollowing>,
    matches: &Vec<Match>,
    guild_id: i64,
) -> (r: Vec<SummonerMatch>)
    ensures
        r@ == qualifying(rows@, follows@, matches@, guild_id),
{
    let mut out: Vec<SummonerMatch> = Vec::new();
    let mut i: usize = 0;
    while i < rows.len()
        invariant
            0 <= i <= rows@.len(),
            out@ == qualifying(rows@.take(i as int), follows@, matches@, guild_id),
        decreases rows@.len() - i,
    {
        assert(rows@.take(i + 1).drop_last() =~= rows@.take(i as int));
        assert(rows@.take(i + 1).last() == rows@[i as int]);
        let row = &rows[i];
        let ghost prev = out@;
        if is_followed(follows, guild_id, &row.puuid) && is_counted_match(matches, &row.match_id) {
            out.push(row.duplicate());
            assert(out@ =~= prev.push(rows@[i as int]));
        }
        i = i + 1;
    }
    assert(rows@.take(rows@.len() as int) =~= rows@);
    out
}

/// The index of the first stat line with the most deaths.
fn index_of_max(s: &Vec<SummonerMatch>) -> (r: usize)
    requires
        s@.len() > 0,
    ensures
        r == first_max(s@),
{
    let mut best: usize = 0;
    let mut j: usize = 1;
    assert(s@.take(1).drop_last() =~= Seq::<SummonerMatch>::empty());
    while j < s.len()
        invariant
            1 <= j <= s@.len(),
            best == first_max(s@.take(j as int)),
            0 <= best < j,
        decreases s@.len() - j,
    {
        let ghost t = s@.take(j + 1);
        assert(t.drop_last() =~= s@.take(j as int));
        proof {
            lemma_first_max(s@.take(j as int));
        }
        assert(s@.take(j as int)[best as int] == s@[best as int]);
        if s[j].deaths > s[best].deaths {
            best = j;
        }
        j = j + 1;
    }
    assert(s@.take(s@.len() as int) =~= s@);
    best
}

/// Ranks stat lines by deaths, most first, keeping at most `size` of them.
/// `filled` says whether `size` lines were found.
pub fn rank_leaderboard(candidates: Vec<SummonerMatch>, size: usize) -> (r: Leaderboard)
    ensures
        r.entries@ == top_by_deaths(candidates@, size as nat),
        r.filled == (r.entries@.len() == size),
{
    let ghost all = candidates@;
    let mut pool = candidates;
    let mut out: Vec<SummonerMatch> = Vec::new();
    while out.len() < size && pool.len() > 0
        invariant
            out@.len() <= size,
            top_by_deaths(all, size as nat) == out@ + top_by_deaths(pool@, (size - out@.len()) as nat),
        decreases pool@.len(),
    {
        let i = index_of_max(&pool);
        proof {
            lemma_first_max(pool@);
        }
        let ghost before = pool@;
        let x = pool.remove(i);
        let ghost prev = out@;
        out.push(x);
        assert(top_by_deaths(before, (size - prev.len()) as nat) == seq![x] + top_by_deaths(
            pool@,
            (size - out@.len()) as nat,
        ));
        assert(out@ + top_by_deaths(pool@, (size - out@.len()) as nat) =~= prev + top_by_deaths(
            before,
            (size - prev.len()) as nat,
        ));
    }
    assert(top_by_deaths(pool@, (size - out@.len()) as nat) =~= Seq::<SummonerMatch>::empty());
    assert(out@ + Seq::<SummonerMatch>::empty() =~= out@);
    let filled = out.len() == size;
    Leaderboard { entries: out, filled }
}

} // verus!
