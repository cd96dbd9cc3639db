use crate::model::Match;
use circular_queue::CircularQueue;
use vstd::prelude::*;

verus! {

#[verifier::external_type_specification]
#[verifier::external_body]
#[verifier::reject_recursive_types(T)]
pub struct ExCircularQueue<T>(CircularQueue<T>);

/// What a recency cache holds, oldest first.
pub uninterp spec fn recent_ids(q: CircularQueue<String>) -> Seq<Seq<char>>;

/// The capacity a recency cache was made with.
pub uninterp spec fn cache_capacity(q: CircularQueue<String>) -> nat;

/// Relies on `CircularQueue::with_capacity`: an empty queue of that capacity.
#[verifier::external_body]
fn cache_with_capacity(capacity: usize) -> (r: CircularQueue<String>)
    ensures
        recent_ids(r) == Seq::<Seq<char>>::empty(),
        cache_capacity(r) == capacity,
{
    CircularQueue::with_capacity(capacity)
}

/// The contents after pushing `x`: nothing is kept at capacity zero; below
/// capacity `x` is appended; at capacity the oldest entry is overwritten.
pub open spec fn pushed(contents: Seq<Seq<char>>, capacity: nat, x: Seq<char>) -> Seq<Seq<char>> {
    if capacity == 0 {
        contents
    } else if contents.len() < capacity {
        contents.push(x)
    } else {
        contents.drop_first().push(x)
    }
}

/// Relies on `CircularQueue::push`: appends, overwriting the oldest entry once
/// the queue is full, and keeps nothing at capacity zero.
#[verifier::external_body]
fn cache_push(q: &mut CircularQueue<String>, x: String)
    ensures
        recent_ids(*final(q)) == pushed(recent_ids(*old(q)), cache_capacity(*old(q)), x@),
        cache_capacity(*final(q)) == cache_capacity(*old(q)),
{
    q.push(x);
}

/// Relies on `CircularQueue::asc_iter`: the entries from oldest to newest.
#[verifier::external_body]
fn cache_entries(q: &CircularQueue<String>) -> (r: Vec<String>)
    ensures
        r.deep_view() == recent_ids(*q),
{
    q.asc_iter().cloned().collect()
}

/// The contents after pushing each of `xs` in turn.
pub open spec fn pushed_all(contents: Seq<Seq<char>>, capacity: nat, xs: Seq<Seq<char>>) -> Seq<Seq<char>>
    decreases xs.len(),
{
    if xs.len() == 0 {
        contents
    } else {
        pushed(pushed_all(contents, capacity, xs.drop_last()), capacity, xs.last())
    }
}

/// The candidates, in order, that are neither in the cache nor in storage.
pub open spec fn unseen(cands: Seq<Seq<char>>, cache: Seq<Seq<char>>, stored: Seq<Seq<char>>) -> Seq<Seq<char>>
    decreases cands.len(),
{
    if cands.len() == 0 {
        Seq::empty()
    } else {
        let rest = unseen(cands.drop_last(), cache, stored);
        if cache.contains(cands.last()) || stored.contains(cands.last()) {
            rest
        } else {
            rest.push(cands.last())
        }
    }
}

/// Whether `v` holds a string equal to `x`.
pub fn contains_id(v: &Vec<String>, x: &String) -> (r: bool)
    ensures
        r == v.deep_view().contains(x@),
{
    let mut i: usize = 0;
    while i < v.len()
        invariant
            0 <= i <= v@.len(),
            forall|j: int| 0 <= j < i ==> v.deep_view()[j] != x@,
        decreases v@.len() - i,
    {
        if v[i] == *x {
            assert(v.deep_view()[i as int] == x@);
            return true;
        }
        i = i + 1;
    }
    assert(!v.deep_view().contains(x@));
    false
}

/// Most match identifiers the provider lists in one call.
pub const MAX_MATCHES: i32 = 100;

/// A request for the match identifiers of a player. `start_time`, in seconds
/// since the Unix epoch, is a lower bound on the matches' start; `count` caps
/// how many are listed.
#[derive(Debug, Clone)]
pub struct GetMatchIdsQuery {
    pub puuid: String,
    pub start_time: Option<i64>,
    pub count: Option<i32>,
}

/// How many identifiers a request asks the provider for: a request without a
/// lower bound is a first fetch and asks for the latest match only; any other
/// asks for its cap, or the provider maximum, whichever is smaller.
pub open spec fn requested_count_of(start_time: Option<i64>, count: Option<i32>) -> i32 {
    match start_time {
        None => 1,
        Some(_) => match count {
            Some(c) => if c < MAX_MATCHES {
                c
            } else {
                MAX_MATCHES
            },
            None => MAX_MATCHES,
        },
    }
}

impl GetMatchIdsQuery {
    /// How many identifiers to ask the provider for.
    pub fn requested_count(&self) -> (r: i32)
        ensures
            r == requested_count_of(self.start_time, self.count),
    {
        match self.start_time {
            None => 1,
            Some(_) => match self.count {
                Some(c) => if c < MAX_MATCHES {
                    c
                } else {
                    MAX_MATCHES
                },
                None => MAX_MATCHES,
            },
        }
    }
}

/// Puts listed identifiers, which the provider gives newest first, in the
/// order they are processed in: oldest first.
pub fn order_for_processing(ids: Vec<String>) -> (r: Vec<String>)
    ensures
        r@.len() == ids@.len(),
        forall|i: int| 0 <= i < ids@.len() ==> #[trigger] r@[i] == ids@[ids@.len() - 1 - i],
{
    let mut rest = ids;
    let ghost all = rest@;
    let mut out: Vec<String> = Vec::new();
    while rest.len() > 0
        invariant
            rest@ == all.take(rest@.len() as int),
            out@.len() + rest@.len() == all.len(),
            forall|i: int| 0 <= i < out@.len() ==> #[trigger] out@[i] == all[all.len() - 1 - i],
        decreases rest@.len(),
    {
        let x = rest.pop().unwrap();
        out.push(x);
        assert(rest@ =~= all.take(rest@.len() as int));
    }
    out
}

/// The start of the next listing for a player, in seconds since the Unix
/// epoch: the end of the player's latest stored match, or where none is
/// stored, when the player started being tracked. `None` where the end does
/// not fit in an `i64`.
pub open spec fn next_start_of(latest: Option<Match>, create_time: i64) -> Option<int> {
    match latest {
        Some(m) => if i64::MIN <= m.start_time as int / 1000 + m.duration <= i64::MAX {
            Some(m.start_time as int / 1000 + m.duration)
        } else {
            None
        },
        None => Some(create_time as int),
    }
}

/// Milliseconds to whole seconds, rounding towards negative infinity.
fn millis_to_secs(ms: i64) -> (r: i64)
    ensures
        r == ms as int / 1000,
{
    if ms >= 0 {
        ms / 1000
    } else {
        let up = -(ms + 1);
        let q = up / 1000;
        assert(-q - 1 == ms as int / 1000) by (nonlinear_arith)
            requires
                ms < 0,
                up == -(ms + 1),
                q == up / 1000,
                up >= 0,
        ;
        -q - 1
    }
}

/// The listing request of one polling sweep for a player.
pub fn next_query(puuid: String, latest: Option<&Match>, create_time: i64) -> (r: Option<GetMatchIdsQuery>)
    ensures
        match next_start_of(
            match latest {
                Some(m) => Some(*m),
                None => None,
            },
            create_time,
        ) {
            Some(t) => r matches Some(q) && q.puuid@ == puuid@ && q.start_time == Some(t as i64)
                && q.count is None,
            None => r is None,
        },
{
    let start = match latest {
        Some(m) => {
            let secs = millis_to_secs(m.start_time);
            match secs.checked_add(m.duration) {
                Some(t) => t,
                None => return None,
            }
        },
        None => create_time,
    };
    Some(GetMatchIdsQuery { puuid, start_time: Some(start), count: None })
}

/// Default number of recently forwarded identifiers to remember.
pub const CACHE_SIZE: usize = 100;

/// The deduplication stage for listed match identifiers. Its recency cache
/// only saves storage lookups; storage stays the authority.
#[derive(Debug)]
pub struct MatchIdsHandler {
    cache: CircularQueue<String>,
}

impl MatchIdsHandler {
    /// What the cache holds, oldest first.
    pub closed spec fn cached(&self) -> Seq<Seq<char>> {
        recent_ids(self.cache)
    }

    /// The cache's capacity.
    pub closed spec fn capacity(&self) -> nat {
        cache_capacity(self.cache)
    }

    /// The cache never holds more than its capacity.
    pub closed spec fn wf(&self) -> bool {
        recent_ids(self.cache).len() <= cache_capacity(self.cache)
    }

    /// A well-formed cache never holds more than its capacity.
    pub proof fn lemma_wf_bounded(&self)
        requires
            self.wf(),
        ensures
            self.cached().len() <= self.capacity(),
    {
    }

    /// A stage with a cache of the default capacity.
    pub fn new() -> (r: MatchIdsHandler)
        ensures
            r.wf(),
            r.cached() == Seq::<Seq<char>>::empty(),
            r.capacity() == CACHE_SIZE,
    {
        MatchIdsHandler::with_capacity(CACHE_SIZE)
    }

    /// A stage with a cache of the given capacity.
    pub fn with_capacity(capacity: usize) -> (r: MatchIdsHandler)
        ensures
            r.wf(),
            r.cached() == Seq::<Seq<char>>::empty(),
            r.capacity() == capacity,
    {
        MatchIdsHandler { cache: cache_with_capacity(capacity) }
    }

    /// The cached identifiers, oldest first.
    pub fn cached_ids(&self) -> (r: Vec<String>)
        ensures
            r.deep_view() == self.cached(),
    {
        cache_entries(&self.cache)
    }

    /// Filters a batch of listed identifiers: drops those that storage
    /// already holds (`db_matches`) and those in the recency cache, remembers
    /// the rest in the cache, and returns them in the order they came in, for
    /// the detail-fetch queue.
    pub fn filter_batch(&mut self, data: Vec<String>, db_matches: &Vec<String>) -> (r: Vec<String>)
        requires
            old(self).wf(),
        ensures
            final(self).wf(),
            r.deep_view() == unseen(data.deep_view(), old(self).cached(), db_matches.deep_view()),
            final(self).cached() == pushed_all(old(self).cached(), old(self).capacity(), r.deep_view()),
            final(self).capacity() == old(self).capacity(),
            final(self).cached().len() <= final(self).capacity(),
    {
        let ghost cache0 = self.cached();
        let ghost stored = db_matches.deep_view();
        let ghost cands = data.deep_view();
        let cached = cache_entries(&self.cache);
        let mut out: Vec<String> = Vec::new();
        let mut i: usize = 0;
        while i < data.len()
            invariant
                0 <= i <= data@.len(),
                cands == data.deep_view(),
                stored == db_matches.deep_view(),
                cached.deep_view() == cache0,
                out.deep_view() == unseen(cands.take(i as int), cache0, stored),
            decreases data@.len() - i,
        {
            let id = &data[i];
            assert(cands.take(i + 1).drop_last() =~= cands.take(i as int));
            assert(cands.take(i + 1).last() == id@);
            let in_cache = contains_id(&cached, id);
            let in_store = contains_id(db_matches, id);
            let ghost prev = out.deep_view();
            if !in_cache && !in_store {
                out.push(id.clone());
                assert(out.deep_view() =~= prev.push(id@));
            }
            i = i + 1;
        }
        assert(cands.take(data@.len() as int) =~= cands);
        let mut j: usize = 0;
        while j < out.len()
            invariant
                0 <= j <= out@.len(),
                self.capacity() == cache_capacity(self.cache),
                self.capacity() == old(self).capacity(),
                self.wf(),
                self.cached() == pushed_all(cache0, self.capacity(), out.deep_view().take(j as int)),
            decreases out@.len() - j,
        {
            assert(out.deep_view().take(j + 1).drop_last() =~= out.deep_view().take(j as int));
            cache_push(&mut self.cache, out[j].clone());
            j = j + 1;
        }
        assert(out.deep_view().take(out@.len() as int) =~= out.deep_view());
        out
    }
}

/// Identifiers already in storage are never forwarded, whatever the cache.
pub proof fn lemma_stored_never_forwarded(
    cands: Seq<Seq<char>>,
    cache: Seq<Seq<char>>,
    stored: Seq<Seq<char>>,
    id: Seq<char>,
)
    requires
        stored.contains(id),
    ensures
        !unseen(cands, cache, stored).contains(id),
    decreases cands.len(),
{
    if cands.len() > 0 {
        lemma_stored_never_forwarded(cands.drop_last(), cache, stored, id);
        let rest = unseen(cands.drop_last(), cache, stored);
        if !(cache.contains(cands.last()) || stored.contains(cands.last())) {
            assert(cands.last() != id);
            assert forall|k: int| 0 <= k < rest.push(cands.last()).len() implies rest.push(cands.last())[k] != id by {
                if k < rest.len() {
                    assert(rest[k] == rest.push(cands.last())[k]);
                }
            }
        }
    }
}

/// Identifiers in the cache are never forwarded either.
pub proof fn lemma_cached_never_forwarded(
    cands: Seq<Seq<char>>,
    cache: Seq<Seq<char>>,
    stored: Seq<Seq<char>>,
    id: Seq<char>,
)
    requires
        cache.contains(id),
    ensures
        !unseen(cands, cache, stored).contains(id),
    decreases cands.len(),
{
    if cands.len() > 0 {
        lemma_cached_never_forwarded(cands.drop_last(), cache, stored, id);
        let rest = unseen(cands.drop_last(), cache, stored);
        if !(cache.contains(cands.last()) || stored.contains(cands.last())) {
            assert(cands.last() != id);
            assert forall|k: int| 0 <= k < rest.push(cands.last()).len() implies rest.push(cands.last())[k] != id by {
                if k < rest.len() {
                    assert(rest[k] == rest.push(cands.last())[k]);
                }
            }
        }
    }
}

} // verus!
