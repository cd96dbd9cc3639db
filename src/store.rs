//! The storage contract for match records: a keyed table where inserting an
//! identifier that is already present keeps the stored record and is not an
//! error.
use crate::model::Match;
use vstd::prelude::*;

verus! {

/// Whether some record has this identifier.
pub open spec fn has_id(rows: Seq<Match>, id: Seq<char>) -> bool {
    exists|i: int| 0 <= i < rows.len() && (#[trigger] rows[i]).id@ == id
}

/// How many records have this identifier.
pub open spec fn count_id(rows: Seq<Match>, id: Seq<char>) -> nat
    decreases rows.len(),
{
    if rows.len() == 0 {
        0
    } else {
        count_id(rows.drop_last(), id) + if rows.last().id@ == id {
            1nat
        } else {
            0nat
        }
    }
}

/// No two records share an identifier.
pub open spec fn ids_unique(rows: Seq<Match>) -> bool {
    forall|i: int, j: int| 0 <= i < j < rows.len() ==> (#[trigger] rows[i]).id@ != (#[trigger] rows[j]).id@
}

/// The records after inserting `m`, ignoring it where its identifier is
/// already present.
pub open spec fn insert_or_ignore(rows: Seq<Match>, m: Match) -> Seq<Match> {
    if has_id(rows, m.id@) {
        rows
    } else {
        rows.push(m)
    }
}

/// The identifiers among `ids`, in order, that have a stored record.
pub open spec fn present_ids(rows: Seq<Match>, ids: Seq<Seq<char>>) -> Seq<Seq<char>>
    decreases ids.len(),
{
    if ids.len() == 0 {
        Seq::empty()
    } else {
        let rest = present_ids(rows, ids.drop_last());
        if has_id(rows, ids.last()) {
            rest.push(ids.last())
        } else {
            rest
        }
    }
}

/// Stored match records, at most one per identifier.
#[derive(Debug)]
pub struct MatchTable {
    rows: Vec<Match>,
}

impl View for MatchTable {
    type V = Seq<Match>;

    closed spec fn view(&self) -> Seq<Match> {
        self.rows@
    }
}

impl MatchTable {
    /// The table holds at most one record per identifier.
    pub closed spec fn wf(&self) -> bool {
        ids_unique(self.rows@)
    }

    /// A well-formed table holds at most one record per identifier.
    pub proof fn lemma_wf_ids_unique(&self)
        requires
            self.wf(),
        ensures
            ids_unique(self@),
    {
    }

    /// An empty table.
    pub fn new() -> (r: MatchTable)
        ensures
            r.wf(),
            r@ == Seq::<Match>::empty(),
    {
        MatchTable { rows: Vec::new() }
    }

    /// The index of the record with this identifier.
    fn position(&self, id: &String) -> (r: Option<usize>)
        ensures
            match r {
                Some(i) => i < self@.len() && self@[i as int].id@ == id@,
                None => !has_id(self@, id@),
            },
    {
        let mut i: usize = 0;
        while i < self.rows.len()
            invariant
                0 <= i <= self.rows@.len(),
                forall|j: int| 0 <= j < i ==> (#[trigger] self.rows@[j]).id@ != id@,
            decreases self.rows@.len() - i,
        {
            if self.rows[i].id == *id {
                return Some(i);
            }
            i = i + 1;
        }
        None
    }

    /// Whether a record with this identifier is stored.
    pub fn contains(&self, id: &String) -> (r: bool)
        ensures
            r == has_id(self@, id@),
    {
        self.position(id).is_some()
    }

    /// Inserts a record unless one with its identifier is stored; says
    /// whether it was inserted. A duplicate is not an error.
    pub fn insert_match(&mut self, m: Match) -> (inserted: bool)
        requires
            old(self).wf(),
        ensures
            final(self).wf(),
            final(self)@ == insert_or_ignore(old(self)@, m),
            inserted == !has_id(old(self)@, m.id@),
            count_id(final(self)@, m.id@) == 1,
    {
        proof {
            lemma_insert_twice(self.rows@, m);
        }
        if self.contains(&m.id) {
            false
        } else {
            let ghost before = self.rows@;
            self.rows.push(m);
            assert forall|i: int, j: int| 0 <= i < j < self.rows@.len() implies (
            #[trigger] self.rows@[i]).id@ != (#[trigger] self.rows@[j]).id@ by {
                if j == before.len() {
                    assert(self.rows@[i] == before[i]);
                } else {
                    assert(self.rows@[i] == before[i] && self.rows@[j] == before[j]);
                }
            }
            true
        }
    }

    /// The identifiers among `ids`, in order, that have a stored record.
    pub fn existing_ids(&self, ids: &Vec<String>) -> (r: Vec<String>)
        ensures
            r.deep_view() == present_ids(self@, ids.deep_view()),
    {
        let ghost all = ids.deep_view();
        let mut out: Vec<String> = Vec::new();
        let mut i: usize = 0;
        while i < ids.len()
            invariant
                0 <= i <= all.len(),
                all == ids.deep_view(),
                out.deep_view() == present_ids(self@, all.take(i as int)),
            decreases all.len() - i,
        {
            assert(all.take(i + 1).drop_last() =~= all.take(i as int));
            assert(all.take(i + 1).last() == ids@[i as int]@);
            let ghost before = out.deep_view();
            if self.contains(&ids[i]) {
                out.push(ids[i].clone());
                assert(out.deep_view() =~= before.push(ids@[i as int]@));
            }
            i = i + 1;
        }
        assert(all.take(all.len() as int) =~= all);
        out
    }
}

proof fn lemma_count_unique(rows: Seq<Match>, id: Seq<char>)
    requires
        ids_unique(rows),
    ensures
        count_id(rows, id) == if has_id(rows, id) {
            1nat
        } else {
            0nat
        },
    decreases rows.len(),
{
    if rows.len() > 0 {
        let init = rows.drop_last();
        assert forall|i: int, j: int| 0 <= i < j < init.len() implies (#[trigger] init[i]).id@ != (
        #[trigger] init[j]).id@ by {
            assert(init[i] == rows[i] && init[j] == rows[j]);
        }
        lemma_count_unique(init, id);
        if rows.last().id@ == id {
            assert(has_id(rows, id)) by {
                assert(rows[rows.len() - 1].id@ == id);
            }
            if has_id(init, id) {
                let i = choose|i: int| 0 <= i < init.len() && (#[trigger] init[i]).id@ == id;
                assert(rows[i] == init[i]);
                assert(false);
            }
        } else {
            if has_id(rows, id) {
                let i = choose|i: int| 0 <= i < rows.len() && (#[trigger] rows[i]).id@ == id;
                assert(init[i] == rows[i]);
            }
            if has_id(init, id) {
                let i = choose|i: int| 0 <= i < init.len() && (#[trigger] init[i]).id@ == id;
                assert(rows[i] == init[i]);
            }
        }
    }
}

/// Persisting the same record twice leaves exactly one record with its
/// identifier, and neither insert fails; the second leaves the records as
/// the first left them.
pub proof fn lemma_insert_twice(rows: Seq<Match>, m: Match)
    requires
        ids_unique(rows),
    ensures
        count_id(insert_or_ignore(insert_or_ignore(rows, m), m), m.id@) == 1,
        insert_or_ignore(insert_or_ignore(rows, m), m) == insert_or_ignore(rows, m),
{
    let once = insert_or_ignore(rows, m);
    assert(has_id(once, m.id@)) by {
        if !has_id(rows, m.id@) {
            assert(once[rows.len() as int] == m);
        }
    }
    assert(ids_unique(once)) by {
        if !has_id(rows, m.id@) {
            assert forall|i: int, j: int| 0 <= i < j < once.len() implies (#[trigger] once[i]).id@ != (
            #[trigger] once[j]).id@ by {
                if j == rows.len() {
                    assert(once[i] == rows[i]);
                } else {
                    assert(once[i] == rows[i] && once[j] == rows[j]);
                }
            }
        }
    }
    lemma_count_unique(once, m.id@);
}

/// Inserting the same record twice into a table leaves exactly one record
/// with its identifier.
pub proof fn lemma_table_insert_twice(t: MatchTable, m: Match)
    requires
        t.wf(),
    ensures
        count_id(insert_or_ignore(insert_or_ignore(t@, m), m), m.id@) == 1,
        insert_or_ignore(insert_or_ignore(t@, m), m) == insert_or_ignore(t@, m),
{
    t.lemma_wf_ids_unique();
    lemma_insert_twice(t@, m);
}

} // verus!
