//! The history of completed speed tests, newest first.
//!
//! The history is modelled by the sequence of its records, newest first.
//! The payload of a record (the measured test result) is opaque here: the
//! history only orders, finds and removes records by their identifier.

use vstd::prelude::*;
use crate::clock;

verus! {

/// One stored test run.
pub struct HistoryRecord<T> {
    pub id: String,
    pub timestamp: String,
    pub result: T,
}

impl<T: Clone> Clone for HistoryRecord<T> {
    fn clone(&self) -> (r: Self)
        ensures
            r.id == self.id,
            r.timestamp == self.timestamp,
            cloned(self.result, r.result),
    {
        HistoryRecord {
            id: self.id.clone(),
            timestamp: self.timestamp.clone(),
            result: self.result.clone(),
        }
    }
}

/// Index of the newest record whose identifier is `id`, or `s.len()` when
/// there is none.
pub open spec fn position_of_id<T>(s: Seq<HistoryRecord<T>>, id: Seq<char>) -> nat
    decreases s.len(),
{
    if s.len() == 0 {
        0
    } else if s[0].id@ == id {
        0
    } else {
        1 + position_of_id(s.drop_first(), id)
    }
}

/// Whether some record carries the identifier `id`.
pub open spec fn has_id<T>(s: Seq<HistoryRecord<T>>, id: Seq<char>) -> bool {
    exists|k: int| 0 <= k < s.len() && #[trigger] s[k].id@ == id
}

/// The records of `s` whose identifier is not `id`, in their order.
pub open spec fn without_id<T>(s: Seq<HistoryRecord<T>>, id: Seq<char>) -> Seq<HistoryRecord<T>>
    decreases s.len(),
{
    if s.len() == 0 {
        s
    } else if s[0].id@ == id {
        without_id(s.drop_first(), id)
    } else {
        seq![s[0]].add(without_id(s.drop_first(), id))
    }
}

/// The history after a record is added: the new record comes first.
pub open spec fn with_newest<T>(s: Seq<HistoryRecord<T>>, r: HistoryRecord<T>) -> Seq<HistoryRecord<T>> {
    seq![r].add(s)
}

/// The number of records a listing of at most `limit` records shows.
pub open spec fn listed_count(len: nat, limit: nat) -> nat {
    if limit < len { limit } else { len }
}

/// Whether `r` is a copy of `orig`: same identifier and timestamp, and a
/// clone of its result.
pub open spec fn is_copy_of<T: Clone>(r: HistoryRecord<T>, orig: HistoryRecord<T>) -> bool {
    &&& r.id == orig.id
    &&& r.timestamp == orig.timestamp
    &&& cloned(orig.result, r.result)
}

/// The test history, newest record first.
pub struct TestHistory<T> {
    records: Vec<HistoryRecord<T>>,
}

impl<T> View for TestHistory<T> {
    type V = Seq<HistoryRecord<T>>;

    closed spec fn view(&self) -> Seq<HistoryRecord<T>> {
        self.records@
    }
}

proof fn lemma_position_bounds<T>(s: Seq<HistoryRecord<T>>, id: Seq<char>)
    ensures
        position_of_id(s, id) <= s.len(),
        position_of_id(s, id) < s.len() <==> has_id(s, id),
        position_of_id(s, id) < s.len() ==> s[position_of_id(s, id) as int].id@ == id,
        forall|k: int| 0 <= k < position_of_id(s, id) ==> #[trigger] s[k].id@ != id,
    decreases s.len(),
{
    if s.len() > 0 && s[0].id@ != id {
        let t = s.drop_first();
        lemma_position_bounds(t, id);
        assert forall|k: int| 0 <= k < position_of_id(s, id) implies #[trigger] s[k].id@ != id by {
            if k > 0 {
                assert(s[k] == t[k - 1]);
            }
        }
        if has_id(s, id) {
            let k = choose|k: int| 0 <= k < s.len() && #[trigger] s[k].id@ == id;
            assert(t[k - 1].id@ == id);
        }
        if has_id(t, id) {
            let k = choose|k: int| 0 <= k < t.len() && #[trigger] t[k].id@ == id;
            assert(s[k + 1].id@ == id);
        }
    } else if s.len() > 0 {
        assert(s[0].id@ == id);
    }
}

proof fn lemma_without_absent<T>(s: Seq<HistoryRecord<T>>, id: Seq<char>)
    requires
        !has_id(s, id),
    ensures
        without_id(s, id) == s,
    decreases s.len(),
{
    if s.len() > 0 {
        let t = s.drop_first();
        assert(s[0].id@ != id);
        assert(!has_id(t, id)) by {
            if has_id(t, id) {
                let k = choose|k: int| 0 <= k < t.len() && #[trigger] t[k].id@ == id;
                assert(s[k + 1].id@ == id);
            }
        }
        lemma_without_absent(t, id);
        assert(seq![s[0]].add(t) =~= s);
    }
}

proof fn lemma_without_has_none<T>(s: Seq<HistoryRecord<T>>, id: Seq<char>)
    ensures
        !has_id(without_id(s, id), id),
        without_id(s, id).len() <= s.len(),
        has_id(s, id) ==> without_id(s, id).len() < s.len(),
    decreases s.len(),
{
    if s.len() > 0 {
        let t = s.drop_first();
        lemma_without_has_none(t, id);
        if has_id(s, id) && s[0].id@ != id {
            let k = choose|k: int| 0 <= k < s.len() && #[trigger] s[k].id@ == id;
            assert(t[k - 1].id@ == id);
        }
        if s[0].id@ != id {
            let w = seq![s[0]].add(without_id(t, id));
            if has_id(w, id) {
                let k = choose|k: int| 0 <= k < w.len() && #[trigger] w[k].id@ == id;
                assert(without_id(t, id)[k - 1].id@ == id);
            }
        }
    }
}

impl<T> TestHistory<T> {
    /// An empty history.
    pub fn new() -> (h: Self)
        ensures
            h@ == Seq::<HistoryRecord<T>>::empty(),
    {
        TestHistory { records: Vec::new() }
    }

    /// A history holding `records`, newest first, as loaded from storage.
    pub fn from_records(records: Vec<HistoryRecord<T>>) -> (h: Self)
        ensures
            h@ == records@,
    {
        TestHistory { records }
    }

    /// All records, newest first.
    pub fn records(&self) -> (r: &Vec<HistoryRecord<T>>)
        ensures
            r@ == self@,
    {
        &self.records
    }

    /// The number of records.
    pub fn len(&self) -> (n: usize)
        ensures
            n == self@.len(),
    {
        self.records.len()
    }

    /// Adds a record with the given identifier and timestamp as the newest.
    pub fn add_record_with(&mut self, id: String, timestamp: String, result: T)
        ensures
            final(self)@ == with_newest(old(self)@, HistoryRecord { id, timestamp, result }),
    {
        self.records.insert(0, HistoryRecord { id, timestamp, result });
        assert(self@ =~= with_newest(old(self)@, HistoryRecord { id, timestamp, result }));
    }

    /// Adds a test result as the newest record, identified by the local time
    /// (`YYYYMMDDhhmmss`) and stamped with the local time in RFC 3339; returns
    /// the identifier.
    pub fn add_record(&mut self, result: T) -> (id: String)
        ensures
            final(self)@.len() == old(self)@.len() + 1,
            final(self)@[0].id == id,
            final(self)@[0].result == result,
            final(self)@.drop_first() == old(self)@,
            clock::is_time_text("%Y%m%d%H%M%S"@, id@),
            clock::is_rfc3339_time(final(self)@[0].timestamp@),
    {
        let id = clock::local_now_formatted("%Y%m%d%H%M%S");
        let timestamp = clock::local_now_rfc3339();
        self.add_record_with(id.clone(), timestamp, result);
        assert(self@.drop_first() =~= old(self)@);
        id
    }

    /// The record with identifier `id` that was added last, if any.
    pub fn get_by_id(&self, id: &str) -> (r: Option<HistoryRecord<T>>)
        where T: Clone,
        ensures
            r is None <==> !has_id(self@, id@),
            r matches Some(rec) ==> is_copy_of(rec, self@[position_of_id(self@, id@) as int]),
    {
        proof { lemma_position_bounds(self@, id@); }
        let key = String::from_str(id);
        let mut i: usize = 0;
        while i < self.records.len()
            invariant
                i <= self@.len(),
                key@ == id@,
                forall|k: int| 0 <= k < i ==> #[trigger] self@[k].id@ != id@,
                position_of_id(self@, id@) <= self@.len(),
                position_of_id(self@, id@) < self@.len() <==> has_id(self@, id@),
                position_of_id(self@, id@) < self@.len() ==> self@[position_of_id(self@, id@) as int].id@ == id@,
                forall|k: int| 0 <= k < position_of_id(self@, id@) ==> #[trigger] self@[k].id@ != id@,
            decreases self@.len() - i,
        {
            if self.records[i].id == key {
                assert(position_of_id(self@, id@) == i);
                return Some(self.records[i].clone());
            }
            i = i + 1;
        }
        None
    }

    /// Up to `limit` records, newest first.
    pub fn get_all(&self, limit: usize) -> (r: Vec<HistoryRecord<T>>)
        where T: Clone,
        ensures
            r@.len() == listed_count(self@.len(), limit as nat),
            forall|k: int| 0 <= k < r@.len() ==> is_copy_of(#[trigger] r@[k], self@[k]),
    {
        let n = if limit < self.records.len() { limit } else { self.records.len() };
        let mut r: Vec<HistoryRecord<T>> = Vec::new();
        let mut i: usize = 0;
        while i < n
            invariant
                n == listed_count(self@.len(), limit as nat),
                n <= self@.len(),
                i <= n,
                r@.len() == i,
                forall|k: int| 0 <= k < i ==> is_copy_of(#[trigger] r@[k], self@[k]),
            decreases n - i,
        {
            r.push(self.records[i].clone());
            i = i + 1;
        }
        r
    }

    /// Removes every record with identifier `id`; returns whether any was
    /// removed.
    pub fn delete_record(&mut self, id: &str) -> (deleted: bool)
        ensures
            final(self)@ == without_id(old(self)@, id@),
            deleted == has_id(old(self)@, id@),
    {
        let key = String::from_str(id);
        let ghost orig = self@;
        let ghost mut j: int = 0;
        let mut i: usize = 0;
        let mut deleted = false;
        proof {
            assert(orig.skip(0) =~= orig);
            assert(self@.take(0) =~= Seq::<HistoryRecord<T>>::empty());
            assert(self@.take(0).add(without_id(orig, id@)) =~= without_id(orig, id@));
            assert(self@.skip(0) =~= self@);
        }
        while i < self.records.len()
            invariant
                key@ == id@,
                0 <= i <= j <= orig.len(),
                without_id(orig, id@) == self@.take(i as int).add(without_id(orig.skip(j), id@)),
                self@.skip(i as int) == orig.skip(j),
                self@.len() - i == orig.len() - j,
                deleted == has_id(orig.take(j), id@),
            decreases self@.len() - i,
        {
            let ghost before = self@;
            assert(orig.skip(j)[0] == self@[i as int]);
            assert(orig.skip(j).drop_first() =~= orig.skip(j + 1));
            assert(orig.take(j + 1) =~= orig.take(j).push(orig[j]));
            if self.records[i].id == key {
                self.records.remove(i);
                proof {
                    assert(self@.take(i as int) =~= before.take(i as int));
                    assert(self@.skip(i as int) =~= before.skip(i as int + 1));
                    assert(before.skip(i as int + 1) =~= before.skip(i as int).drop_first());
                    assert(orig.take(j + 1)[j] == orig[j]);
                    j = j + 1;
                }
                deleted = true;
            } else {
                proof {
                    assert(before.take(i as int + 1) =~= before.take(i as int).push(before[i as int]));
                    assert(before.skip(i as int + 1) =~= before.skip(i as int).drop_first());
                    assert(has_id(orig.take(j + 1), id@) == has_id(orig.take(j), id@)) by {
                        if has_id(orig.take(j + 1), id@) {
                            let k = choose|k: int| 0 <= k < j + 1 && #[trigger] orig.take(j + 1)[k].id@ == id@;
                            assert(orig.take(j)[k].id@ == id@);
                        }
                        if has_id(orig.take(j), id@) {
                            let k = choose|k: int| 0 <= k < j && #[trigger] orig.take(j)[k].id@ == id@;
                            assert(orig.take(j + 1)[k].id@ == id@);
                        }
                    }
                    j = j + 1;
                }
                i = i + 1;
            }
        }
        proof {
            assert(orig.skip(j).len() == 0);
            assert(self@.take(i as int) =~= self@);
            assert(without_id(orig, id@) =~= self@);
            assert(orig.take(j) =~= orig);
        }
        deleted
    }

    /// Removes all records.
    pub fn clear_all(&mut self)
        ensures
            final(self)@ == Seq::<HistoryRecord<T>>::empty(),
    {
        self.records.clear();
    }
}

/// A record just added is the one found by its identifier.
pub proof fn law_added_record_is_found<T>(s: Seq<HistoryRecord<T>>, r: HistoryRecord<T>)
    ensures
        has_id(with_newest(s, r), r.id@),
        position_of_id(with_newest(s, r), r.id@) == 0,
        with_newest(s, r)[0] == r,
{
    assert(with_newest(s, r)[0] == r);
}

/// After deleting an identifier, no record carries it, and the history shrank
/// exactly when some record carried it.
pub proof fn law_deleted_id_is_gone<T>(s: Seq<HistoryRecord<T>>, id: Seq<char>)
    ensures
        !has_id(without_id(s, id), id),
        without_id(s, id).len() < s.len() <==> has_id(s, id),
{
    lemma_without_has_none(s, id);
    if !has_id(s, id) {
        lemma_without_absent(s, id);
    }
}

/// Deleting an identifier twice is the same as deleting it once.
pub proof fn law_delete_is_idempotent<T>(s: Seq<HistoryRecord<T>>, id: Seq<char>)
    ensures
        without_id(without_id(s, id), id) == without_id(s, id),
{
    lemma_without_has_none(s, id);
    lemma_without_absent(without_id(s, id), id);
}

/// Deleting an identifier keeps every record with another identifier.
pub proof fn law_delete_keeps_other_ids<T>(s: Seq<HistoryRecord<T>>, id: Seq<char>, other: Seq<char>)
    requires
        other != id,
    ensures
        has_id(without_id(s, id), other) == has_id(s, other),
    decreases s.len(),
{
    if s.len() > 0 {
        let t = s.drop_first();
        law_delete_keeps_other_ids(t, id, other);
        let w = without_id(s, id);
        if has_id(s, other) {
            let k = choose|k: int| 0 <= k < s.len() && #[trigger] s[k].id@ == other;
            if k > 0 {
                assert(t[k - 1].id@ == other);
                let k2 = choose|k2: int| 0 <= k2 < without_id(t, id).len() && #[trigger] without_id(t, id)[k2].id@ == other;
                if s[0].id@ == id {
                    assert(w[k2].id@ == other);
                } else {
                    assert(w[k2 + 1].id@ == other);
                }
            } else {
                assert(w[0].id@ == other);
            }
        }
        if has_id(w, other) {
            let k = choose|k: int| 0 <= k < w.len() && #[trigger] w[k].id@ == other;
            if s[0].id@ == id {
                assert(has_id(without_id(t, id), other));
                let k2 = choose|k2: int| 0 <= k2 < t.len() && #[trigger] t[k2].id@ == other;
                assert(s[k2 + 1].id@ == other);
            } else if k > 0 {
                assert(without_id(t, id)[k - 1].id@ == other);
                let k2 = choose|k2: int| 0 <= k2 < t.len() && #[trigger] t[k2].id@ == other;
                assert(s[k2 + 1].id@ == other);
            } else {
                assert(s[0].id@ == other);
            }
        }
    }
}

/// Adding a record under a fresh identifier and deleting that identifier
/// gives back the history as it was.
pub proof fn law_add_then_delete_restores<T>(s: Seq<HistoryRecord<T>>, r: HistoryRecord<T>)
    requires
        !has_id(s, r.id@),
    ensures
        without_id(with_newest(s, r), r.id@) == s,
{
    let w = with_newest(s, r);
    assert(w[0] == r);
    assert(w.drop_first() =~= s);
    lemma_without_absent(s, r.id@);
}

/// A listing of at most `limit` records shows `limit` records, or all of them
/// when there are fewer.
pub proof fn law_listing_size(len: nat, limit: nat)
    ensures
        listed_count(len, limit) <= limit,
        listed_count(len, limit) <= len,
        listed_count(len, limit) == limit || listed_count(len, limit) == len,
{
}

} // verus!
