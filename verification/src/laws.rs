//! What holds of the page store whatever it contains: start-up may be
//! repeated, a save never duplicates a row, the last save of an identity
//! wins, and a look-up by cache key finds what was saved.

use vstd::prelude::*;

use crate::model::ModelView;
use crate::schema::{index_names, spec_missing_indexes, spec_required_indexes};
use crate::status::DownloadStatus;
use crate::store::{
    lemma_first_with_cache_key, lemma_init_keeps_well_formed, lemma_missing_indexes,
    lemma_save_keeps_well_formed, StoreView,
};

verus! {

impl StoreView {
    /// Whether exactly one index has the given name.
    pub open spec fn has_exactly_one_index(self, name: Seq<char>) -> bool {
        exists|i: int|
            {
                &&& 0 <= i < self.indexes.len()
                &&& (#[trigger] self.indexes[i]).name == name
                &&& forall|j: int|
                    0 <= j < self.indexes.len() && (#[trigger] self.indexes[j]).name == name ==> j
                        == i
            }
    }

    /// Whether exactly one row has the identity of `record`, and that row
    /// is `record`.
    pub open spec fn holds_exactly(self, record: ModelView) -> bool {
        exists|i: int|
            {
                &&& 0 <= i < self.rows.len()
                &&& #[trigger] self.rows[i] == record
                &&& forall|j: int|
                    0 <= j < self.rows.len() && (#[trigger] self.rows[j]).identity()
                        == record.identity() ==> j == i
            }
    }

    /// Whether the image data of every row fits the row's status.
    pub open spec fn rows_fit_status(self) -> bool {
        forall|i: int| 0 <= i < self.rows.len() ==> (#[trigger] self.rows[i]).payload_fits_status()
    }
}

/// Start-up is idempotent. After one start-up the table exists and each
/// required index exists exactly once; the rows are those from before; and
/// any number of further start-ups changes nothing.
pub proof fn law_init_idempotent(s: StoreView, n: nat)
    requires
        s.well_formed(),
        n >= 1,
    ensures
        s.init_times(n) == s.init(),
        s.init().init() == s.init(),
        s.init().table_created,
        s.init().rows == s.rows,
        s.init().well_formed(),
        forall|k: int|
            0 <= k < spec_required_indexes().len() ==> s.init().has_exactly_one_index(
                (#[trigger] spec_required_indexes()[k]).name,
            ),
    decreases n,
{
    let t = s.init();
    let existing = index_names(s.indexes);
    let missing = spec_missing_indexes(existing);
    let names = index_names(t.indexes);
    lemma_init_keeps_well_formed(s);
    lemma_missing_indexes(existing);
    assert(names =~= existing + index_names(missing));
    assert forall|k: int| 0 <= k < spec_required_indexes().len() implies names.contains(
        (#[trigger] spec_required_indexes()[k]).name,
    ) && t.has_exactly_one_index(spec_required_indexes()[k].name) by {
        let d = spec_required_indexes()[k];
        if existing.contains(d.name) {
            let i = choose|i: int| 0 <= i < existing.len() && existing[i] == d.name;
            assert(names[i] == d.name);
        } else {
            assert(missing.contains(d));
            let j = choose|j: int| 0 <= j < missing.len() && missing[j] == d;
            assert(names[existing.len() + j] == d.name);
        }
        let i = choose|i: int| 0 <= i < names.len() && names[i] == d.name;
        assert(t.indexes[i].name == names[i]);
        assert forall|j: int|
            0 <= j < t.indexes.len() && (#[trigger] t.indexes[j]).name == d.name implies j
            == i by {
            assert(names[j] == t.indexes[j].name);
        }
    }
    let again = spec_missing_indexes(names);
    lemma_missing_indexes(names);
    if again.len() > 0 {
        let d = again[0];
        assert(spec_required_indexes().contains(d));
        let k = choose|k: int|
            0 <= k < spec_required_indexes().len() && spec_required_indexes()[k] == d;
        assert(names.contains(spec_required_indexes()[k].name));
    }
    assert(t.indexes + again =~= t.indexes);
    if n > 1 {
        law_init_idempotent(s, (n - 1) as nat);
    } else {
        assert(s.init_times(0) == s);
    }
}

/// Of two saves of one identity the second wins: the store is as if the
/// first had not happened. Where the saves are accepted, exactly one row
/// has the identity afterwards, and it holds the second record.
pub proof fn law_upsert_identity(s: StoreView, first: ModelView, second: ModelView)
    requires
        s.well_formed(),
        first.identity() == second.identity(),
    ensures
        s.save(first).save(second) == s.save(second),
        s.save(first).save_outcome(second) == s.save_outcome(second),
        s.save_outcome(second) is Ok ==> s.save(first).save(second).holds_exactly(second),
        s.save_outcome(second) is Ok ==> s.save(first).save(second).rows.len() == s.save(
            first,
        ).rows.len(),
        s.save_outcome(second) is Err ==> s.save(first).save(second) == s,
{
    let id = second.identity();
    if s.save_outcome(second) is Ok {
        let mid = s.save(first);
        lemma_save_keeps_well_formed(s, first);
        if s.holds(id) {
            let p = s.position(id);
            assert(0 <= p < s.rows.len() && s.rows[p].identity() == id);
            assert(mid.rows[p].identity() == id);
            let q = mid.position(id);
            assert(0 <= q < mid.rows.len() && mid.rows[q].identity() == id);
            assert(q == p);
            assert(mid.save(second).rows =~= s.save(second).rows);
        } else {
            let p = s.rows.len() as int;
            assert(mid.rows[p].identity() == id);
            let q = mid.position(id);
            assert(0 <= q < mid.rows.len() && mid.rows[q].identity() == id);
            assert(q == p);
            assert(mid.save(second).rows =~= s.save(second).rows);
        }
        law_save_stores(s, second);
    }
}

/// An accepted save stores the record: exactly one row has its identity
/// afterwards, that row is the record, and every row of another identity
/// is where and what it was. The table grows by one row where the
/// identity is new, and keeps its size where it is not.
pub proof fn law_save_stores(s: StoreView, record: ModelView)
    requires
        s.well_formed(),
        s.save_outcome(record) is Ok,
    ensures
        s.save(record).holds_exactly(record),
        s.save(record).rows.len() == if s.holds(record.identity()) {
            s.rows.len()
        } else {
            s.rows.len() + 1
        },
        forall|i: int|
            0 <= i < s.rows.len() && (#[trigger] s.rows[i]).identity() != record.identity()
                ==> s.save(record).rows[i] == s.rows[i],
        s.save(record).indexes == s.indexes,
        s.save(record).table_created,
{
    let id = record.identity();
    let after = s.save(record);
    lemma_save_keeps_well_formed(s, record);
    let p = if s.holds(id) {
        s.position(id)
    } else {
        s.rows.len() as int
    };
    if s.holds(id) {
        assert(0 <= p < s.rows.len() && s.rows[p].identity() == id);
    }
    assert(after.rows[p] == record);
    assert forall|j: int|
        0 <= j < after.rows.len() && (#[trigger] after.rows[j]).identity()
            == record.identity() implies j == p by {
        if j != p {
            assert(after.rows[j].identity() != after.rows[p].identity());
        }
    }
}

/// A refused save changes nothing.
pub proof fn law_refused_save_changes_nothing(s: StoreView, record: ModelView)
    requires
        s.save_outcome(record) is Err,
    ensures
        s.save(record) == s,
{
}

/// However many saves of one identity are made, and in whatever order they
/// reach the store, the last one wins: the store is as if it alone had
/// been made, so the identity has one row and not one for each save.
pub proof fn law_last_writer_wins(s: StoreView, records: Seq<ModelView>)
    requires
        s.well_formed(),
        records.len() >= 1,
        forall|i: int|
            0 <= i < records.len() ==> (#[trigger] records[i]).identity()
                == records.last().identity(),
    ensures
        s.save_all(records) == s.save(records.last()),
        s.save_all(records).well_formed(),
        s.save_outcome(records.last()) is Ok ==> s.save_all(records).holds_exactly(
            records.last(),
        ),
    decreases records.len(),
{
    lemma_save_keeps_well_formed(s, records.last());
    if records.len() == 1 {
        assert(records.drop_last().len() == 0);
        assert(s.save_all(records.drop_last()) == s);
    } else {
        let earlier = records.drop_last();
        assert forall|i: int| 0 <= i < earlier.len() implies (#[trigger] earlier[i]).identity()
            == earlier.last().identity() by {
            assert(earlier[i] == records[i]);
            assert(earlier.last() == records[earlier.len() - 1]);
        }
        law_last_writer_wins(s, earlier);
        assert(earlier.last() == records[earlier.len() - 1]);
        law_upsert_identity(s, earlier.last(), records.last());
    }
    if s.save_outcome(records.last()) is Ok {
        law_save_stores(s, records.last());
    }
}

/// A look-up by cache key returns a row of the table with that key, the
/// first one in storage order, and returns nothing exactly where no row
/// has the key.
pub proof fn law_lookup_finds_cache_key(s: StoreView, cache_key: Seq<char>)
    ensures
        s.first_with_cache_key(cache_key) is Some <==> s.has_cache_key(cache_key),
        s.first_with_cache_key(cache_key) matches Some(m) ==> m.cache_key == cache_key
            && exists|i: int| s.is_first_with_cache_key(cache_key, i) && s.rows[i] == m,
{
    if s.has_cache_key(cache_key) {
        let i = lemma_first_exists(s, cache_key, s.rows.len() as int);
        lemma_first_with_cache_key(s, cache_key, i);
    }
}

/// Among the first `n` rows, if one has the cache key then one is the
/// first to have it.
proof fn lemma_first_exists(s: StoreView, cache_key: Seq<char>, n: int) -> (i: int)
    requires
        0 <= n <= s.rows.len(),
        exists|k: int| 0 <= k < n && (#[trigger] s.rows[k]).cache_key == cache_key,
    ensures
        s.is_first_with_cache_key(cache_key, i),
        i < n,
    decreases n,
{
    if exists|k: int| 0 <= k < n - 1 && (#[trigger] s.rows[k]).cache_key == cache_key {
        lemma_first_exists(s, cache_key, n - 1)
    } else {
        let k = choose|k: int| 0 <= k < n && (#[trigger] s.rows[k]).cache_key == cache_key;
        assert(k == n - 1);
        k
    }
}

/// After an accepted save of a record, a look-up by the record's cache key
/// finds a row with that key; and a look-up by a key that no row has finds
/// nothing.
pub proof fn law_dedup_after_save(s: StoreView, record: ModelView, other_key: Seq<char>)
    requires
        s.well_formed(),
        s.save_outcome(record) is Ok,
    ensures
        s.save(record).first_with_cache_key(record.cache_key) matches Some(m) && m.cache_key
            == record.cache_key,
        !s.has_cache_key(record.cache_key) ==> s.save(record).first_with_cache_key(
            record.cache_key,
        ) == Some(record),
        !s.save(record).has_cache_key(other_key) ==> s.save(record).first_with_cache_key(
            other_key,
        ) is None,
{
    let after = s.save(record);
    law_save_stores(s, record);
    let p = choose|i: int|
        {
            &&& 0 <= i < after.rows.len()
            &&& #[trigger] after.rows[i] == record
            &&& forall|j: int|
                0 <= j < after.rows.len() && (#[trigger] after.rows[j]).identity()
                    == record.identity() ==> j == i
        };
    assert(after.rows[p].cache_key == record.cache_key);
    assert(after.has_cache_key(record.cache_key));
    law_lookup_finds_cache_key(after, record.cache_key);
    if !s.has_cache_key(record.cache_key) {
        let m = after.first_with_cache_key(record.cache_key)->0;
        let i = choose|i: int|
            after.is_first_with_cache_key(record.cache_key, i) && after.rows[i] == m;
        if i != p {
            assert(after.rows[i].identity() != record.identity());
            if i < s.rows.len() {
                if s.rows[i].identity() != record.identity() {
                    assert(after.rows[i] == s.rows[i]);
                    assert(s.rows[i].cache_key == record.cache_key);
                } else {
                    if s.holds(record.identity()) {
                        let q = s.position(record.identity());
                        assert(0 <= q < s.rows.len() && s.rows[q].identity()
                            == record.identity());
                        assert(q == i);
                    }
                }
            }
        }
    }
}

/// Where every row's image data fits its status and a record's does too,
/// saving the record keeps it so. A `Done` row then has a format and
/// positive dimensions, and a `Failed` row has neither.
pub proof fn law_status_fits_payload(s: StoreView, record: ModelView)
    requires
        s.well_formed(),
        s.rows_fit_status(),
        record.payload_fits_status(),
    ensures
        s.save(record).rows_fit_status(),
        forall|i: int|
            0 <= i < s.save(record).rows.len() && (#[trigger] s.save(record).rows[i]).status()
                == Some(DownloadStatus::Done) ==> s.save(record).rows[i].format.len() > 0
                && s.save(record).rows[i].width > 0 && s.save(record).rows[i].height > 0,
        forall|i: int|
            0 <= i < s.save(record).rows.len() && (#[trigger] s.save(record).rows[i]).status()
                == Some(DownloadStatus::Failed) ==> s.save(record).rows[i].format.len() == 0
                && s.save(record).rows[i].width == 0 && s.save(record).rows[i].height == 0,
{
    let after = s.save(record);
    if s.save_outcome(record) is Ok {
        let id = record.identity();
        assert forall|i: int| 0 <= i < after.rows.len() implies (#[trigger] after.rows[i]).payload_fits_status() by {
            if s.holds(id) {
                let p = s.position(id);
                assert(0 <= p < s.rows.len() && s.rows[p].identity() == id);
                if i != p {
                    assert(after.rows[i] == s.rows[i]);
                }
            } else {
                if i < s.rows.len() {
                    assert(after.rows[i] == s.rows[i]);
                }
            }
        }
    }
}

/// The empty store is well-formed, and start-up and saves keep a store
/// well-formed.
pub proof fn law_well_formed_is_kept(s: StoreView, record: ModelView)
    requires
        s.well_formed(),
    ensures
        StoreView::empty().well_formed(),
        s.init().well_formed(),
        s.save(record).well_formed(),
{
    lemma_init_keeps_well_formed(s);
    lemma_save_keeps_well_formed(s, record);
    assert(index_names(StoreView::empty().indexes) =~= Seq::<Seq<char>>::empty());
}

} // verus!
