//! The page store: the table of page records with its indexes, and the
//! three operations on it: start-up, save, and look-up by cache key.
//!
//! Rows keep the order in which their identities were first saved. A save
//! for an identity that the table holds replaces that row in place, so the
//! "first" row with a given cache key is the one whose identity was saved
//! earliest.

use vstd::prelude::*;

use crate::index::{is_first_place_of, lists, lists_places_of, ColumnIndex};
use crate::model::{identity_fault, Identity, Model, ModelView, ValidationError};
use crate::schema::{
    contains_name, index_names, index_views, is_missing_from, lemma_required_names_distinct,
    missing_indexes, spec_missing_indexes, spec_required_indexes, strings_view, IndexDef,
    IndexDefView,
};

verus! {

/// Why the store itself refuses an operation.
#[derive(Clone, Copy, Debug, PartialEq, Eq, Structural)]
pub enum StorageError {
    /// The table does not exist: the store has not been started.
    TableMissing,
}

/// Why an operation on the store fails.
#[derive(Clone, Copy, Debug, PartialEq, Eq, Structural)]
pub enum Error {
    /// The record's identity is malformed. Nothing was done with the
    /// store; the caller has to correct the record.
    Validation(ValidationError),
    /// The store refused the operation. The store is unchanged.
    Storage(StorageError),
}

/// The page store.
///
/// Besides the rows the store keeps two of its indexes at hand: the one on
/// the cache key, so that a look-up by cache key does not walk the table,
/// and the one on the chapter, so that a save looks for the row of an
/// identity among the rows of its chapter only.
pub struct Store {
    table_created: bool,
    indexes: Vec<IndexDef>,
    rows: Vec<Model>,
    by_cache_key: ColumnIndex,
    by_chapter: ColumnIndex,
}

/// The page store as a mathematical value: whether the table exists, the
/// indexes in the order of their creation, and the rows in storage order.
pub struct StoreView {
    pub table_created: bool,
    pub indexes: Seq<IndexDefView>,
    pub rows: Seq<ModelView>,
}

/// The contents of a list of records.
pub open spec fn model_views(v: Seq<Model>) -> Seq<ModelView> {
    v.map_values(|m: Model| m@)
}

/// The cache keys of a list of rows, row by row.
pub open spec fn cache_keys(rows: Seq<ModelView>) -> Seq<Seq<char>> {
    rows.map_values(|r: ModelView| r.cache_key)
}

/// The chapters of a list of rows, row by row.
pub open spec fn chapter_uuids(rows: Seq<ModelView>) -> Seq<Seq<char>> {
    rows.map_values(|r: ModelView| r.chapter_uuid)
}

impl StoreView {
    /// The store before start-up: no table, no index, no row.
    pub open spec fn empty() -> StoreView {
        StoreView { table_created: false, indexes: Seq::empty(), rows: Seq::empty() }
    }

    /// What every store keeps: no two indexes share a name, no two rows
    /// share an identity, every row has a valid identity, with the table
    /// there is each required index, and without the table there are
    /// neither indexes nor rows.
    pub open spec fn well_formed(self) -> bool {
        &&& index_names(self.indexes).no_duplicates()
        &&& self.table_created ==> forall|k: int|
            0 <= k < spec_required_indexes().len() ==> self.has_index(
                (#[trigger] spec_required_indexes()[k]).name,
            )
        &&& forall|i: int, j: int|
            0 <= i < self.rows.len() && 0 <= j < self.rows.len() && i != j
                ==> #[trigger] self.rows[i].identity() != #[trigger] self.rows[j].identity()
        &&& forall|i: int|
            0 <= i < self.rows.len() ==> identity_fault(#[trigger] self.rows[i].identity())
                is None
        &&& !self.table_created ==> self.indexes.len() == 0 && self.rows.len() == 0
    }

    /// Whether an index of the given name exists.
    pub open spec fn has_index(self, name: Seq<char>) -> bool {
        index_names(self.indexes).contains(name)
    }

    /// The store after start-up: the table exists, each required index
    /// that was missing by name has been created after those that were
    /// there, and the rows are untouched.
    pub open spec fn init(self) -> StoreView {
        StoreView {
            table_created: true,
            indexes: self.indexes + spec_missing_indexes(index_names(self.indexes)),
            rows: self.rows,
        }
    }

    /// The store after `n` start-ups in a row.
    pub open spec fn init_times(self, n: nat) -> StoreView
        decreases n,
    {
        if n == 0 {
            self
        } else {
            self.init_times((n - 1) as nat).init()
        }
    }

    /// Whether the table holds a row of the given identity.
    pub open spec fn holds(self, id: Identity) -> bool {
        exists|i: int| 0 <= i < self.rows.len() && #[trigger] self.rows[i].identity() == id
    }

    /// The place of the row of the given identity, where the table holds
    /// one.
    pub open spec fn position(self, id: Identity) -> int {
        choose|i: int| 0 <= i < self.rows.len() && #[trigger] self.rows[i].identity() == id
    }

    /// How a save of `record` ends: refused for a malformed identity
    /// before the store is looked at, refused by a store without a table,
    /// accepted otherwise.
    pub open spec fn save_outcome(self, record: ModelView) -> Result<(), Error> {
        match identity_fault(record.identity()) {
            Some(e) => Err(Error::Validation(e)),
            None => if self.table_created {
                Ok(())
            } else {
                Err(Error::Storage(StorageError::TableMissing))
            },
        }
    }

    /// The rows after `record` has been written: it replaces the row of
    /// its identity where there is one, and becomes the last row where
    /// there is none.
    pub open spec fn upsert(self, record: ModelView) -> StoreView {
        StoreView {
            table_created: self.table_created,
            indexes: self.indexes,
            rows: if self.holds(record.identity()) {
                self.rows.update(self.position(record.identity()), record)
            } else {
                self.rows.push(record)
            },
        }
    }

    /// The store after a save of `record`: written where the save is
    /// accepted, unchanged where it is refused.
    pub open spec fn save(self, record: ModelView) -> StoreView {
        if self.save_outcome(record) is Ok {
            self.upsert(record)
        } else {
            self
        }
    }

    /// The store after the records of `records` have been saved one after
    /// the other, the first one first.
    pub open spec fn save_all(self, records: Seq<ModelView>) -> StoreView
        decreases records.len(),
    {
        if records.len() == 0 {
            self
        } else {
            self.save_all(records.drop_last()).save(records.last())
        }
    }

    /// Whether row `i` is the first row, in storage order, with the given
    /// cache key.
    pub open spec fn is_first_with_cache_key(self, cache_key: Seq<char>, i: int) -> bool {
        &&& 0 <= i < self.rows.len()
        &&& self.rows[i].cache_key == cache_key
        &&& forall|j: int| 0 <= j < i ==> (#[trigger] self.rows[j]).cache_key != cache_key
    }

    /// Whether some row has the given cache key.
    pub open spec fn has_cache_key(self, cache_key: Seq<char>) -> bool {
        exists|i: int| 0 <= i < self.rows.len() && (#[trigger] self.rows[i]).cache_key == cache_key
    }

    /// The first row, in storage order, with the given cache key; `None`
    /// where no row has it.
    pub open spec fn first_with_cache_key(self, cache_key: Seq<char>) -> Option<ModelView> {
        if self.has_cache_key(cache_key) {
            Some(self.rows[choose|i: int| self.is_first_with_cache_key(cache_key, i)])
        } else {
            None
        }
    }

}

/// The indexes still to be created are required ones whose names are not
/// among the existing names, each required index of a missing name is among
/// them, and no two of them share a name.
pub proof fn lemma_missing_indexes(existing: Seq<Seq<char>>)
    ensures
        forall|i: int|
            0 <= i < spec_missing_indexes(existing).len() ==> {
                &&& !existing.contains((#[trigger] spec_missing_indexes(existing)[i]).name)
                &&& spec_required_indexes().contains(spec_missing_indexes(existing)[i])
            },
        forall|k: int|
            0 <= k < spec_required_indexes().len() && !existing.contains(
                (#[trigger] spec_required_indexes()[k]).name,
            ) ==> spec_missing_indexes(existing).contains(spec_required_indexes()[k]),
        index_names(spec_missing_indexes(existing)).no_duplicates(),
{
    let required = spec_required_indexes();
    let pred = is_missing_from(existing);
    let missing = spec_missing_indexes(existing);
    assert forall|i: int| 0 <= i < missing.len() implies {
        &&& !existing.contains((#[trigger] missing[i]).name)
        &&& required.contains(missing[i])
    } by {
        required.lemma_filter_pred(pred, i);
        assert(missing.contains(missing[i]));
        required.lemma_filter_contains_rev(pred, missing[i]);
    }
    assert forall|k: int|
        0 <= k < required.len() && !existing.contains((#[trigger] required[k]).name) implies missing.contains(
        required[k],
    ) by {
        assert(pred(required[k]));
        required.lemma_filter_contains(pred, k);
    }
    lemma_missing_names_distinct(existing, required.len() as int);
    assert(required.take(required.len() as int) =~= required);
}

/// The missing indexes among the first `k` required ones are among those
/// `k`, and no two of them share a name.
proof fn lemma_missing_names_distinct(existing: Seq<Seq<char>>, k: int)
    requires
        0 <= k <= spec_required_indexes().len(),
    ensures
        index_names(
            spec_required_indexes().take(k).filter(is_missing_from(existing)),
        ).no_duplicates(),
        forall|i: int|
            0 <= i < spec_required_indexes().take(k).filter(is_missing_from(existing)).len()
                ==> exists|j: int|
                0 <= j < k && spec_required_indexes()[j] == #[trigger] spec_required_indexes().take(
                    k,
                ).filter(is_missing_from(existing))[i],
    decreases k,
{
    let required = spec_required_indexes();
    let pred = is_missing_from(existing);
    reveal(Seq::filter);
    if k > 0 {
        lemma_missing_names_distinct(existing, k - 1);
        lemma_required_names_distinct();
        let before = required.take(k - 1).filter(pred);
        let now = required.take(k).filter(pred);
        assert(required.take(k) =~= required.take(k - 1).push(required[k - 1]));
        required.take(k - 1).lemma_filter_push(required[k - 1], pred);
        assert forall|i: int| 0 <= i < now.len() implies exists|j: int|
            0 <= j < k && required[j] == #[trigger] now[i] by {
            if i < before.len() {
                assert(now[i] == before[i]);
                let j = choose|j: int| 0 <= j < k - 1 && required[j] == before[i];
                assert(0 <= j < k && required[j] == now[i]);
            } else {
                assert(required[k - 1] == now[i]);
            }
        }
        let names = index_names(now);
        assert forall|a: int, b: int|
            0 <= a < names.len() && 0 <= b < names.len() && a != b implies names[a]
            != names[b] by {
            let ja = choose|j: int| 0 <= j < k && required[j] == now[a];
            let jb = choose|j: int| 0 <= j < k && required[j] == now[b];
            let all_names = index_names(required);
            assert(all_names[ja] == names[a]);
            assert(all_names[jb] == names[b]);
            if a < before.len() && b < before.len() {
                assert(index_names(before)[a] == names[a]);
                assert(index_names(before)[b] == names[b]);
            } else if a < before.len() {
                let j = choose|j: int| 0 <= j < k - 1 && required[j] == before[a];
                assert(all_names[j] == names[a]);
                assert(all_names[k - 1] == names[b]);
            } else if b < before.len() {
                let j = choose|j: int| 0 <= j < k - 1 && required[j] == before[b];
                assert(all_names[j] == names[b]);
                assert(all_names[k - 1] == names[a]);
            }
        }
    } else {
        assert(required.take(0).filter(pred).len() == 0);
    }
}

/// Start-up keeps a store well-formed.
pub proof fn lemma_init_keeps_well_formed(s: StoreView)
    requires
        s.well_formed(),
    ensures
        s.init().well_formed(),
{
    let existing = index_names(s.indexes);
    let missing = spec_missing_indexes(existing);
    lemma_missing_indexes(existing);
    let names = index_names(s.init().indexes);
    assert(names =~= existing + index_names(missing));
    assert forall|a: int, b: int|
        0 <= a < names.len() && 0 <= b < names.len() && a != b implies names[a] != names[b] by {
        let n: int = existing.len() as int;
        if a < n && b < n {
        } else if a >= n && b >= n {
            assert(index_names(missing)[a - n] != index_names(missing)[b - n]);
        } else if a < n {
            assert(names[b] == missing[b - n].name);
            assert(existing[a] == names[a]);
        } else {
            assert(names[a] == missing[a - n].name);
            assert(existing[b] == names[b]);
        }
    }
    assert forall|k: int| 0 <= k < spec_required_indexes().len() implies s.init().has_index(
        (#[trigger] spec_required_indexes()[k]).name,
    ) by {
        let d = spec_required_indexes()[k];
        if existing.contains(d.name) {
            let i = choose|i: int| 0 <= i < existing.len() && existing[i] == d.name;
            assert(names[i] == d.name);
        } else {
            assert(missing.contains(d));
            let j = choose|j: int| 0 <= j < missing.len() && missing[j] == d;
            assert(names[existing.len() + j] == d.name);
        }
    }
}

/// In a well-formed store the row of an identity has one place only.
pub proof fn lemma_position(s: StoreView, id: Identity, i: int)
    requires
        s.well_formed(),
        0 <= i < s.rows.len(),
        s.rows[i].identity() == id,
    ensures
        s.holds(id),
        s.position(id) == i,
{
    let p = s.position(id);
    assert(0 <= p < s.rows.len() && s.rows[p].identity() == id);
}

/// The first row with a cache key is the one that no earlier row with
/// that key precedes.
pub proof fn lemma_first_with_cache_key(s: StoreView, cache_key: Seq<char>, i: int)
    requires
        s.is_first_with_cache_key(cache_key, i),
    ensures
        s.has_cache_key(cache_key),
        s.first_with_cache_key(cache_key) == Some(s.rows[i]),
{
    let c = choose|c: int| s.is_first_with_cache_key(cache_key, c);
    assert(s.is_first_with_cache_key(cache_key, c));
    if c < i {
        assert(s.rows[c].cache_key != cache_key);
    }
    if i < c {
        assert(s.rows[i].cache_key != cache_key);
    }
}

/// A save keeps a store well-formed.
pub proof fn lemma_save_keeps_well_formed(s: StoreView, record: ModelView)
    requires
        s.well_formed(),
    ensures
        s.save(record).well_formed(),
{
    if s.save_outcome(record) is Ok {
        let id = record.identity();
        let after = s.upsert(record);
        if s.holds(id) {
            let p = s.position(id);
            assert(0 <= p < s.rows.len() && s.rows[p].identity() == id);
            assert forall|i: int, j: int|
                0 <= i < after.rows.len() && 0 <= j < after.rows.len() && i != j implies #[trigger] after.rows[i].identity()
                != #[trigger] after.rows[j].identity() by {
                assert(after.rows[i].identity() == s.rows[i].identity());
                assert(after.rows[j].identity() == s.rows[j].identity());
            }
            assert forall|i: int| 0 <= i < after.rows.len() implies identity_fault(
                #[trigger] after.rows[i].identity(),
            ) is None by {
                assert(after.rows[i].identity() == s.rows[i].identity());
            }
        } else {
            assert forall|i: int, j: int|
                0 <= i < after.rows.len() && 0 <= j < after.rows.len() && i != j implies #[trigger] after.rows[i].identity()
                != #[trigger] after.rows[j].identity() by {
                if i < s.rows.len() {
                    assert(after.rows[i] == s.rows[i]);
                }
                if j < s.rows.len() {
                    assert(after.rows[j] == s.rows[j]);
                }
            }
            assert forall|i: int| 0 <= i < after.rows.len() implies identity_fault(
                #[trigger] after.rows[i].identity(),
            ) is None by {
                if i < s.rows.len() {
                    assert(after.rows[i] == s.rows[i]);
                }
            }
        }
    }
}

impl View for Store {
    type V = StoreView;

    closed spec fn view(&self) -> StoreView {
        StoreView {
            table_created: self.table_created,
            indexes: index_views(self.indexes@),
            rows: model_views(self.rows@),
        }
    }
}

impl Store {
    /// Whether the store is in order: its contents are well-formed, and
    /// the indexes on the cache key and on the chapter agree with the rows.
    pub closed spec fn well_formed(&self) -> bool {
        &&& self@.well_formed()
        &&& self.by_cache_key.well_formed()
        &&& self.by_cache_key@ == cache_keys(self@.rows)
        &&& self.by_chapter.well_formed()
        &&& self.by_chapter@ == chapter_uuids(self@.rows)
    }

    /// A store in order has well-formed contents.
    pub proof fn lemma_contents_well_formed(&self)
        requires
            self.well_formed(),
        ensures
            self@.well_formed(),
    {
    }

    /// A store before start-up: no table, no index, no row.
    pub fn new() -> (store: Store)
        ensures
            store@ == StoreView::empty(),
            store.well_formed(),
            store@.well_formed(),
    {
        let store = Store {
            table_created: false,
            indexes: Vec::new(),
            rows: Vec::new(),
            by_cache_key: ColumnIndex::new(),
            by_chapter: ColumnIndex::new(),
        };
        assert(store@.indexes =~= Seq::empty());
        assert(store@.rows =~= Seq::empty());
        assert(cache_keys(store@.rows) =~= Seq::empty());
        assert(chapter_uuids(store@.rows) =~= Seq::empty());
        assert(index_names(store@.indexes) =~= Seq::empty());
        store
    }

    /// Whether the table exists.
    pub fn table_exists(&self) -> (exists: bool)
        ensures
            exists == self@.table_created,
    {
        self.table_created
    }

    /// Whether an index of the given name exists.
    pub fn has_index(&self, name: &String) -> (exists: bool)
        ensures
            exists == self@.has_index(name@),
    {
        let names = self.index_names();
        contains_name(&names, name)
    }

    /// The number of rows.
    pub fn len(&self) -> (n: usize)
        ensures
            n == self@.rows.len(),
    {
        self.rows.len()
    }

    /// The rows, in storage order.
    pub fn rows(&self) -> (rows: Vec<Model>)
        ensures
            model_views(rows@) == self@.rows,
    {
        let mut rows: Vec<Model> = Vec::new();
        let mut i: usize = 0;
        while i < self.rows.len()
            invariant
                i <= self.rows.len(),
                rows.len() == i,
                forall|j: int| 0 <= j < i ==> rows@[j]@ == self.rows@[j]@,
            decreases self.rows.len() - i,
        {
            rows.push(self.rows[i].clone());
            i += 1;
        }
        assert(model_views(rows@) =~= self@.rows);
        rows
    }

    /// The indexes, in the order of their creation.
    pub fn indexes(&self) -> (defs: Vec<IndexDef>)
        ensures
            index_views(defs@) == self@.indexes,
    {
        let mut defs: Vec<IndexDef> = Vec::new();
        let mut i: usize = 0;
        while i < self.indexes.len()
            invariant
                i <= self.indexes.len(),
                defs.len() == i,
                forall|j: int| 0 <= j < i ==> defs@[j]@ == self.indexes@[j]@,
            decreases self.indexes.len() - i,
        {
            defs.push(self.indexes[i].clone());
            i += 1;
        }
        assert(index_views(defs@) =~= self@.indexes);
        defs
    }

    /// The names of the indexes that exist, in the order of their creation.
    pub fn index_names(&self) -> (names: Vec<String>)
        ensures
            strings_view(names@) == index_names(self@.indexes),
    {
        let mut names: Vec<String> = Vec::new();
        let mut i: usize = 0;
        while i < self.indexes.len()
            invariant
                i <= self.indexes.len(),
                names.len() == i,
                forall|j: int| 0 <= j < i ==> names@[j]@ == self.indexes@[j].name@,
            decreases self.indexes.len() - i,
        {
            names.push(self.indexes[i].name.clone());
            i += 1;
        }
        assert(strings_view(names@) =~= index_names(self@.indexes));
        names
    }

    /// Starts the store: creates the table unless it exists, then creates
    /// each required index unless an index of its name exists. Rows are
    /// kept. May be repeated at will: a second start-up changes nothing.
    pub fn init(&mut self)
        requires
            old(self).well_formed(),
        ensures
            final(self)@ == old(self)@.init(),
            final(self).well_formed(),
            final(self)@.well_formed(),
    {
        proof {
            lemma_init_keeps_well_formed(self@);
        }
        let names = self.index_names();
        let mut missing = missing_indexes(&names);
        assert(index_views(self.indexes@ + missing@) =~= self@.indexes + index_views(missing@));
        self.table_created = true;
        self.indexes.append(&mut missing);
    }

    /// Looks up a page that was saved under the given cache key.
    ///
    /// Where several rows share the key, the first in storage order is
    /// returned: the one whose identity was saved earliest. `Ok(None)`
    /// says that no row has the key. The store is not changed. A store
    /// without a table refuses the look-up.
    pub fn has_download_pic(&self, cache_key: String) -> (found: Result<Option<Model>, Error>)
        requires
            self.well_formed(),
        ensures
            match found {
                Ok(hit) => self@.table_created && match hit {
                    Some(m) => self@.first_with_cache_key(cache_key@) == Some(m@),
                    None => self@.first_with_cache_key(cache_key@) is None,
                },
                Err(e) => !self@.table_created && e == Error::Storage(
                    StorageError::TableMissing,
                ),
            },
    {
        if !self.table_created {
            return Err(Error::Storage(StorageError::TableMissing));
        }
        match self.by_cache_key.first(&cache_key) {
            Some(place) => {
                proof {
                    let keys = cache_keys(self@.rows);
                    assert(is_first_place_of(keys, cache_key@, place as int));
                    assert(self@.rows[place as int] == self.rows@[place as int]@);
                    assert(keys[place as int] == self@.rows[place as int].cache_key);
                    assert forall|j: int| 0 <= j < place implies (#[trigger] self@.rows[j]).cache_key
                        != cache_key@ by {
                        assert(keys[j] == self@.rows[j].cache_key);
                    }
                    lemma_first_with_cache_key(self@, cache_key@, place as int);
                }
                Ok(Some(self.rows[place].clone()))
            },
            None => {
                proof {
                    let keys = cache_keys(self@.rows);
                    assert forall|j: int| 0 <= j < self@.rows.len() implies (
                    #[trigger] self@.rows[j]).cache_key != cache_key@ by {
                        assert(keys[j] == self@.rows[j].cache_key);
                    }
                }
                Ok(None)
            },
        }
    }

    /// Writes a page record: replaces the row of the same identity where
    /// the table holds one, and adds the record as the last row where it
    /// holds none. All fields but the identity are overwritten.
    ///
    /// A record with a malformed identity is refused before the store is
    /// looked at; a store without a table refuses every record. A refused
    /// save leaves the store as it was. An accepted save returns the row
    /// as stored.
    pub fn save(&mut self, record: Model) -> (saved: Result<Model, Error>)
        requires
            old(self).well_formed(),
        ensures
            final(self)@ == old(self)@.save(record@),
            final(self).well_formed(),
            final(self)@.well_formed(),
            match saved {
                Ok(stored) => old(self)@.save_outcome(record@) is Ok && stored@ == record@,
                Err(e) => old(self)@.save_outcome(record@) == Err::<(), Error>(e),
            },
    {
        proof {
            lemma_save_keeps_well_formed(self@, record@);
        }
        match record.validate() {
            Err(e) => {
                return Err(Error::Validation(e));
            },
            Ok(()) => {},
        }
        if !self.table_created {
            return Err(Error::Storage(StorageError::TableMissing));
        }
        let stored = record.clone();
        match self.place_of(&record) {
            Some(i) => {
                proof {
                    lemma_position(self@, record@.identity(), i as int);
                    assert(self@.rows[i as int] == self.rows@[i as int]@);
                    assert(model_views(self.rows@.update(i as int, record)) =~= model_views(
                        self.rows@,
                    ).update(i as int, record@));
                    assert(cache_keys(self@.rows)[i as int] == self@.rows[i as int].cache_key);
                    assert(cache_keys(self@.rows.update(i as int, record@)) =~= cache_keys(
                        self@.rows,
                    ).update(i as int, record@.cache_key));
                    assert(chapter_uuids(self@.rows.update(i as int, record@)) =~= chapter_uuids(
                        self@.rows,
                    ));
                }
                let from = self.rows[i].cache_key.clone();
                self.by_cache_key.set(i, &from, &record.cache_key);
                self.rows.set(i, record);
            },
            None => {
                proof {
                    assert(model_views(self.rows@.push(record)) =~= model_views(self.rows@).push(
                        record@,
                    ));
                    assert(cache_keys(self@.rows.push(record@)) =~= cache_keys(self@.rows).push(
                        record@.cache_key,
                    ));
                    assert(chapter_uuids(self@.rows.push(record@)) =~= chapter_uuids(
                        self@.rows,
                    ).push(record@.chapter_uuid));
                }
                self.by_cache_key.push(&record.cache_key, self.rows.len());
                self.by_chapter.push(&record.chapter_uuid, self.rows.len());
                self.rows.push(record);
            },
        }
        Ok(stored)
    }

    /// The place of the row with the identity of `record`; `None` where
    /// the table holds no such row. Only the rows of the record's chapter
    /// are looked at.
    fn place_of(&self, record: &Model) -> (place: Option<usize>)
        requires
            self.well_formed(),
        ensures
            match place {
                Some(i) => i < self@.rows.len() && self@.rows[i as int].identity()
                    == record@.identity(),
                None => !self@.holds(record@.identity()),
            },
    {
        let ghost chapters = chapter_uuids(self@.rows);
        match self.by_chapter.places(&record.chapter_uuid) {
            Some(places) => {
                let mut k: usize = 0;
                while k < places.len()
                    invariant
                        k <= places.len(),
                        self.well_formed(),
                        chapters == chapter_uuids(self@.rows),
                        lists_places_of(places@, chapters, record@.chapter_uuid),
                        forall|j: int|
                            0 <= j < k ==> self@.rows[(#[trigger] places@[j]) as int].identity()
                                != record@.identity(),
                    decreases places.len() - k,
                {
                    let i = places[k];
                    proof {
                        assert(lists(places@, i as int));
                        assert(self@.rows[i as int] == self.rows@[i as int]@);
                    }
                    if self.rows[i].same_identity(record) {
                        return Some(i);
                    }
                    k += 1;
                }
                proof {
                    assert forall|q: int| 0 <= q < self@.rows.len() implies (
                    #[trigger] self@.rows[q]).identity() != record@.identity() by {
                        if self@.rows[q].identity() == record@.identity() {
                            assert(chapters[q] == record@.chapter_uuid);
                            assert(lists(places@, q));
                            let j = choose|j: int| 0 <= j < places@.len() && #[trigger] places@[j] == q;
                            assert(self@.rows[places@[j] as int].identity() != record@.identity());
                        }
                    }
                }
                None
            },
            None => {
                proof {
                    assert forall|q: int| 0 <= q < self@.rows.len() implies (
                    #[trigger] self@.rows[q]).identity() != record@.identity() by {
                        assert(chapters[q] == self@.rows[q].chapter_uuid);
                    }
                }
                None
            },
        }
    }
}

} // verus!
