//! The table of page records and the secondary indexes it needs.
//!
//! The indexes are given as one list. Index names follow from the table and
//! the column, so that an index can be looked up by name at start-up.

use vstd::prelude::*;
use vstd::string::StringExecFns;

verus! {

/// The table that holds the page records.
pub const TABLE_NAME: &'static str = "download_comic_page";

/// What stands between table and column in an index name.
pub const INDEX_INFIX: &'static str = "_idx_";

/// A secondary index: its name, its table, and the columns it covers.
#[derive(Debug, PartialEq)]
pub struct IndexDef {
    pub name: String,
    pub table: String,
    pub columns: Vec<String>,
}

/// An index definition as a mathematical value.
pub struct IndexDefView {
    pub name: Seq<char>,
    pub table: Seq<char>,
    pub columns: Seq<Seq<char>>,
}

/// The contents of a list of strings.
pub open spec fn strings_view(v: Seq<String>) -> Seq<Seq<char>> {
    v.map_values(|s: String| s@)
}

/// The contents of a list of index definitions.
pub open spec fn index_views(v: Seq<IndexDef>) -> Seq<IndexDefView> {
    v.map_values(|d: IndexDef| d@)
}

/// The names of a list of index definitions, in order.
pub open spec fn index_names(v: Seq<IndexDefView>) -> Seq<Seq<char>> {
    v.map_values(|d: IndexDefView| d.name)
}

impl View for IndexDef {
    type V = IndexDefView;

    open spec fn view(&self) -> IndexDefView {
        IndexDefView {
            name: self.name@,
            table: self.table@,
            columns: strings_view(self.columns@),
        }
    }
}

/// The name of the index on one column of a table:
/// the table, `_idx_`, the column.
pub open spec fn spec_index_name(table: Seq<char>, column: Seq<char>) -> Seq<char> {
    table + INDEX_INFIX@ + column
}

/// The index on one column of the page table.
pub open spec fn spec_index_on(column: Seq<char>) -> IndexDefView {
    IndexDefView {
        name: spec_index_name(TABLE_NAME@, column),
        table: TABLE_NAME@,
        columns: seq![column],
    }
}

/// The columns that carry an index, in the order in which the indexes are
/// created: by comic, by chapter, by cache key, by source address.
pub open spec fn spec_indexed_columns() -> Seq<Seq<char>> {
    seq!["comic_path_word"@, "chapter_uuid"@, "cache_key"@, "url"@]
}

/// The indexes that the page table needs, in the order of their creation.
pub open spec fn spec_required_indexes() -> Seq<IndexDefView> {
    spec_indexed_columns().map_values(|c: Seq<char>| spec_index_on(c))
}

/// Tells whether no index of the given names has the definition's name.
pub open spec fn is_missing_from(existing: Seq<Seq<char>>) -> spec_fn(IndexDefView) -> bool {
    |d: IndexDefView| !existing.contains(d.name)
}

/// The required indexes that are still to be created when the indexes named
/// in `existing` are there: those whose name is not among them, in the
/// order of the required list.
pub open spec fn spec_missing_indexes(existing: Seq<Seq<char>>) -> Seq<IndexDefView> {
    spec_required_indexes().filter(is_missing_from(existing))
}

/// Copies a list of strings.
fn clone_strings(v: &Vec<String>) -> (copy: Vec<String>)
    ensures
        strings_view(copy@) == strings_view(v@),
{
    let mut copy: Vec<String> = Vec::new();
    let mut i: usize = 0;
    while i < v.len()
        invariant
            i <= v.len(),
            copy.len() == i,
            forall|j: int| 0 <= j < i ==> copy@[j]@ == v@[j]@,
        decreases v.len() - i,
    {
        copy.push(v[i].clone());
        i += 1;
    }
    assert(strings_view(copy@) =~= strings_view(v@));
    copy
}

impl Clone for IndexDef {
    fn clone(&self) -> (copy: IndexDef)
        ensures
            copy@ == self@,
    {
        IndexDef {
            name: self.name.clone(),
            table: self.table.clone(),
            columns: clone_strings(&self.columns),
        }
    }
}

/// Builds the name of the index on one column of a table.
pub fn index_name(table: &str, column: &str) -> (name: String)
    ensures
        name@ == spec_index_name(table@, column@),
{
    String::from_str(table).concat(INDEX_INFIX).concat(column)
}

/// Builds the definition of the index on one column of the page table.
pub fn index_on(column: &str) -> (def: IndexDef)
    ensures
        def@ == spec_index_on(column@),
{
    let mut columns: Vec<String> = Vec::new();
    columns.push(String::from_str(column));
    assert(strings_view(columns@) =~= seq![column@]);
    IndexDef {
        name: index_name(TABLE_NAME, column),
        table: String::from_str(TABLE_NAME),
        columns,
    }
}

/// The indexes that the page table needs, in the order of their creation.
pub fn required_indexes() -> (defs: Vec<IndexDef>)
    ensures
        index_views(defs@) == spec_required_indexes(),
{
    let mut defs: Vec<IndexDef> = Vec::new();
    defs.push(index_on("comic_path_word"));
    defs.push(index_on("chapter_uuid"));
    defs.push(index_on("cache_key"));
    defs.push(index_on("url"));
    assert(index_views(defs@) =~= spec_required_indexes());
    defs
}

/// Tells whether a list of names holds the given name.
pub fn contains_name(names: &Vec<String>, name: &String) -> (found: bool)
    ensures
        found == strings_view(names@).contains(name@),
{
    let mut i: usize = 0;
    while i < names.len()
        invariant
            i <= names.len(),
            forall|j: int| 0 <= j < i ==> names@[j]@ != name@,
        decreases names.len() - i,
    {
        if names[i] == *name {
            assert(strings_view(names@)[i as int] == name@);
            return true;
        }
        i += 1;
    }
    assert(!strings_view(names@).contains(name@)) by {
        if strings_view(names@).contains(name@) {
            let j = choose|j: int|
                0 <= j < strings_view(names@).len() && strings_view(names@)[j] == name@;
            assert(names@[j]@ == name@);
        }
    }
    false
}

/// Decides which indexes to create, given the names of the indexes that
/// exist: each required index whose name is not among them, in the order
/// of the required list.
pub fn missing_indexes(existing: &Vec<String>) -> (missing: Vec<IndexDef>)
    ensures
        index_views(missing@) == spec_missing_indexes(strings_view(existing@)),
{
    let required = required_indexes();
    let ghost pred = is_missing_from(strings_view(existing@));
    let mut missing: Vec<IndexDef> = Vec::new();
    let mut k: usize = 0;
    proof {
        reveal(Seq::filter);
        assert(spec_required_indexes().take(0).filter(pred) =~= index_views(missing@));
    }
    while k < required.len()
        invariant
            k <= required.len(),
            index_views(required@) == spec_required_indexes(),
            pred == is_missing_from(strings_view(existing@)),
            index_views(missing@) == spec_required_indexes().take(k as int).filter(pred),
        decreases required.len() - k,
    {
        let ghost before = index_views(missing@);
        let ghost def = index_views(required@)[k as int];
        proof {
            assert(def == required@[k as int]@);
            assert(spec_required_indexes().take(k + 1) =~= spec_required_indexes().take(
                k as int,
            ).push(def));
            spec_required_indexes().take(k as int).lemma_filter_push(def, pred);
        }
        if !contains_name(existing, &required[k].name) {
            missing.push(required[k].clone());
            assert(index_views(missing@) =~= before.push(def));
        }
        k += 1;
    }
    assert(spec_required_indexes().take(k as int) =~= spec_required_indexes());
    missing
}

/// The names of the four column literals differ in length, and so do the
/// index names built from them.
pub proof fn lemma_required_names_distinct()
    ensures
        spec_required_indexes().len() == 4,
        index_names(spec_required_indexes()).no_duplicates(),
{
    reveal_strlit("comic_path_word");
    reveal_strlit("chapter_uuid");
    reveal_strlit("cache_key");
    reveal_strlit("url");
    let names = index_names(spec_required_indexes());
    assert forall|i: int, j: int| 0 <= i < names.len() && 0 <= j < names.len() && i != j implies names[i]
        != names[j] by {
        assert(names[i].len() == TABLE_NAME@.len() + INDEX_INFIX@.len() + spec_indexed_columns()[i].len());
        assert(names[j].len() == TABLE_NAME@.len() + INDEX_INFIX@.len() + spec_indexed_columns()[j].len());
    }
}

} // verus!
