//! The shapes in which the content service describes comics, chapters and
//! pages. The store takes from them the comic's slug, the chapter's
//! identifier and the addresses of the page images.

use vstd::prelude::*;

verus! {

/// `serde_json::Value`: any JSON value. Carried through as it came.
#[verifier::external_type_specification]
#[verifier::external_body]
pub struct ExValue(serde_json::Value);

/// `linked_hash_map::LinkedHashMap`: a hash map that keeps the order in
/// which its keys were inserted. Carried through as it came.
#[verifier::external_type_specification]
#[verifier::external_body]
#[verifier::reject_recursive_types(K)]
#[verifier::reject_recursive_types(V)]
#[verifier::reject_recursive_types(S)]
pub struct ExLinkedHashMap<K, V, S>(linked_hash_map::LinkedHashMap<K, V, S>);

/// `Clone` of `serde_json::Value`: the derived copy. Nothing is claimed of
/// it here.
pub assume_specification[ <serde_json::Value as Clone>::clone ](
    value: &serde_json::Value,
) -> serde_json::Value
;

/// `Clone` of `LinkedHashMap`: a new map with clones of the entries, in
/// the same order. Nothing is claimed of it here.
pub assume_specification<K, V, S>[ <linked_hash_map::LinkedHashMap<K, V, S> as Clone>::clone ](
    map: &linked_hash_map::LinkedHashMap<K, V, S>,
) -> linked_hash_map::LinkedHashMap<K, V, S> where
    K: core::hash::Hash + Eq + Clone,
    V: Clone,
    S: core::hash::BuildHasher + Clone,

;

/// The envelope of every answer of the content service.
#[derive(Default, Debug, Clone, PartialEq)]
pub struct Response {
    pub code: u16,
    pub message: String,
    pub results: serde_json::Value,
}

/// The tags by which comics can be browsed.
#[derive(Default, Debug, Clone, PartialEq)]
pub struct Tags {
    pub ordering: Vec<Tag>,
    pub theme: Vec<Theme>,
    pub top: Vec<Tag>,
}

/// A tag: its display name and its slug.
#[derive(Default, Debug, Clone, PartialEq)]
pub struct Tag {
    pub name: String,
    pub path_word: String,
}

/// A theme with the number of comics under it.
#[derive(Default, Debug, Clone, PartialEq)]
pub struct Theme {
    pub color_h5: serde_json::Value,
    pub count: i64,
    pub initials: i64,
    pub logo: serde_json::Value,
    pub name: String,
    pub path_word: String,
}

/// One page of a paged list, with the paging that produced it.
#[derive(Default, Debug, Clone, PartialEq)]
pub struct Page<T> {
    pub list: Vec<T>,
    pub total: i64,
    pub limit: i64,
    pub offset: i64,
}

/// A comic as a search result lists it.
#[derive(Default, Debug, Clone, PartialEq)]
pub struct ComicInSearch {
    pub name: String,
    pub alias: Option<String>,
    pub path_word: String,
    pub cover: String,
    pub ban: i64,
    pub img_type: i64,
    pub author: Vec<Author>,
    pub popular: i64,
}

/// An author of a comic.
#[derive(Default, Debug, Clone, PartialEq)]
pub struct Author {
    pub name: String,
    pub alias: Option<String>,
    pub path_word: String,
}

/// A comic with its place in a ranking.
#[derive(Default, Debug, Clone, PartialEq)]
pub struct RankItem {
    pub comic: ComicInList,
    pub date_type: i64,
    pub popular: i64,
    pub rise_num: i64,
    pub rise_sort: i64,
    pub sort: i64,
    pub sort_last: i64,
}

/// A comic as a list shows it.
#[derive(Default, Debug, Clone, PartialEq)]
pub struct ComicInList {
    pub author: Vec<Author>,
    pub cover: String,
    pub females: Vec<serde_json::Value>,
    pub img_type: i64,
    pub males: Vec<serde_json::Value>,
    pub name: String,
    pub path_word: String,
    pub popular: i64,
    pub theme: Vec<serde_json::Value>,
}

/// A comic with its chapter groups, keyed by group slug in the order given.
#[derive(Default, Debug, Clone, PartialEq)]
pub struct ComicData {
    pub comic: Comic,
    pub groups: linked_hash_map::LinkedHashMap<String, Group>,
    pub is_lock: bool,
    pub is_login: bool,
    pub is_mobile_bind: bool,
    pub is_vip: bool,
    pub popular: i64,
}

/// A comic in full.
#[derive(Default, Debug, Clone, PartialEq)]
pub struct Comic {
    pub alias: Option<String>,
    pub author: Vec<Author>,
    pub b_404: bool,
    pub b_hidden: bool,
    pub ban: i64,
    pub brief: String,
    pub close_comment: bool,
    pub close_roast: bool,
    pub clubs: Vec<serde_json::Value>,
    pub cover: String,
    pub datetime_updated: String,
    pub females: Vec<serde_json::Value>,
    pub free_type: ClassifyItem,
    pub img_type: i64,
    pub last_chapter: LastChapter,
    pub males: Vec<serde_json::Value>,
    pub name: String,
    pub parodies: Vec<serde_json::Value>,
    pub path_word: String,
    pub popular: i64,
    pub reclass: ClassifyItem,
    pub region: ClassifyItem,
    pub restrict: ClassifyItem,
    pub seo_baidu: String,
    pub status: ClassifyItem,
    pub theme: Vec<Tag>,
    pub uuid: String,
}

/// The newest chapter of a comic.
#[derive(Default, Debug, Clone, PartialEq)]
pub struct LastChapter {
    pub name: String,
    pub uuid: String,
}

/// A classification: display text and value.
#[derive(Default, Debug, Clone, PartialEq)]
pub struct ClassifyItem {
    pub display: String,
    pub value: i64,
}

/// A group of chapters of a comic.
#[derive(Default, Debug, Clone, PartialEq)]
pub struct Group {
    pub count: i64,
    pub name: String,
    pub path_word: String,
}

/// A chapter as the chapter list of a comic shows it.
#[derive(Default, Debug, Clone, PartialEq)]
pub struct ComicChapter {
    pub comic_id: String,
    pub comic_path_word: String,
    pub count: i64,
    pub datetime_created: String,
    pub group_id: serde_json::Value,
    pub group_path_word: String,
    pub img_type: i64,
    pub index: i64,
    pub name: String,
    pub news: String,
    pub next: Option<String>,
    pub ordered: i64,
    pub prev: Option<String>,
    pub size: i64,
    /// Named `type` on the wire.
    pub type_field: i64,
    pub uuid: String,
}

/// What the service knows of the reader with regard to one comic.
#[derive(Default, Debug, Clone, PartialEq)]
pub struct ComicQuery {
    pub browse: serde_json::Value,
    pub collect: serde_json::Value,
    pub is_lock: bool,
    pub is_login: bool,
    pub is_mobile_bind: bool,
    pub is_vip: bool,
}

/// A chapter with its pages, and the comic it belongs to.
#[derive(Default, Debug, Clone, PartialEq)]
pub struct ChapterData {
    pub chapter: ChapterAndContents,
    pub comic: ChapterComicInfo,
    pub is_lock: bool,
    pub is_login: bool,
    pub is_mobile_bind: bool,
    pub is_vip: bool,
    pub show_app: bool,
}

/// A chapter with the ordered list of its page images.
#[derive(Default, Debug, Clone, PartialEq)]
pub struct ChapterAndContents {
    pub comic_id: String,
    pub comic_path_word: String,
    pub contents: Vec<ChapterImage>,
    pub count: i64,
    pub datetime_created: String,
    pub group_id: serde_json::Value,
    pub group_path_word: String,
    pub img_type: i64,
    pub index: i64,
    pub is_long: bool,
    pub name: String,
    pub news: String,
    pub next: Option<String>,
    pub ordered: i64,
    pub prev: Option<String>,
    pub size: i64,
    /// Named `type` on the wire.
    pub type_field: i64,
    pub uuid: String,
    pub words: Vec<i64>,
}

/// One page image of a chapter: its address.
#[derive(Default, Debug, Clone, PartialEq)]
pub struct ChapterImage {
    pub url: String,
}

/// The comic that a chapter belongs to.
#[derive(Default, Debug, Clone, PartialEq)]
pub struct ChapterComicInfo {
    pub name: String,
    pub path_word: String,
    pub restrict: ClassifyItem,
    pub uuid: String,
}

/// A recommended comic.
#[derive(Default, Debug, Clone, PartialEq)]
pub struct RecommendItem {
    /// Named `type` on the wire.
    pub type_field: i64,
    pub comic: ComicInList,
}

/// A comic as the explore view shows it.
#[derive(Default, Debug, Clone, PartialEq)]
pub struct ComicInExplore {
    pub name: String,
    pub path_word: String,
    pub free_type: ClassifyItem,
    pub females: Vec<serde_json::Value>,
    pub males: Vec<serde_json::Value>,
    pub author: Vec<Author>,
    pub theme: Vec<serde_json::Value>,
    pub cover: String,
    pub popular: i64,
    pub datetime_updated: String,
}

} // verus!
