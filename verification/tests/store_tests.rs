use comic_download::model::{Model, ValidationError};
use comic_download::schema::required_indexes;
use comic_download::status::DownloadStatus;
use comic_download::store::{Error, StorageError, Store};

fn page(comic: &str, chapter: &str, index: i32, cache_key: &str) -> Model {
    Model {
        comic_path_word: comic.to_string(),
        chapter_uuid: chapter.to_string(),
        image_index: index,
        url: format!("https://x/{}/{}/{}.jpg", comic, chapter, index),
        cache_key: cache_key.to_string(),
        download_status: DownloadStatus::Done.code(),
        width: 800,
        height: 1200,
        format: "jpeg".to_string(),
    }
}

fn solo_leveling() -> Model {
    Model {
        comic_path_word: "solo-leveling".to_string(),
        chapter_uuid: "c1-uuid".to_string(),
        image_index: 0,
        url: "https://x/a.jpg".to_string(),
        cache_key: "h-abc".to_string(),
        download_status: DownloadStatus::Done.code(),
        width: 800,
        height: 1200,
        format: "jpeg".to_string(),
    }
}

fn started() -> Store {
    let mut store = Store::new();
    store.init();
    store
}

fn index_names() -> Vec<String> {
    vec![
        "download_comic_page_idx_comic_path_word".to_string(),
        "download_comic_page_idx_chapter_uuid".to_string(),
        "download_comic_page_idx_cache_key".to_string(),
        "download_comic_page_idx_url".to_string(),
    ]
}

#[test]
fn new_store_has_no_table_no_index_no_row() {
    let store = Store::new();
    assert!(!store.table_exists());
    assert_eq!(store.index_names(), Vec::<String>::new());
    assert_eq!(store.indexes(), Vec::new());
    assert_eq!(store.len(), 0);
    assert_eq!(store.rows(), Vec::new());
}

#[test]
fn init_creates_table_and_the_four_indexes() {
    let store = started();
    assert!(store.table_exists());
    assert_eq!(store.index_names(), index_names());
    assert_eq!(store.indexes(), required_indexes());
    assert_eq!(store.len(), 0);
    for name in index_names() {
        assert!(store.has_index(&name));
    }
    assert!(!store.has_index(&"download_comic_page_idx_format".to_string()));
}

#[test]
fn init_repeated_leaves_one_table_and_one_of_each_index() {
    let mut store = Store::new();
    for _ in 0..5 {
        store.init();
        assert!(store.table_exists());
        assert_eq!(store.index_names(), index_names());
    }
    for name in index_names() {
        let count = store.index_names().iter().filter(|n| **n == name).count();
        assert_eq!(count, 1);
    }
}

#[test]
fn init_keeps_the_rows() {
    let mut store = started();
    store.save(solo_leveling()).unwrap();
    store.save(page("c", "h", 1, "k")).unwrap();
    let before = store.rows();
    store.init();
    assert_eq!(store.rows(), before);
    assert_eq!(store.index_names(), index_names());
}

#[test]
fn save_before_init_is_refused_by_the_store() {
    let mut store = Store::new();
    assert_eq!(
        store.save(solo_leveling()),
        Err(Error::Storage(StorageError::TableMissing))
    );
    assert_eq!(store.len(), 0);
    assert!(!store.table_exists());
}

#[test]
fn lookup_before_init_is_refused_by_the_store() {
    let store = Store::new();
    assert_eq!(
        store.has_download_pic("h-abc".to_string()),
        Err(Error::Storage(StorageError::TableMissing))
    );
}

#[test]
fn validation_comes_before_the_store_is_looked_at() {
    let mut store = Store::new();
    let mut bad = solo_leveling();
    bad.comic_path_word = String::new();
    assert_eq!(
        store.save(bad),
        Err(Error::Validation(ValidationError::EmptyComicPathWord))
    );
}

#[test]
fn save_refuses_each_malformed_identity_and_changes_nothing() {
    let mut store = started();
    store.save(solo_leveling()).unwrap();
    let before = store.rows();

    let mut bad = solo_leveling();
    bad.comic_path_word = String::new();
    assert_eq!(
        store.save(bad),
        Err(Error::Validation(ValidationError::EmptyComicPathWord))
    );
    let mut bad = solo_leveling();
    bad.chapter_uuid = String::new();
    assert_eq!(
        store.save(bad),
        Err(Error::Validation(ValidationError::EmptyChapterUuid))
    );
    let mut bad = solo_leveling();
    bad.image_index = -1;
    assert_eq!(
        store.save(bad),
        Err(Error::Validation(ValidationError::NegativeImageIndex))
    );
    assert_eq!(store.rows(), before);
}

#[test]
fn save_returns_the_row_as_stored() {
    let mut store = started();
    assert_eq!(store.save(solo_leveling()), Ok(solo_leveling()));
    assert_eq!(store.rows(), vec![solo_leveling()]);
}

#[test]
fn save_then_lookup_returns_that_exact_record() {
    let mut store = started();
    store.save(solo_leveling()).unwrap();
    assert_eq!(
        store.has_download_pic("h-abc".to_string()),
        Ok(Some(solo_leveling()))
    );
}

#[test]
fn lookup_of_unknown_key_is_empty() {
    let mut store = started();
    assert_eq!(store.has_download_pic("k1".to_string()), Ok(None));
    let mut rec = solo_leveling();
    rec.cache_key = "k1".to_string();
    store.save(rec.clone()).unwrap();
    let hit = store.has_download_pic("k1".to_string()).unwrap().unwrap();
    assert_eq!(hit.cache_key, "k1");
    assert_eq!(hit, rec);
    assert_eq!(store.has_download_pic("unknown".to_string()), Ok(None));
    assert_eq!(store.has_download_pic("".to_string()), Ok(None));
    assert_eq!(store.has_download_pic("K1".to_string()), Ok(None));
}

#[test]
fn lookup_does_not_change_the_store() {
    let mut store = started();
    store.save(solo_leveling()).unwrap();
    store.save(page("c", "h", 1, "k")).unwrap();
    let before = store.rows();
    let _ = store.has_download_pic("h-abc".to_string());
    let _ = store.has_download_pic("unknown".to_string());
    assert_eq!(store.rows(), before);
    assert_eq!(store.index_names(), index_names());
}

#[test]
fn save_twice_with_one_identity_keeps_one_row_with_the_second_values() {
    let mut store = started();
    store.save(solo_leveling()).unwrap();
    let mut second = solo_leveling();
    second.format = "png".to_string();
    second.width = 640;
    second.height = 480;
    assert_eq!(store.save(second.clone()), Ok(second.clone()));
    assert_eq!(store.len(), 1);
    assert_eq!(store.rows(), vec![second]);
}

#[test]
fn save_failed_then_done_ends_with_one_done_row() {
    let mut store = started();
    store.save(solo_leveling()).unwrap();

    let mut failed = solo_leveling();
    failed.download_status = DownloadStatus::Failed.code();
    failed.format = String::new();
    failed.width = 0;
    failed.height = 0;
    store.save(failed.clone()).unwrap();
    assert_eq!(store.rows(), vec![failed]);

    let mut done = solo_leveling();
    done.format = "webp".to_string();
    store.save(done.clone()).unwrap();

    assert_eq!(store.len(), 1);
    let row = &store.rows()[0];
    assert_eq!(row.format, "webp");
    assert_eq!(row.download_status, DownloadStatus::Done.code());
    assert_eq!(row.status(), Some(DownloadStatus::Done));
    assert_eq!(*row, done);
}

#[test]
fn save_overwrites_every_field_but_the_identity() {
    let mut store = started();
    store.save(solo_leveling()).unwrap();
    let replaced = Model {
        comic_path_word: "solo-leveling".to_string(),
        chapter_uuid: "c1-uuid".to_string(),
        image_index: 0,
        url: "https://cdn2/a.webp".to_string(),
        cache_key: "h-xyz".to_string(),
        download_status: DownloadStatus::Downloading.code(),
        width: 0,
        height: 0,
        format: String::new(),
    };
    store.save(replaced.clone()).unwrap();
    assert_eq!(store.rows(), vec![replaced.clone()]);
    assert_eq!(store.has_download_pic("h-abc".to_string()), Ok(None));
    assert_eq!(store.has_download_pic("h-xyz".to_string()), Ok(Some(replaced)));
}

#[test]
fn records_differing_in_one_identity_field_are_different_rows() {
    let mut store = started();
    store.save(page("a", "h", 0, "k")).unwrap();
    store.save(page("b", "h", 0, "k")).unwrap();
    store.save(page("a", "i", 0, "k")).unwrap();
    store.save(page("a", "h", 1, "k")).unwrap();
    assert_eq!(store.len(), 4);
}

#[test]
fn many_saves_of_one_identity_in_any_order_leave_one_row_of_the_last() {
    let payloads: Vec<Model> = (0..6u32)
        .map(|i| {
            let mut m = solo_leveling();
            m.width = 100 + i;
            m.height = 200 + i;
            m.format = format!("f{}", i);
            m
        })
        .collect();
    let orders: Vec<Vec<usize>> = vec![
        vec![0, 1, 2, 3, 4, 5],
        vec![5, 4, 3, 2, 1, 0],
        vec![2, 5, 0, 3, 1, 4],
        vec![3, 3, 3, 0, 0, 1],
    ];
    for order in orders {
        let mut store = started();
        store.save(page("other", "h", 0, "k")).unwrap();
        for i in &order {
            store.save(payloads[*i].clone()).unwrap();
        }
        let last = payloads[*order.last().unwrap()].clone();
        assert_eq!(store.len(), 2);
        assert_eq!(store.rows()[1], last);
        let same: Vec<Model> = store
            .rows()
            .into_iter()
            .filter(|r| r.same_identity(&last))
            .collect();
        assert_eq!(same, vec![last]);
    }
}

#[test]
fn rows_keep_the_order_of_first_save() {
    let mut store = started();
    store.save(page("a", "h", 0, "k0")).unwrap();
    store.save(page("a", "h", 1, "k1")).unwrap();
    store.save(page("a", "h", 2, "k2")).unwrap();
    let mut again = page("a", "h", 0, "k0");
    again.format = "png".to_string();
    store.save(again.clone()).unwrap();
    assert_eq!(
        store.rows(),
        vec![again, page("a", "h", 1, "k1"), page("a", "h", 2, "k2")]
    );
}

#[test]
fn lookup_among_rows_sharing_a_key_returns_the_first_in_storage_order() {
    let mut store = started();
    store.save(page("a", "h", 0, "other")).unwrap();
    store.save(page("a", "h", 1, "shared")).unwrap();
    store.save(page("b", "i", 0, "shared")).unwrap();
    store.save(page("c", "j", 5, "shared")).unwrap();
    assert_eq!(
        store.has_download_pic("shared".to_string()),
        Ok(Some(page("a", "h", 1, "shared")))
    );
    assert_eq!(store.len(), 4);
}

#[test]
fn lookup_tie_break_follows_the_place_of_the_row_not_the_time_of_the_save() {
    let mut store = started();
    store.save(page("a", "h", 0, "first")).unwrap();
    store.save(page("b", "i", 0, "shared")).unwrap();
    // The earliest row takes the shared key later: it is still the first row.
    store.save(page("a", "h", 0, "shared")).unwrap();
    assert_eq!(
        store.has_download_pic("shared".to_string()),
        Ok(Some(page("a", "h", 0, "shared")))
    );
    // It gives the key up again: the next row with the key is found.
    store.save(page("a", "h", 0, "first")).unwrap();
    assert_eq!(
        store.has_download_pic("shared".to_string()),
        Ok(Some(page("b", "i", 0, "shared")))
    );
}

#[test]
fn saved_rows_that_fit_their_status_keep_fitting() {
    let mut store = started();
    let mut failed = page("a", "h", 0, "k0");
    failed.download_status = DownloadStatus::Failed.code();
    failed.format = String::new();
    failed.width = 0;
    failed.height = 0;
    store.save(failed).unwrap();
    store.save(page("a", "h", 1, "k1")).unwrap();
    store
        .save(Model::not_started(
            "a".to_string(),
            "h".to_string(),
            2,
            "u".to_string(),
            "k2".to_string(),
        ))
        .unwrap();
    store.save(page("a", "h", 0, "k0")).unwrap();
    for row in store.rows() {
        assert!(row.payload_fits_status());
        if row.status() == Some(DownloadStatus::Done) {
            assert!(!row.format.is_empty() && row.width > 0 && row.height > 0);
        }
        if row.status() == Some(DownloadStatus::Failed) {
            assert!(row.format.is_empty() && row.width == 0 && row.height == 0);
        }
    }
}

#[test]
fn save_does_not_judge_image_data() {
    let mut store = started();
    let mut odd = solo_leveling();
    odd.format = String::new();
    odd.width = 0;
    assert!(!odd.payload_fits_status());
    assert_eq!(store.save(odd.clone()), Ok(odd.clone()));
    assert_eq!(store.rows(), vec![odd]);
}

#[test]
fn save_accepts_index_zero_and_the_largest_index() {
    let mut store = started();
    store.save(page("a", "h", 0, "k")).unwrap();
    store.save(page("a", "h", i32::MAX, "k")).unwrap();
    assert_eq!(store.len(), 2);
}

#[test]
fn save_leaves_the_indexes_alone() {
    let mut store = started();
    store.save(solo_leveling()).unwrap();
    assert_eq!(store.index_names(), index_names());
    assert!(store.table_exists());
}
