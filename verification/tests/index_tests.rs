use comic_download::index::ColumnIndex;
use comic_download::model::Model;
use comic_download::status::DownloadStatus;
use comic_download::store::Store;

fn s(text: &str) -> String {
    text.to_string()
}

fn filled(values: &[&str]) -> ColumnIndex {
    let mut index = ColumnIndex::new();
    for (place, value) in values.iter().enumerate() {
        index.push(&s(value), place);
    }
    index
}

fn first_by_scan(values: &[&str], wanted: &str) -> Option<usize> {
    values.iter().position(|v| *v == wanted)
}

#[test]
fn empty_index_finds_nothing() {
    let index = ColumnIndex::new();
    assert_eq!(index.first(&s("a")), None);
    assert_eq!(index.first(&s("")), None);
}

#[test]
fn index_push_makes_the_value_findable_at_its_place() {
    let mut index = ColumnIndex::new();
    index.push(&s("a"), 0);
    assert_eq!(index.first(&s("a")), Some(0));
    assert_eq!(index.first(&s("b")), None);
    index.push(&s("b"), 1);
    assert_eq!(index.first(&s("a")), Some(0));
    assert_eq!(index.first(&s("b")), Some(1));
}

#[test]
fn index_first_is_the_lowest_place_of_a_repeated_value() {
    let values = ["x", "a", "b", "a", "a", "b"];
    let index = filled(&values);
    assert_eq!(index.first(&s("a")), Some(1));
    assert_eq!(index.first(&s("b")), Some(2));
    assert_eq!(index.first(&s("x")), Some(0));
    assert_eq!(index.first(&s("y")), None);
}

#[test]
fn index_set_moves_a_place_from_one_value_to_another() {
    let mut index = filled(&["a", "b", "a"]);
    index.set(0, &s("a"), &s("b"));
    // column is now b, b, a
    assert_eq!(index.first(&s("a")), Some(2));
    assert_eq!(index.first(&s("b")), Some(0));
    index.set(2, &s("a"), &s("c"));
    // column is now b, b, c
    assert_eq!(index.first(&s("a")), None);
    assert_eq!(index.first(&s("c")), Some(2));
    index.set(0, &s("b"), &s("c"));
    // column is now c, b, c
    assert_eq!(index.first(&s("c")), Some(0));
    assert_eq!(index.first(&s("b")), Some(1));
}

#[test]
fn index_set_to_the_same_value_changes_nothing() {
    let mut index = filled(&["a", "b", "a"]);
    index.set(2, &s("a"), &s("a"));
    assert_eq!(index.first(&s("a")), Some(0));
    assert_eq!(index.first(&s("b")), Some(1));
}

#[test]
fn index_set_puts_a_place_between_lower_and_higher_ones() {
    let mut index = filled(&["k", "a", "b", "c", "k"]);
    index.set(2, &s("b"), &s("k"));
    assert_eq!(index.first(&s("k")), Some(0));
    index.set(0, &s("k"), &s("z"));
    assert_eq!(index.first(&s("k")), Some(2));
    index.set(2, &s("k"), &s("z"));
    assert_eq!(index.first(&s("k")), Some(4));
    assert_eq!(index.first(&s("z")), Some(0));
}

#[test]
fn index_agrees_with_a_scan_after_many_changes() {
    let alphabet = ["a", "b", "c", "d"];
    let mut column: Vec<&str> = Vec::new();
    let mut index = ColumnIndex::new();
    let mut seed: usize = 12345;
    for step in 0..400usize {
        seed = seed.wrapping_mul(1103515245).wrapping_add(12345) % 2147483648;
        let value = alphabet[(seed / 7) % alphabet.len()];
        if column.is_empty() || step % 3 != 0 {
            index.push(&s(value), column.len());
            column.push(value);
        } else {
            let place = (seed / 31) % column.len();
            index.set(place, &s(column[place]), &s(value));
            column[place] = value;
        }
        for wanted in alphabet {
            assert_eq!(index.first(&s(wanted)), first_by_scan(&column, wanted));
        }
    }
}

#[test]
fn store_lookup_agrees_with_a_scan_of_the_rows() {
    let mut store = Store::new();
    store.init();
    let keys = ["k0", "k1", "k2"];
    let mut seed: usize = 99;
    for _ in 0..300usize {
        seed = seed.wrapping_mul(1103515245).wrapping_add(12345) % 2147483648;
        let record = Model {
            comic_path_word: format!("comic-{}", (seed / 3) % 4),
            chapter_uuid: format!("chapter-{}", (seed / 17) % 3),
            image_index: ((seed / 101) % 5) as i32,
            url: format!("https://x/{}", seed),
            cache_key: keys[(seed / 7) % keys.len()].to_string(),
            download_status: DownloadStatus::Done.code(),
            width: 1,
            height: 1,
            format: "png".to_string(),
        };
        store.save(record).unwrap();
        let rows = store.rows();
        for key in keys {
            let expected = rows.iter().find(|r| r.cache_key == key).cloned();
            assert_eq!(store.has_download_pic(key.to_string()), Ok(expected));
        }
    }
    assert!(store.len() <= 60);
}

#[test]
fn index_places_lists_every_place_of_a_value_in_ascending_order() {
    let mut index = filled(&["a", "b", "a", "c", "a"]);
    assert_eq!(index.places(&s("a")), Some(&vec![0, 2, 4]));
    assert_eq!(index.places(&s("b")), Some(&vec![1]));
    assert_eq!(index.places(&s("z")), None);
    index.set(4, &s("a"), &s("b"));
    assert_eq!(index.places(&s("a")), Some(&vec![0, 2]));
    assert_eq!(index.places(&s("b")), Some(&vec![1, 4]));
    index.set(3, &s("c"), &s("a"));
    assert_eq!(index.places(&s("c")), None);
    assert_eq!(index.places(&s("a")), Some(&vec![0, 2, 3]));
}

#[test]
fn save_finds_its_row_among_many_chapters() {
    let mut store = Store::new();
    store.init();
    for chapter in 0..20 {
        for page in 0..10 {
            let record = Model::not_started(
                "comic".to_string(),
                format!("chapter-{}", chapter),
                page,
                format!("https://x/{}/{}", chapter, page),
                format!("key-{}-{}", chapter, page),
            );
            store.save(record).unwrap();
        }
    }
    assert_eq!(store.len(), 200);
    let mut done = Model::not_started(
        "comic".to_string(),
        "chapter-7".to_string(),
        3,
        "https://x/7/3".to_string(),
        "key-7-3".to_string(),
    );
    done.download_status = DownloadStatus::Done.code();
    done.width = 10;
    done.height = 20;
    done.format = "png".to_string();
    store.save(done.clone()).unwrap();
    assert_eq!(store.len(), 200);
    assert_eq!(store.rows()[73], done);
    assert_eq!(store.has_download_pic("key-7-3".to_string()), Ok(Some(done)));
}
