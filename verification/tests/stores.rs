use dictionary_storage::folder_store::FolderStore;
use dictionary_storage::model::{Direction, Folder, Word};
use dictionary_storage::storage_error::{StorageError, KEYS_EXHAUSTED, KEY_EXISTS};
use dictionary_storage::word_store::WordStore;

fn text(s: &str) -> String {
    s.to_string()
}

fn word_of(folder: &str, word: &str) -> Word {
    Word::with_datetime(&text(folder), &text(word), &text(""), &text(""), &text(""), 0)
}

fn names(words: &[Word]) -> Vec<&str> {
    words.iter().map(|w| w.word.as_str()).collect()
}

#[test]
fn a_word_store_issues_keys_from_one() {
    let mut store = WordStore::new();
    assert_eq!(store.count(), 0);
    assert_eq!(store.add(&word_of("f", "a")), Ok(1));
    assert_eq!(store.add(&word_of("f", "b")), Ok(2));
    assert_eq!(store.add(&word_of("g", "c")), Ok(3));
    assert_eq!(store.count(), 3);
    assert_eq!(store.count_in_folder(&text("f")), 2);
    assert_eq!(store.count_in_folder(&text("g")), 1);
    assert_eq!(store.count_in_folder(&text("h")), 0);
}

#[test]
fn a_word_store_keeps_a_word_as_it_was_added() {
    let mut store = WordStore::new();
    let given = word_of("f", "a").set_id(Some(40));
    let key = store.add(&given).unwrap();
    assert_eq!(key, 1);
    assert_eq!(store.get(1), Some(given));
    assert_eq!(store.get(40), None);
    assert_eq!(store.get(0), None);
}

#[test]
fn putting_under_a_key_in_use_replaces_the_word() {
    let mut store = WordStore::new();
    store.add(&word_of("f", "a")).unwrap();
    store.add(&word_of("f", "b")).unwrap();
    assert_eq!(store.put(&word_of("g", "z"), 1), Ok(()));
    assert_eq!(store.count(), 2);
    assert_eq!(store.get(1), Some(word_of("g", "z")));
    assert_eq!(store.get(2), Some(word_of("f", "b")));
    assert_eq!(store.add(&word_of("f", "c")), Ok(3));
}

#[test]
fn putting_under_a_new_key_inserts_in_key_order_and_moves_the_generator() {
    let mut store = WordStore::new();
    store.add(&word_of("f", "one")).unwrap();
    assert_eq!(store.put(&word_of("f", "ten"), 10), Ok(()));
    assert_eq!(store.put(&word_of("f", "five"), 5), Ok(()));
    assert_eq!(store.put(&word_of("f", "zero"), 0), Ok(()));
    let all = store.get_all(None, None, Direction::Next);
    assert_eq!(names(&all), vec!["zero", "one", "five", "ten"]);
    assert_eq!(store.add(&word_of("f", "eleven")), Ok(11));
    let all = store.get_all(None, None, Direction::Prev);
    assert_eq!(names(&all), vec!["eleven", "ten", "five", "one", "zero"]);
}

#[test]
fn a_generator_that_has_issued_its_last_key_refuses() {
    let mut store = WordStore::new();
    assert_eq!(store.put(&word_of("f", "last"), u32::MAX - 1), Ok(()));
    assert_eq!(store.add(&word_of("f", "very last")), Ok(u32::MAX));
    assert_eq!(
        store.add(&word_of("f", "one too many")),
        Err(StorageError::RexieError(KEYS_EXHAUSTED.to_string()))
    );
    assert_eq!(store.count(), 2);
    assert_eq!(store.get(u32::MAX), Some(word_of("f", "very last")));
}

#[test]
fn deleting_from_a_word_store_removes_the_key() {
    let mut store = WordStore::new();
    for name in ["a", "b", "c", "d"] {
        store.add(&word_of("f", name)).unwrap();
    }
    store.delete(1);
    store.delete(3);
    store.delete(3);
    store.delete(99);
    assert_eq!(names(&store.get_all(None, None, Direction::Next)), vec!["b", "d"]);
    assert_eq!(store.get(3), None);
    assert_eq!(store.get(4), Some(word_of("f", "d")));
    assert_eq!(store.add(&word_of("f", "e")), Ok(5));
}

#[test]
fn the_index_lists_one_folder_in_key_order() {
    let mut store = WordStore::new();
    for (folder, name) in [("f", "a"), ("g", "b"), ("f", "c"), ("g", "d"), ("f", "e")] {
        store.add(&word_of(folder, name)).unwrap();
    }
    let f = text("f");
    assert_eq!(names(&store.get_all_in_folder(&f, None, None, Direction::Next)), vec!["a", "c", "e"]);
    assert_eq!(names(&store.get_all_in_folder(&f, None, None, Direction::Prev)), vec!["e", "c", "a"]);
    assert_eq!(names(&store.get_all_in_folder(&f, Some(1), Some(1), Direction::Next)), vec!["c"]);
    assert_eq!(names(&store.get_all_in_folder(&f, Some(2), Some(1), Direction::Prev)), vec!["c", "a"]);
    assert_eq!(names(&store.get_all_in_folder(&f, Some(0), None, Direction::Next)), Vec::<&str>::new());
    assert_eq!(names(&store.get_all_in_folder(&f, None, Some(3), Direction::Next)), Vec::<&str>::new());
    assert_eq!(names(&store.get_all(Some(2), Some(1), Direction::Next)), vec!["b", "c"]);
}

#[test]
fn a_copy_of_a_word_store_is_on_its_own() {
    let mut store = WordStore::new();
    store.add(&word_of("f", "a")).unwrap();
    let mut copy = store.duplicate();
    assert_eq!(copy.add(&word_of("f", "b")), Ok(2));
    copy.delete(1);
    assert_eq!(store.count(), 1);
    assert_eq!(store.get(1), Some(word_of("f", "a")));
    assert_eq!(store.add(&word_of("f", "c")), Ok(2));
    assert_eq!(copy.get(2), Some(word_of("f", "b")));
}

#[test]
fn a_folder_store_keeps_names_apart_and_in_order() {
    let mut store = FolderStore::new();
    assert_eq!(store.count(), 0);
    for name in ["m", "b", "x", "a"] {
        assert_eq!(store.add(&Folder::with_datetime(&text(name), &text("n"), 1)), Ok(()));
    }
    assert_eq!(
        store.add(&Folder::with_datetime(&text("b"), &text("other"), 2)),
        Err(StorageError::RexieError(KEY_EXISTS.to_string()))
    );
    assert_eq!(store.count(), 4);
    let listed = store.get_all(None, None, Direction::Next);
    let got: Vec<&str> = listed.iter().map(|f| f.folder.as_str()).collect();
    assert_eq!(got, vec!["a", "b", "m", "x"]);
    assert_eq!(listed[1].folder_note, "n");
    let listed = store.get_all(Some(2), Some(1), Direction::Prev);
    let got: Vec<&str> = listed.iter().map(|f| f.folder.as_str()).collect();
    assert_eq!(got, vec!["m", "b"]);
}

#[test]
fn a_copy_of_a_folder_store_is_on_its_own() {
    let mut store = FolderStore::new();
    store.add(&Folder::with_datetime(&text("a"), &text(""), 1)).unwrap();
    let mut copy = store.duplicate();
    copy.add(&Folder::with_datetime(&text("b"), &text(""), 1)).unwrap();
    assert_eq!(store.count(), 1);
    assert_eq!(copy.count(), 2);
}
