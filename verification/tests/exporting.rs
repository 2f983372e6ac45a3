use std::collections::HashMap;

use dictionary_storage::model::{Data, Folder, Word};
use dictionary_storage::schema::IMPORT_EXPORT_DATA_VERSION;
use dictionary_storage::storage::Storage;
use dictionary_storage::storage_error::{StorageError, INVALID_VERSION_ERROR, KEY_EXISTS};

fn text(s: &str) -> String {
    s.to_string()
}

fn folder_of(name: &str, datetime: i64) -> Folder {
    Folder::with_datetime(&text(name), &format!("about {}", name), datetime)
}

fn word_of(folder: &str, word: &str, datetime: i64) -> Word {
    Word::with_datetime(&text(folder), &text(word), &text("noun"), &text("u"), &text("n"), datetime)
}

fn counts(storage: &Storage) -> (u32, usize) {
    let folders = storage.get_folders(None, None, text("\u{2191}")).unwrap().count;
    let words = storage.export_words().unwrap().len();
    (folders, words)
}

#[test]
fn export_data_test() {
    let mut storage = Storage::open().unwrap();

    let mut folders: Vec<Folder> = vec![];
    let mut words: Vec<Word> = vec![];
    let folders_len = 10;
    let words_len = 10;

    for i in 0..folders_len {
        let folder_name = format!("folder-{}-6", i);
        let folder_note = format!("note-{}", i);
        let folder = Folder::new(&folder_name, &folder_note);
        storage.add_folder(&folder).unwrap();
        folders.push(folder);

        for j in 0..words_len {
            let word = format!("word-{}-6", j);
            let word_class = format!("word-class-{}", j);
            let url = format!("url-{}", j);
            let note = format!("note-{}", j);
            let id = storage
                .add_word(&Word::new(&folder_name, &word, &word_class, &url, &note))
                .unwrap();

            words.push(Word {
                id: Some(id),
                folder: folder_name.clone(),
                word,
                word_class,
                url,
                note,
                datetime: 0,
            });
        }
    }

    let data: Data = storage.export_data().unwrap();
    assert_eq!(IMPORT_EXPORT_DATA_VERSION, data.version);
    assert_eq!(folders_len, data.folders.len());
    assert_eq!(folders_len * words_len, data.words.len());

    let mut result_map: HashMap<String, Folder> = HashMap::new();
    data.folders.iter().for_each(|x| {
        result_map.insert(x.folder.clone(), x.to_owned());
    });
    for row in &folders {
        let result = result_map.get(&row.folder).unwrap();
        assert_eq!(row, result);
    }

    let mut result_map: HashMap<(String, String), Word> = HashMap::new();
    data.words.iter().for_each(|x| {
        let key = (x.folder.clone(), x.word.clone());
        result_map.insert(key, x.to_owned());
    });
    for row in &words {
        let key = (row.folder.clone(), row.word.clone());
        let result = result_map.get(&key).unwrap();
        assert_eq!(row.id, result.id);
        assert_eq!(row.folder, result.folder);
        assert_eq!(row.word, result.word);
        assert_eq!(row.word_class, result.word_class);
        assert_eq!(row.note, result.note);
        assert_ne!(row.datetime, result.datetime);
    }
}

#[test]
fn import_data_test() {
    let mut storage = Storage::open().unwrap();

    let folders_len = 10;
    let words_len = 10;

    for i in 0..folders_len {
        let folder_name = format!("folder-{}-6", i);
        let folder_note = format!("note-{}", i);
        let folder = Folder::new(&folder_name, &folder_note);
        storage.add_folder(&folder).unwrap();

        for j in 0..words_len {
            let word = format!("word-{}-6", j);
            let word_class = format!("word-class-{}", j);
            let url = format!("url-{}", j);
            let note = format!("note-{}", j);
            storage
                .add_word(&Word::new(&folder_name, &word, &word_class, &url, &note))
                .unwrap();
        }
    }

    let exported = storage.export_data().unwrap();

    storage.close_db();
    let mut storage = Storage::open().unwrap();

    let data = storage.import_data(exported).unwrap();
    assert_eq!(IMPORT_EXPORT_DATA_VERSION, data.version);

    let again = storage.export_data().unwrap();
    assert_eq!(again.folders, data.folders);
    assert_eq!(again.words, data.words);
}

#[test]
fn an_export_holds_the_version_and_all_records() {
    let mut storage = Storage::open().unwrap();
    storage.add_folder(&folder_of("b", 1)).unwrap();
    storage.add_folder(&folder_of("a", 2)).unwrap();
    storage.add_word(&word_of("b", "x", 3)).unwrap();
    storage.add_word(&word_of("a", "y", 4)).unwrap();
    let data = storage.export_data().unwrap();
    assert_eq!(data.version, 1);
    assert_eq!(data.folders, vec![folder_of("a", 2), folder_of("b", 1)]);
    assert_eq!(
        data.words,
        vec![word_of("b", "x", 3).set_id(Some(1)), word_of("a", "y", 4).set_id(Some(2))]
    );
    assert_eq!(storage.export_folders().unwrap(), data.folders);
    assert_eq!(storage.export_words().unwrap(), data.words);
}

#[test]
fn an_export_of_nothing_is_an_empty_envelope() {
    let storage = Storage::open().unwrap();
    let data = storage.export_data().unwrap();
    assert_eq!(data, Data { version: 1, folders: vec![], words: vec![] });
}

#[test]
fn an_import_into_an_empty_database_brings_everything_back() {
    let mut source = Storage::open().unwrap();
    for name in ["m", "c", "x"] {
        source.add_folder(&folder_of(name, 10)).unwrap();
    }
    for (i, name) in ["one", "two", "three", "four"].iter().enumerate() {
        source.add_word(&word_of("m", name, 100 + i as i64)).unwrap();
    }
    source.delete_by_id::<Word>(2).unwrap();
    let exported = source.export_data().unwrap();
    let ids: Vec<Option<u32>> = exported.words.iter().map(|w| w.id).collect();
    assert_eq!(ids, vec![Some(1), Some(3), Some(4)]);

    let mut target = Storage::open().unwrap();
    let echoed = target.import_data(exported.clone()).unwrap();
    assert_eq!(echoed, exported);

    let imported = target.export_data().unwrap();
    assert_eq!(imported.version, exported.version);
    assert_eq!(imported.folders, exported.folders);
    assert_eq!(imported.words.len(), exported.words.len());
    for (position, (got, sent)) in imported.words.iter().zip(exported.words.iter()).enumerate() {
        assert_eq!(got.id, Some(position as u32 + 1));
        assert_eq!(got.folder, sent.folder);
        assert_eq!(got.word, sent.word);
        assert_eq!(got.word_class, sent.word_class);
        assert_eq!(got.url, sent.url);
        assert_eq!(got.note, sent.note);
        assert_eq!(got.datetime, sent.datetime);
    }
    assert_eq!(target.add_word(&word_of("m", "next", 0)).unwrap(), 4);
}

#[test]
fn an_import_of_another_version_is_refused_and_writes_nothing() {
    let mut storage = Storage::open().unwrap();
    storage.add_folder(&folder_of("kept", 1)).unwrap();
    storage.add_word(&word_of("kept", "w", 2)).unwrap();
    let before = counts(&storage);

    let data = Data {
        version: 999,
        folders: vec![folder_of("new", 3)],
        words: vec![word_of("new", "v", 4)],
    };
    assert_eq!(
        storage.import_data(data),
        Err(StorageError::ImportError(INVALID_VERSION_ERROR.to_string()))
    );
    assert_eq!(counts(&storage), before);
    assert_eq!(before, (1, 1));

    let data = Data { version: 0, folders: vec![], words: vec![] };
    assert_eq!(
        storage.import_data(data),
        Err(StorageError::ImportError("Invalid version".to_string()))
    );
    let data = Data { version: 2, folders: vec![], words: vec![] };
    assert!(matches!(storage.import_data(data), Err(StorageError::ImportError(_))));
    assert_eq!(counts(&storage), before);
}

#[test]
fn an_import_adds_to_what_is_there() {
    let mut storage = Storage::open().unwrap();
    storage.add_folder(&folder_of("here", 1)).unwrap();
    storage.add_word(&word_of("here", "w", 2)).unwrap();
    let data = Data {
        version: 1,
        folders: vec![folder_of("there", 3), folder_of("again", 4)],
        words: vec![word_of("there", "v", 5).set_id(Some(1)), word_of("again", "u", 6)],
    };
    storage.import_data(data).unwrap();
    let all = storage.export_data().unwrap();
    let names: Vec<&str> = all.folders.iter().map(|f| f.folder.as_str()).collect();
    assert_eq!(names, vec!["again", "here", "there"]);
    let ids: Vec<Option<u32>> = all.words.iter().map(|w| w.id).collect();
    assert_eq!(ids, vec![Some(1), Some(2), Some(3)]);
    assert_eq!(all.words[0].word, "w");
    assert_eq!(all.words[1].word, "v");
    assert_eq!(all.words[2].word, "u");
}

#[test]
fn an_import_with_a_taken_folder_name_adds_no_folder_and_no_word() {
    let mut storage = Storage::open().unwrap();
    storage.add_folder(&folder_of("taken", 1)).unwrap();
    let data = Data {
        version: 1,
        folders: vec![folder_of("fresh", 2), folder_of("taken", 3), folder_of("late", 4)],
        words: vec![word_of("fresh", "w", 5)],
    };
    assert_eq!(
        storage.import_data(data),
        Err(StorageError::RexieError(KEY_EXISTS.to_string()))
    );
    assert_eq!(counts(&storage), (1, 0));
}

#[test]
fn an_import_with_the_same_folder_twice_adds_nothing() {
    let mut storage = Storage::open().unwrap();
    let folders = vec![folder_of("twin", 1), folder_of("twin", 2)];
    assert_eq!(
        storage.import_folders(&folders),
        Err(StorageError::RexieError(KEY_EXISTS.to_string()))
    );
    assert_eq!(counts(&storage), (0, 0));
}

#[test]
fn folders_and_words_can_be_imported_on_their_own() {
    let mut storage = Storage::open().unwrap();
    assert_eq!(storage.import_folders(&vec![folder_of("z", 1), folder_of("y", 2)]), Ok(()));
    assert_eq!(storage.import_words(&vec![word_of("z", "a", 3), word_of("y", "b", 4)]), Ok(()));
    assert_eq!(storage.import_words(&vec![]), Ok(()));
    assert_eq!(storage.import_folders(&vec![]), Ok(()));
    assert_eq!(counts(&storage), (2, 2));
    assert_eq!(storage.get_word_by_id(2).unwrap().word, "b");
}
