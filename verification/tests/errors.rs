use dictionary_storage::model::{Data, Word};
use dictionary_storage::protocol::{Reply, Request};
use dictionary_storage::storage::{Storage, TransactionContext};
use dictionary_storage::storage_error::{
    StorageError, INVALID_VERSION_ERROR, KEYS_EXHAUSTED, KEY_EXISTS, NO_KEY, NO_TRANSACTION,
    STORE_FULL, STORE_NOT_FOUND,
};

#[test]
fn a_message_names_the_kind_and_carries_the_text() {
    assert_eq!(
        StorageError::RexieError("boom".to_string()).message(),
        "rexie::Error boom"
    );
    assert_eq!(
        StorageError::SerdeWasmBindgenError("bad value".to_string()).message(),
        "serde_wasm_bindgen::Error bad value"
    );
    assert_eq!(
        StorageError::SerdeError("bad text".to_string()).message(),
        "serde_json::Error bad text"
    );
    assert_eq!(
        StorageError::ImportError("Invalid version".to_string()).message(),
        "ImportError Invalid version"
    );
    assert_eq!(StorageError::NotFound.message(), "NotFound");
    assert_eq!(StorageError::RexieError(String::new()).message(), "rexie::Error ");
}

#[test]
fn the_kinds_can_be_told_apart() {
    let same_text = "x".to_string();
    let kinds = [
        StorageError::RexieError(same_text.clone()),
        StorageError::SerdeWasmBindgenError(same_text.clone()),
        StorageError::SerdeError(same_text.clone()),
        StorageError::ImportError(same_text.clone()),
        StorageError::NotFound,
    ];
    for (i, one) in kinds.iter().enumerate() {
        for (j, other) in kinds.iter().enumerate() {
            assert_eq!(one == other, i == j);
        }
        assert_eq!(&one.clone(), one);
    }
}

#[test]
fn an_engine_error_is_made_from_its_text() {
    assert_eq!(StorageError::engine("gone"), StorageError::RexieError("gone".to_string()));
    assert_eq!(
        StorageError::conversion("odd"),
        StorageError::SerdeWasmBindgenError("odd".to_string())
    );
    assert_eq!(StorageError::engine(KEY_EXISTS).message(), format!("rexie::Error {}", KEY_EXISTS));
}

#[test]
fn the_engine_messages_differ() {
    let all = [
        KEY_EXISTS,
        KEYS_EXHAUSTED,
        STORE_FULL,
        STORE_NOT_FOUND,
        NO_TRANSACTION,
        NO_KEY,
        INVALID_VERSION_ERROR,
    ];
    for (i, one) in all.iter().enumerate() {
        for (j, other) in all.iter().enumerate() {
            assert_eq!(one == other, i == j);
        }
    }
    assert_eq!(INVALID_VERSION_ERROR, "Invalid version");
}

#[test]
fn an_error_of_the_json_codec_becomes_a_codec_error_with_its_text() {
    let failure = serde_json::from_str::<serde_json::Value>("{\"version\": ").unwrap_err();
    let text = failure.to_string();
    assert!(!text.is_empty());
    assert_eq!(StorageError::from(failure), StorageError::SerdeError(text));

    let failure = serde_json::from_str::<serde_json::Value>("[1, 2").unwrap_err();
    assert_eq!(
        StorageError::from(failure),
        StorageError::SerdeError("EOF while parsing a list at line 1 column 5".to_string())
    );
    let failure = serde_json::from_str::<u32>("\"text\"").unwrap_err();
    assert_eq!(
        StorageError::from(failure).message(),
        "serde_json::Error invalid type: string \"text\", expected u32 at line 1 column 6"
    );
}

#[test]
fn a_transaction_needs_a_store_that_exists() {
    let storage = Storage::open().unwrap();
    assert!(matches!(storage.get_transaction("folders"), Ok(TransactionContext::Folders(_))));
    assert!(matches!(storage.get_transaction("words"), Ok(TransactionContext::Words(_))));
    for name in ["", "word", "Folders", "words ", "settings"] {
        match storage.get_transaction(name) {
            Err(error) => {
                assert_eq!(error, StorageError::RexieError(STORE_NOT_FOUND.to_string()))
            }
            Ok(_) => panic!("a transaction on {:?}", name),
        }
    }
}

#[test]
fn what_a_transaction_does_not_commit_is_not_done() {
    let storage = Storage::open().unwrap();
    let mut transaction = storage.get_transaction("words").unwrap();
    let word = Word::with_datetime(
        &"f".to_string(),
        &"w".to_string(),
        &String::new(),
        &String::new(),
        &String::new(),
        1,
    );
    assert!(matches!(transaction.perform(&Request::AddWord(word)), Reply::Key(1)));
    match transaction {
        TransactionContext::Words(store) => assert_eq!(store.count(), 1),
        TransactionContext::Folders(_) => panic!("a transaction on folders"),
    }
    let data = storage.export_data().unwrap();
    assert_eq!(data, Data { version: 1, folders: vec![], words: vec![] });
    assert_eq!(storage.get_word_by_id(1), Err(StorageError::NotFound));
}

#[test]
fn a_transaction_refuses_what_is_not_for_its_store() {
    let storage = Storage::open().unwrap();
    let word = Word::with_datetime(
        &"f".to_string(),
        &"w".to_string(),
        &String::new(),
        &String::new(),
        &String::new(),
        1,
    );
    let mut on_folders = storage.get_transaction("folders").unwrap();
    match on_folders.perform(&Request::AddWord(word)) {
        Reply::Failed(error) => {
            assert_eq!(error, StorageError::RexieError(STORE_NOT_FOUND.to_string()))
        }
        _ => panic!("a word in the store of folders"),
    }
    assert!(matches!(on_folders.perform(&Request::Delete(3)), Reply::Done));
    assert!(matches!(on_folders.perform(&Request::Commit), Reply::Failed(_)));
    let mut on_words = storage.get_transaction("words").unwrap();
    assert!(matches!(on_words.perform(&Request::Begin("words".to_string())), Reply::Failed(_)));
    assert!(matches!(on_words.perform(&Request::Delete(3)), Reply::Done));
}
