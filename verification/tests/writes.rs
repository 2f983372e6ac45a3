use dictionary_storage::model::{Data, Folder, Word};
use dictionary_storage::protocol::{
    import_scripts, issued_identity, Reply, Request, Run, Script,
};
use dictionary_storage::storage::{found_or_not, Storage};
use dictionary_storage::storage_error::{
    StorageError, INVALID_VERSION_ERROR, KEY_EXISTS, NO_KEY, STORE_NOT_FOUND,
};

fn text(s: &str) -> String {
    s.to_string()
}

fn folder_of(name: &str) -> Folder {
    Folder::with_datetime(&text(name), &text("note"), 5)
}

fn word_of(name: &str) -> Word {
    Word::with_datetime(&text("f"), &text(name), &text(""), &text(""), &text(""), 6)
}

fn failed(message: &str) -> Reply {
    Reply::Failed(StorageError::RexieError(message.to_string()))
}

#[test]
fn a_word_is_added_and_then_put_back_with_its_key() {
    let (mut run, first) = Run::start(Script::AddWords(vec![word_of("a"), word_of("b")]));
    assert!(matches!(first, Request::Begin(ref store) if store == "words"));
    match run.resume(Reply::Done) {
        Some(Request::AddWord(word)) => assert_eq!(word, word_of("a")),
        _ => panic!("the first word was not added"),
    }
    match run.resume(Reply::Key(7)) {
        Some(Request::PutWord(word, key)) => {
            assert_eq!(key, 7);
            assert_eq!(word, word_of("a").set_id(Some(7)));
        }
        _ => panic!("the first word was not put back"),
    }
    match run.resume(Reply::Done) {
        Some(Request::AddWord(word)) => assert_eq!(word, word_of("b")),
        _ => panic!("the second word was not added"),
    }
    match run.resume(Reply::Key(9)) {
        Some(Request::PutWord(word, key)) => {
            assert_eq!(key, 9);
            assert_eq!(word.id, Some(9));
            assert_eq!(word.word, "b");
        }
        _ => panic!("the second word was not put back"),
    }
    assert!(!run.is_finished());
    assert!(matches!(run.resume(Reply::Done), Some(Request::Commit)));
    assert!(!run.is_finished());
    assert!(run.resume(Reply::Done).is_none());
    assert!(run.is_finished());
    assert_eq!(run.outcome(), Ok(vec![7, 9]));
}

#[test]
fn folders_are_added_without_a_second_step() {
    let (mut run, first) = Run::start(Script::AddFolders(vec![folder_of("a"), folder_of("b")]));
    assert!(matches!(first, Request::Begin(ref store) if store == "folders"));
    match run.resume(Reply::Done) {
        Some(Request::AddFolder(folder)) => assert_eq!(folder, folder_of("a")),
        _ => panic!("the first folder was not added"),
    }
    match run.resume(Reply::Done) {
        Some(Request::AddFolder(folder)) => assert_eq!(folder, folder_of("b")),
        _ => panic!("the second folder was not added"),
    }
    assert!(matches!(run.resume(Reply::Key(1)), Some(Request::Commit)));
    assert!(run.resume(Reply::Done).is_none());
    assert_eq!(run.outcome(), Ok(vec![]));
}

#[test]
fn a_write_of_nothing_opens_and_commits() {
    let (mut run, first) = Run::start(Script::AddWords(vec![]));
    assert!(matches!(first, Request::Begin(_)));
    assert!(matches!(run.resume(Reply::Done), Some(Request::Commit)));
    assert!(run.resume(Reply::Done).is_none());
    assert_eq!(run.outcome(), Ok(vec![]));
}

#[test]
fn a_delete_takes_one_step() {
    let (mut run, first) = Run::start(Script::Delete { store: text("words"), id: 4 });
    assert!(matches!(first, Request::Begin(ref store) if store == "words"));
    assert!(matches!(run.resume(Reply::Done), Some(Request::Delete(4))));
    assert!(matches!(run.resume(Reply::Done), Some(Request::Commit)));
    assert!(run.resume(Reply::Done).is_none());
    assert_eq!(run.outcome(), Ok(vec![]));
}

#[test]
fn a_failed_step_aborts_the_transaction() {
    let (mut run, _) = Run::start(Script::AddFolders(vec![folder_of("a"), folder_of("b")]));
    assert!(matches!(run.resume(Reply::Done), Some(Request::AddFolder(_))));
    assert!(matches!(run.resume(failed("taken")), Some(Request::Abort)));
    assert!(!run.is_finished());
    assert!(run.resume(Reply::Done).is_none());
    assert!(run.is_finished());
    assert_eq!(run.outcome(), Err(StorageError::RexieError(text("taken"))));
}

#[test]
fn a_failed_put_back_aborts_the_transaction() {
    let (mut run, _) = Run::start(Script::AddWords(vec![word_of("a")]));
    assert!(matches!(run.resume(Reply::Done), Some(Request::AddWord(_))));
    assert!(matches!(run.resume(Reply::Key(3)), Some(Request::PutWord(_, 3))));
    assert!(matches!(run.resume(failed("full")), Some(Request::Abort)));
    assert!(run.resume(failed("abort failed too")).is_none());
    assert_eq!(run.outcome(), Err(StorageError::RexieError(text("full"))));
}

#[test]
fn a_word_without_a_key_aborts_the_transaction() {
    let (mut run, _) = Run::start(Script::AddWords(vec![word_of("a")]));
    assert!(matches!(run.resume(Reply::Done), Some(Request::AddWord(_))));
    assert!(matches!(run.resume(Reply::Done), Some(Request::Abort)));
    assert!(run.resume(Reply::Done).is_none());
    assert_eq!(run.outcome(), Err(StorageError::SerdeWasmBindgenError(NO_KEY.to_string())));
}

#[test]
fn a_transaction_that_cannot_be_opened_ends_the_write() {
    let (mut run, _) = Run::start(Script::Delete { store: text("nowhere"), id: 4 });
    assert!(run.resume(failed("no such store")).is_none());
    assert!(run.is_finished());
    assert_eq!(run.outcome(), Err(StorageError::RexieError(text("no such store"))));
}

#[test]
fn a_failed_commit_fails_the_write() {
    let (mut run, _) = Run::start(Script::AddWords(vec![word_of("a")]));
    run.resume(Reply::Done);
    run.resume(Reply::Key(1));
    assert!(matches!(run.resume(Reply::Done), Some(Request::Commit)));
    assert!(run.resume(failed("not committed")).is_none());
    assert_eq!(run.outcome(), Err(StorageError::RexieError(text("not committed"))));
}

#[test]
fn a_write_that_is_over_asks_for_nothing_more() {
    let (mut run, _) = Run::start(Script::AddWords(vec![]));
    run.resume(Reply::Done);
    assert!(run.resume(Reply::Done).is_none());
    assert!(run.resume(Reply::Done).is_none());
    assert!(run.resume(failed("late")).is_none());
    assert_eq!(run.outcome(), Ok(vec![]));
}

#[test]
fn the_database_does_a_write_as_a_whole() {
    let mut storage = Storage::open().unwrap();
    let issued = storage
        .execute(Script::AddWords(vec![word_of("a"), word_of("b"), word_of("c")]))
        .unwrap();
    assert_eq!(issued, vec![1, 2, 3]);
    assert_eq!(storage.execute(Script::AddFolders(vec![folder_of("x")])), Ok(vec![]));
    assert_eq!(storage.execute(Script::Delete { store: text("words"), id: 2 }), Ok(vec![]));
    assert_eq!(storage.execute(Script::Delete { store: text("folders"), id: 2 }), Ok(vec![]));
    let data = storage.export_data().unwrap();
    assert_eq!(data.folders, vec![folder_of("x")]);
    assert_eq!(
        data.words,
        vec![word_of("a").set_id(Some(1)), word_of("c").set_id(Some(3))]
    );
    assert_eq!(storage.execute(Script::AddWords(vec![word_of("d")])), Ok(vec![4]));
}

#[test]
fn a_write_that_fails_leaves_the_database_as_it_was() {
    let mut storage = Storage::open().unwrap();
    storage.add_folder(&folder_of("b")).unwrap();
    let before = storage.export_data().unwrap();
    assert_eq!(
        storage.execute(Script::AddFolders(vec![folder_of("a"), folder_of("b"), folder_of("c")])),
        Err(StorageError::RexieError(KEY_EXISTS.to_string()))
    );
    assert_eq!(storage.export_data().unwrap(), before);
    assert_eq!(
        storage.execute(Script::Delete { store: text("letters"), id: 1 }),
        Err(StorageError::RexieError(STORE_NOT_FOUND.to_string()))
    );
    assert_eq!(storage.export_data().unwrap(), before);
}

#[test]
fn an_import_is_two_writes_folders_first() {
    let data = Data {
        version: 1,
        folders: vec![folder_of("a")],
        words: vec![word_of("w"), word_of("v")],
    };
    match import_scripts(&data) {
        Ok((Script::AddFolders(folders), Script::AddWords(words))) => {
            assert_eq!(folders, data.folders);
            assert_eq!(words, data.words);
        }
        _ => panic!("not the two writes of an import"),
    }
    let stale = Data { version: 3, folders: vec![folder_of("a")], words: vec![] };
    match import_scripts(&stale) {
        Err(error) => {
            assert_eq!(error, StorageError::ImportError(INVALID_VERSION_ERROR.to_string()))
        }
        Ok(_) => panic!("writes for an envelope of another version"),
    }
}

#[test]
fn a_read_by_identity_finds_the_word_or_reports_that_there_is_none() {
    assert_eq!(found_or_not(Some(word_of("a"))), Ok(word_of("a")));
    assert_eq!(found_or_not(None), Err(StorageError::NotFound));
}

#[test]
fn a_write_of_one_word_comes_to_the_first_identity_it_issued() {
    assert_eq!(issued_identity(&vec![7]), Ok(7));
    assert_eq!(issued_identity(&vec![3, 9]), Ok(3));
    assert_eq!(issued_identity(&vec![0]), Ok(0));
    assert_eq!(
        issued_identity(&vec![]),
        Err(StorageError::SerdeWasmBindgenError(NO_KEY.to_string()))
    );
}
