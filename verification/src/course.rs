//! A write on its way through the database.
//!
//! The steps of a write are decided in one place and performed in another.
//! This module shows that the two fit: when each request of a write is
//! answered as the database answers it, the write ends with the database
//! changed as the write as a whole is meant to change it, or, when a step
//! fails, with the database as it was.

use vstd::prelude::*;
use crate::database::{has_id, ids_ascend, StorageView, TransactionView};
use crate::folder_store::names_ascend;
use crate::model::{FolderView, WordView};
use crate::protocol::{Phase, RequestView, RunView, ScriptView};
use crate::schema::{lemma_store_names_differ, OBJ_STORE_FOLDERS, OBJ_STORE_WORDS};
use crate::sequences::{lemma_filter_drops_one, lemma_filter_keeps_all};
use crate::storage_error::StorageErrorView;
use crate::word_store::{
    entry_values, has_key, key_slot, lemma_delete, lemma_key_slot, settled, EntryView,
    WordStoreView,
};

verus! {

/// A store of words whose entries are settled is a valid part of the
/// database's value.
pub proof fn lemma_settled_store(store: WordStoreView)
    requires
        store.wf(),
        settled(store.entries),
    ensures
        ids_ascend(store.values()),
        forall|i: int|
            0 <= i < store.values().len() ==> (#[trigger] store.values()[i]).id->0
                < store.next_key,
        forall|id: u32| has_key(store.entries, id) <==> has_id(store.values(), id),
{
    let words = store.values();
    assert forall|id: u32| has_key(store.entries, id) <==> has_id(words, id) by {
        if has_key(store.entries, id) {
            let i = choose|i: int|
                0 <= i < store.entries.len() && #[trigger] store.entries[i].key == id;
            assert(words[i].id == Some(id));
        }
    }
}

/// In a settled store the word under a key is the word that carries the
/// key as its identity.
pub proof fn lemma_settled_get(store: WordStoreView, database: StorageView, id: u32)
    requires
        store.wf(),
        settled(store.entries),
        database.words == store.values(),
    ensures
        match database.word_by_id(id) {
            Ok(word) => store.get(id) == Some(word),
            Err(error) => store.get(id).is_none() && error == StorageErrorView::NotFound,
        },
{
    lemma_settled_store(store);
    lemma_delete(store.entries, id);
    if has_id(database.words, id) {
        let i = choose|i: int|
            0 <= i < database.words.len() && (#[trigger] database.words[i]).id == Some(id);
        let at = key_slot(store.entries, id);
    }
}

/// Deleting a key from a settled store deletes the word that carries the
/// key as its identity, and leaves the store settled.
pub proof fn lemma_settled_delete(store: WordStoreView, id: u32)
    requires
        store.wf(),
        settled(store.entries),
    ensures
        settled(store.delete(id).entries),
        store.delete(id).values() == store.values().filter(|word: WordView| word.id != Some(id)),
{
    let other = |word: WordView| word.id != Some(id);
    let words = store.values();
    lemma_delete(store.entries, id);
    if has_key(store.entries, id) {
        let at = key_slot(store.entries, id);
        lemma_filter_drops_one(words, other, at);
    } else {
        lemma_filter_keeps_all(words, other);
    }
}

/// Writing a word back under the key it was just added under replaces the
/// entry that the addition made, and nothing else.
pub proof fn lemma_write_back(store: WordStoreView, first: WordView, second: WordView)
    requires
        store.wf(),
        store.can_add(),
    ensures
        ({
            let key = store.next_key as u32;
            &&& store.add(first).can_put(key)
            &&& store.add(first).put(key, second) == WordStoreView {
                entries: store.entries.push(EntryView { key, value: second }),
                next_key: store.next_key + 1,
            }
        }),
{
    let key = store.next_key as u32;
    let added = store.add(first).entries;
    lemma_key_slot(added, key, store.entries.len() as int);
    assert(added.update(store.entries.len() as int, EntryView { key, value: second })
        =~= store.entries.push(EntryView { key, value: second }));
}

/// The store of words of a valid database is in order and settled, and
/// committing it changes nothing.
pub proof fn lemma_word_store(database: StorageView)
    requires
        database.wf(),
    ensures
        database.word_store().wf(),
        settled(database.word_store().entries),
        database.word_store().values() == database.words,
        database.commit(TransactionView::Words(database.word_store())) == database,
{
}

/// A settled store is the store of words of the database that it commits
/// to.
pub proof fn lemma_settled_is_word_store(store: WordStoreView, database: StorageView)
    requires
        settled(store.entries),
        store.values() == database.words,
        store.next_key == database.next_key,
    ensures
        store == database.word_store(),
{
    assert(store.entries =~= database.word_store().entries);
}

/// Whether what a transaction holds is in order.
pub open spec fn transaction_wf(transaction: Option<TransactionView>) -> bool {
    match transaction {
        Some(TransactionView::Folders(folders)) => names_ascend(folders) && folders.len()
            <= u32::MAX,
        Some(TransactionView::Words(store)) => store.wf(),
        None => true,
    }
}

/// The database that `start` becomes when a transaction on its folders
/// commits with these.
pub open spec fn with_folders(start: StorageView, folders: Seq<FolderView>) -> StorageView {
    StorageView { folders, ..start }
}

/// The database that `start` becomes when a transaction on its words
/// commits with this store.
pub open spec fn with_words(start: StorageView, store: WordStoreView) -> StorageView {
    StorageView { words: store.values(), next_key: store.next_key, ..start }
}

/// The identities that were given to the first `count` words of a write on
/// `start`.
pub open spec fn given(start: StorageView, count: int) -> Seq<u32> {
    Seq::new(count as nat, |i: int| (start.next_key + i) as u32)
}

/// Whether a write that adds folders is on its way as it should be: what
/// was written so far and what is still to be written together come to
/// what writing everything to `start` comes to.
pub open spec fn folders_on_course(
    start: StorageView,
    all: Seq<FolderView>,
    run: RunView,
    request: RequestView,
    transaction: Option<TransactionView>,
) -> bool {
    let at = run.position;
    match run.phase {
        Phase::Opening => {
            &&& transaction is None
            &&& request == RequestView::Begin(OBJ_STORE_FOLDERS@)
        },
        Phase::Writing => {
            &&& transaction matches Some(TransactionView::Folders(folders))
            &&& request == RequestView::AddFolder(all[at])
            &&& start.import_folders(all) == with_folders(start, folders).import_folders(
                all.skip(at),
            )
        },
        Phase::Committing => {
            &&& transaction matches Some(TransactionView::Folders(folders))
            &&& request == RequestView::Commit
            &&& start.import_folders(all) == Ok::<StorageView, StorageErrorView>(
                with_folders(start, folders),
            )
        },
        Phase::Aborting => {
            &&& request == RequestView::Abort
            &&& start.import_folders(all) == Err::<StorageView, StorageErrorView>(
                run.failure->0,
            )
        },
        _ => false,
    }
}

/// Whether a write that adds words is on its way as it should be.  While
/// a word is being put back, the store holds it as it was added, behind
/// the words that are settled.
pub open spec fn words_on_course(
    start: StorageView,
    all: Seq<WordView>,
    run: RunView,
    request: RequestView,
    transaction: Option<TransactionView>,
) -> bool {
    let at = run.position;
    match run.phase {
        Phase::Opening => {
            &&& transaction is None
            &&& run.issued == Seq::<u32>::empty()
            &&& request == RequestView::Begin(OBJ_STORE_WORDS@)
        },
        Phase::Writing => {
            &&& transaction matches Some(TransactionView::Words(store))
            &&& settled(store.entries)
            &&& store.next_key == start.next_key + at
            &&& run.issued == given(start, at)
            &&& request == RequestView::AddWord(all[at])
            &&& start.import_words(all) == with_words(start, store).import_words(all.skip(at))
        },
        Phase::WritingBack(key) => {
            &&& transaction matches Some(TransactionView::Words(store))
            &&& store.entries.len() > 0
            &&& ({
                let before = WordStoreView { entries: store.entries.drop_last(), next_key: key as int };
                &&& settled(before.entries)
                &&& before.can_add()
                &&& store == before.add(all[at])
                &&& start.import_words(all) == with_words(start, before).import_words(
                    all.skip(at),
                )
            })
            &&& key == start.next_key + at
            &&& run.issued == given(start, at)
            &&& request == RequestView::PutWord(all[at].with_id(Some(key)), key)
        },
        Phase::Committing => {
            &&& transaction matches Some(TransactionView::Words(store))
            &&& settled(store.entries)
            &&& run.issued == given(start, all.len() as int)
            &&& request == RequestView::Commit
            &&& start.import_words(all) == Ok::<StorageView, StorageErrorView>(
                with_words(start, store),
            )
        },
        Phase::Aborting => {
            &&& request == RequestView::Abort
            &&& start.import_words(all) == Err::<StorageView, StorageErrorView>(run.failure->0)
        },
        _ => false,
    }
}

/// Whether a write that deletes is on its way as it should be.
pub open spec fn delete_on_course(
    start: StorageView,
    store: Seq<char>,
    id: u32,
    run: RunView,
    request: RequestView,
    transaction: Option<TransactionView>,
) -> bool {
    match run.phase {
        Phase::Opening => {
            &&& transaction is None
            &&& request == RequestView::Begin(store)
        },
        Phase::Writing => {
            &&& start.begin(store) is Ok
            &&& transaction == Some(start.begin(store)->Ok_0)
            &&& request == RequestView::Delete(id)
        },
        Phase::Committing => {
            &&& start.begin(store) is Ok
            &&& transaction == Some(
                start.begin(store)->Ok_0.perform(RequestView::Delete(id)).0,
            )
            &&& request == RequestView::Commit
        },
        _ => false,
    }
}

/// Whether a write is on its way as it should be: nothing is committed
/// yet, and the transaction holds what the write has come to.
pub open spec fn on_course(
    start: StorageView,
    run: RunView,
    request: RequestView,
    database: StorageView,
    transaction: Option<TransactionView>,
) -> bool {
    &&& database == start
    &&& match run.script {
        ScriptView::AddFolders(all) => run.issued == Seq::<u32>::empty() && folders_on_course(
            start,
            all,
            run,
            request,
            transaction,
        ),
        ScriptView::AddWords(all) => words_on_course(start, all, run, request, transaction),
        ScriptView::Delete { store, id } => run.issued == Seq::<u32>::empty()
            && delete_on_course(start, store, id, run, request, transaction),
    }
}

/// Whether a write has ended as it should: done as a whole, with the
/// identities it gave, or not done at all.
pub open spec fn arrived(start: StorageView, run: RunView, database: StorageView) -> bool {
    match run.outcome() {
        Ok(issued) => {
            &&& start.write(run.script) == Ok::<StorageView, StorageErrorView>(database)
            &&& issued == start.issues(run.script)
        },
        Err(error) => {
            &&& start.write(run.script) == Err::<StorageView, StorageErrorView>(error)
            &&& database == start
        },
    }
}

/// A transaction on words that is about to be committed is settled.
pub proof fn lemma_commit_settled(
    start: StorageView,
    run: RunView,
    request: RequestView,
    database: StorageView,
    transaction: Option<TransactionView>,
)
    requires
        start.wf(),
        on_course(start, run, request, database, transaction),
        request is Commit,
    ensures
        transaction is Some,
        transaction matches Some(TransactionView::Words(store)) ==> settled(store.entries),
{
    if let ScriptView::Delete { store, id } = run.script {
        lemma_settled_delete(start.word_store(), id);
    }
}

/// One step of a write that adds folders keeps it on course, or ends it
/// as it should end.
proof fn lemma_step_folders(
    start: StorageView,
    all: Seq<FolderView>,
    run: RunView,
    request: RequestView,
    transaction: Option<TransactionView>,
)
    requires
        run.wf(),
        run.script == ScriptView::AddFolders(all),
        on_course(start, run, request, start, transaction),
    ensures
        stepped(start, run, request, start, transaction),
{
    let at = run.position;
    match run.phase {
        Phase::Opening => {
            assert(all.skip(0) =~= all);
        },
        Phase::Writing => {
            let rest = all.skip(at);
            assert(rest.drop_first() =~= all.skip(at + 1));
        },
        _ => {},
    }
}

/// One step of a write that adds words keeps it on course, or ends it as
/// it should end.
proof fn lemma_step_words(
    start: StorageView,
    all: Seq<WordView>,
    run: RunView,
    request: RequestView,
    transaction: Option<TransactionView>,
)
    requires
        start.wf(),
        run.wf(),
        transaction_wf(transaction),
        run.script == ScriptView::AddWords(all),
        on_course(start, run, request, start, transaction),
    ensures
        stepped(start, run, request, start, transaction),
{
    lemma_store_names_differ();
    let at = run.position;
    match run.phase {
        Phase::Opening => {
            lemma_word_store(start);
            assert(all.skip(0) =~= all);
            assert(given(start, 0) =~= Seq::<u32>::empty());
        },
        Phase::Writing => {
            let store = transaction->0->Words_0;
            if store.can_add() {
                assert(store.add(all[at]).entries.drop_last() =~= store.entries);
            }
        },
        Phase::WritingBack(key) => {
            let store = transaction->0->Words_0;
            let before = WordStoreView { entries: store.entries.drop_last(), next_key: key as int };
            let word = all[at];
            let rest = all.skip(at);
            assert(rest.drop_first() =~= all.skip(at + 1));
            assert(before.wf()) by {
                assert(store.entries[store.entries.len() - 1].key == key);
            }
            lemma_write_back(before, word, word.with_id(Some(key)));
            let after = store.put(key, word.with_id(Some(key)));
            assert(entry_values(after.entries) =~= entry_values(before.entries).push(
                word.with_id(Some(key)),
            ));
            assert(given(start, at).push(key) =~= given(start, at + 1));
        },
        _ => {},
    }
}

/// One step of a write that deletes keeps it on course, or ends it as it
/// should end.
proof fn lemma_step_delete(
    start: StorageView,
    store: Seq<char>,
    id: u32,
    run: RunView,
    request: RequestView,
    transaction: Option<TransactionView>,
)
    requires
        start.wf(),
        run.wf(),
        run.script == (ScriptView::Delete { store, id }),
        on_course(start, run, request, start, transaction),
    ensures
        stepped(start, run, request, start, transaction),
{
    lemma_store_names_differ();
    lemma_word_store(start);
    lemma_settled_delete(start.word_store(), id);
}

/// What a step of a write comes to: the request is answered, the reply is
/// taken, and then the write is on course with its next request, or it is
/// over and has ended as it should.
pub open spec fn stepped(
    start: StorageView,
    run: RunView,
    request: RequestView,
    database: StorageView,
    transaction: Option<TransactionView>,
) -> bool {
    let answered = database.answer(transaction, request);
    let resumed = run.resume(answered.2);
    match resumed.1 {
        Some(next) => on_course(start, resumed.0, next, answered.0, answered.1),
        None => arrived(start, resumed.0, answered.0),
    }
}

/// One step of a write keeps it on course, or ends it as it should end:
/// with everything written and committed, or with nothing changed.
pub proof fn lemma_step(
    start: StorageView,
    run: RunView,
    request: RequestView,
    database: StorageView,
    transaction: Option<TransactionView>,
)
    requires
        start.wf(),
        run.wf(),
        transaction_wf(transaction),
        on_course(start, run, request, database, transaction),
    ensures
        stepped(start, run, request, database, transaction),
{
    match run.script {
        ScriptView::AddFolders(all) => {
            lemma_step_folders(start, all, run, request, transaction);
        },
        ScriptView::AddWords(all) => {
            lemma_step_words(start, all, run, request, transaction);
        },
        ScriptView::Delete { store, id } => {
            lemma_step_delete(start, store, id, run, request, transaction);
        },
    }
}

} // verus!
