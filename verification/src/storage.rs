//! The storage layer: the database, and the operations on it.
//!
//! The database of this module is kept in memory and is an engine of its
//! own: it does what the storage layer expects of an engine, and words its
//! refusals in its own texts.  A database that the browser keeps is driven
//! by the same protocol, from outside this library.
//!
//! An operation that writes is a write as the protocol knows it: the
//! database answers its requests one by one, on a transaction that holds a
//! copy of the store.  The copy replaces the store when the write commits,
//! and is dropped when the write aborts, so that the database is then as it
//! was.

use vstd::prelude::*;
use vstd::string::StringExecFns;
use crate::course::{
    arrived, lemma_commit_settled, lemma_settled_get, lemma_settled_is_word_store, lemma_step,
    on_course,
};
use crate::database::{StorageView, TransactionView};
use crate::folder_store::FolderStore;
use crate::model::{
    copy_folders, copy_words, direction_of, folder_views, sort_direction, word_views, Data,
    Direction, Folder, FolderView, FoldersAndCount, Word, WordView, WordsAndCount,
};
use crate::protocol::{import_scripts, issued_identity, Reply, Request, Run, Script};
use crate::schema::{ObjStoreName, OBJ_STORE_FOLDERS, OBJ_STORE_WORDS};
use crate::storage_error::{StorageError, StorageErrorView, NO_TRANSACTION, STORE_NOT_FOUND};
use crate::word_store::{settled, WordStore};

verus! {

/// A transaction on one object store.  It holds a copy of the store, which
/// takes the transaction's writes and replaces the store when the
/// transaction commits.
pub enum TransactionContext {
    /// A transaction on the store of folders.
    Folders(FolderStore),
    /// A transaction on the store of words.
    Words(WordStore),
}

impl View for TransactionContext {
    type V = TransactionView;

    open spec fn view(&self) -> TransactionView {
        match self {
            TransactionContext::Folders(store) => TransactionView::Folders(store@),
            TransactionContext::Words(store) => TransactionView::Words(store@),
        }
    }
}

/// The value of a transaction that may be open or not.
pub open spec fn transaction_view(transaction: Option<TransactionContext>) -> Option<
    TransactionView,
> {
    match transaction {
        Some(open) => Some(open@),
        None => None,
    }
}

impl TransactionContext {
    /// Whether the store that the transaction holds is in order.
    pub open spec fn wf(&self) -> bool {
        match self {
            TransactionContext::Folders(store) => store.wf(),
            TransactionContext::Words(store) => store.wf(),
        }
    }

    /// Writes or deletes a record in the transaction's store, and answers
    /// as the store does.  A request that is not for this store, or is no
    /// write, is refused.
    pub fn perform(&mut self, request: &Request) -> (reply: Reply)
        requires
            old(self).wf(),
        ensures
            final(self).wf(),
            (final(self)@, reply@) == old(self)@.perform(request@),
    {
        match self {
            TransactionContext::Folders(store) => match request {
                Request::AddFolder(folder) => match store.add(folder) {
                    Ok(()) => Reply::Done,
                    Err(error) => Reply::Failed(error),
                },
                Request::Delete(_) => Reply::Done,
                _ => Reply::Failed(StorageError::engine(STORE_NOT_FOUND)),
            },
            TransactionContext::Words(store) => match request {
                Request::AddWord(word) => match store.add(word) {
                    Ok(key) => Reply::Key(key),
                    Err(error) => Reply::Failed(error),
                },
                Request::PutWord(word, key) => match store.put(word, *key) {
                    Ok(()) => Reply::Done,
                    Err(error) => Reply::Failed(error),
                },
                Request::Delete(id) => {
                    store.delete(*id);
                    Reply::Done
                },
                _ => Reply::Failed(StorageError::engine(STORE_NOT_FOUND)),
            },
        }
    }
}

/// What a read by identity comes to: the word that was found, or that
/// there is none.
pub fn found_or_not(found: Option<Word>) -> (result: Result<Word, StorageError>)
    ensures
        match found {
            Some(word) => result == Ok::<Word, StorageError>(word),
            None => result == Err::<Word, StorageError>(StorageError::NotFound),
        },
{
    match found {
        Some(word) => Ok(word),
        None => Err(StorageError::NotFound),
    }
}

/// Decides whether two texts are the same.
fn same_text(a: &str, b: &str) -> (same: bool)
    ensures
        same == (a@ == b@),
{
    String::from_str(a) == String::from_str(b)
}

/// The database of the dictionary: its two object stores.
pub struct Storage {
    folders: FolderStore,
    words: WordStore,
}

impl View for Storage {
    type V = StorageView;

    closed spec fn view(&self) -> StorageView {
        StorageView {
            folders: self.folders@,
            words: self.words@.values(),
            next_key: self.words@.next_key,
        }
    }
}

impl Storage {
    /// Whether the database is in order: both stores are, and every word
    /// carries its own key as its identity.
    pub closed spec fn wf(&self) -> bool {
        &&& self.folders.wf()
        &&& self.words.wf()
        &&& settled(self.words@.entries)
    }

    /// A database that is in order has a valid value.
    pub proof fn lemma_wf(&self)
        requires
            self.wf(),
        ensures
            self@.wf(),
    {
    }

    /// Opens the database, which creates its two object stores, both empty.
    /// A database in memory is always opened for the first time: it does
    /// not outlive its handle, so there is nothing to open again.
    pub fn open() -> (result: Result<Storage, StorageError>)
        ensures
            match result {
                Ok(storage) => storage.wf() && storage@ == StorageView::empty(),
                Err(_) => false,
            },
    {
        let storage = Storage { folders: FolderStore::new(), words: WordStore::new() };
        assert(storage@.words =~= Seq::<WordView>::empty());
        Ok(storage)
    }

    /// Closes the database.  The handle is given up, so nothing can be done
    /// with the database afterwards.
    pub fn close_db(self) {
    }

    /// Opens a transaction on the store of the given name.  There is no
    /// transaction on a store that the database does not have.
    pub fn get_transaction(&self, store_name: &str) -> (result: Result<
        TransactionContext,
        StorageError,
    >)
        requires
            self.wf(),
        ensures
            match result {
                Ok(transaction) => {
                    &&& transaction.wf()
                    &&& self@.begin(store_name@) == Ok::<TransactionView, StorageErrorView>(
                        transaction@,
                    )
                },
                Err(error) => self@.begin(store_name@) == Err::<
                    TransactionView,
                    StorageErrorView,
                >(error@),
            },
    {
        if same_text(store_name, OBJ_STORE_FOLDERS) {
            Ok(TransactionContext::Folders(self.folders.duplicate()))
        } else if same_text(store_name, OBJ_STORE_WORDS) {
            proof {
                lemma_settled_is_word_store(self.words@, self@);
            }
            Ok(TransactionContext::Words(self.words.duplicate()))
        } else {
            Err(StorageError::engine(STORE_NOT_FOUND))
        }
    }

    /// Commits a transaction: the store that the transaction worked on
    /// replaces the database's own.
    fn commit(&mut self, transaction: TransactionContext)
        requires
            old(self).wf(),
            transaction.wf(),
            transaction matches TransactionContext::Words(store) ==> settled(store@.entries),
        ensures
            final(self).wf(),
            final(self)@ == old(self)@.commit(transaction@),
    {
        match transaction {
            TransactionContext::Folders(store) => {
                self.folders = store;
            },
            TransactionContext::Words(store) => {
                self.words = store;
            },
        }
    }

    /// Answers a request as the database does: a transaction is opened,
    /// written to, committed or aborted.
    fn answer(&mut self, transaction: Option<TransactionContext>, request: Request) -> (answered: (
        Option<TransactionContext>,
        Reply,
    ))
        requires
            old(self).wf(),
            transaction matches Some(open) ==> open.wf(),
            request is Commit ==> (transaction matches Some(TransactionContext::Words(store))
                ==> settled(store@.entries)),
        ensures
            final(self).wf(),
            answered.0 matches Some(open) ==> open.wf(),
            (final(self)@, transaction_view(answered.0), answered.1@) == old(self)@.answer(
                transaction_view(transaction),
                request@,
            ),
    {
        match request {
            Request::Begin(store) => match self.get_transaction(store.as_str()) {
                Ok(opened) => (Some(opened), Reply::Done),
                Err(error) => (transaction, Reply::Failed(error)),
            },
            Request::Commit => match transaction {
                Some(open) => {
                    self.commit(open);
                    (None, Reply::Done)
                },
                None => (None, Reply::Failed(StorageError::engine(NO_TRANSACTION))),
            },
            Request::Abort => (None, Reply::Done),
            write => match transaction {
                Some(open) => {
                    let mut open = open;
                    let reply = open.perform(&write);
                    (Some(open), reply)
                },
                None => (None, Reply::Failed(StorageError::engine(NO_TRANSACTION))),
            },
        }
    }

    /// Does a write: takes its steps one by one, answering each request as
    /// the database does, until the write is over.  The write is then done
    /// as a whole, and the identities it gave to its words are returned; or
    /// a step has failed, and the database is as it was.
    pub fn execute(&mut self, script: Script) -> (result: Result<Vec<u32>, StorageError>)
        requires
            old(self).wf(),
        ensures
            final(self).wf(),
            match result {
                Ok(issued) => {
                    &&& old(self)@.write(script@) == Ok::<StorageView, StorageErrorView>(
                        final(self)@,
                    )
                    &&& issued@ == old(self)@.issues(script@)
                },
                Err(error) => {
                    &&& old(self)@.write(script@) == Err::<StorageView, StorageErrorView>(error@)
                    &&& final(self)@ == old(self)@
                },
            },
    {
        let ghost start = self@;
        let (mut run, first) = Run::start(script);
        let mut request = first;
        let mut transaction: Option<TransactionContext> = None;
        loop
            invariant_except_break
                self.wf(),
                start.wf(),
                run.wf(),
                run@.script == script@,
                !(run@.phase is Finished),
                transaction matches Some(open) ==> open.wf(),
                on_course(start, run@, request@, self@, transaction_view(transaction)),
            ensures
                self.wf(),
                run@.script == script@,
                arrived(start, run@, self@),
            decreases run@.steps_left(),
        {
            proof {
                lemma_step(start, run@, request@, self@, transaction_view(transaction));
                if request is Commit {
                    lemma_commit_settled(
                        start,
                        run@,
                        request@,
                        self@,
                        transaction_view(transaction),
                    );
                }
            }
            let (after, reply) = self.answer(transaction, request);
            transaction = after;
            match run.resume(reply) {
                Some(next) => {
                    request = next;
                },
                None => {
                    break ;
                },
            }
        }
        run.outcome()
    }

    /// Adds a folder.  A folder whose name is taken is refused, and the
    /// database stays as it was.
    pub fn add_folder(&mut self, folder: &Folder) -> (result: Result<(), StorageError>)
        requires
            old(self).wf(),
        ensures
            final(self).wf(),
            match result {
                Ok(()) => old(self)@.add_folder(folder@) == Ok::<StorageView, StorageErrorView>(
                    final(self)@,
                ),
                Err(error) => {
                    &&& old(self)@.add_folder(folder@) == Err::<StorageView, StorageErrorView>(
                        error@,
                    )
                    &&& final(self)@ == old(self)@
                },
            },
    {
        let mut folders: Vec<Folder> = Vec::new();
        folders.push(folder.clone());
        proof {
            assert(folder_views(folders@) =~= seq![folder@]);
            lemma_import_one_folder(self@, folder@);
        }
        match self.execute(Script::AddFolders(folders)) {
            Ok(_) => Ok(()),
            Err(error) => Err(error),
        }
    }

    /// Adds a word and returns the identity that the database has given it.
    /// The stored word carries that identity, whatever identity it brought.
    pub fn add_word(&mut self, word: &Word) -> (result: Result<u32, StorageError>)
        requires
            old(self).wf(),
        ensures
            final(self).wf(),
            match result {
                Ok(id) => {
                    &&& id == old(self)@.next_key
                    &&& old(self)@.add_word(word@) == Ok::<StorageView, StorageErrorView>(
                        final(self)@,
                    )
                },
                Err(error) => {
                    &&& old(self)@.add_word(word@) == Err::<StorageView, StorageErrorView>(
                        error@,
                    )
                    &&& final(self)@ == old(self)@
                },
            },
    {
        let mut words: Vec<Word> = Vec::new();
        words.push(word.clone());
        proof {
            assert(word_views(words@) =~= seq![word@]);
            lemma_import_one_word(self@, word@);
        }
        match self.execute(Script::AddWords(words)) {
            Ok(issued) => issued_identity(&issued),
            Err(error) => Err(error),
        }
    }

    /// Deletes the record that the store of `T` keeps under the number `id`.
    /// Deleting what is not there is no error.  Folders are kept under their
    /// names, so no number is the key of a folder, and deleting from their
    /// store by a number changes nothing.
    pub fn delete_by_id<T: ObjStoreName>(&mut self, id: u32) -> (result: Result<(), StorageError>)
        requires
            old(self).wf(),
        ensures
            final(self).wf(),
            match result {
                Ok(()) => if T::store_name() == OBJ_STORE_WORDS@ {
                    final(self)@ == old(self)@.delete_word(id)
                } else {
                    &&& T::store_name() == OBJ_STORE_FOLDERS@
                    &&& final(self)@ == old(self)@
                },
                Err(error) => {
                    &&& T::store_name() != OBJ_STORE_WORDS@
                    &&& T::store_name() != OBJ_STORE_FOLDERS@
                    &&& final(self)@ == old(self)@
                    &&& error@ == StorageErrorView::RexieError(STORE_NOT_FOUND@)
                },
            },
    {
        let store = String::from_str(T::obj_store_name());
        match self.execute(Script::Delete { store, id }) {
            Ok(_) => Ok(()),
            Err(error) => Err(error),
        }
    }

    /// Gets the word of identity `id`.
    pub fn get_word_by_id(&self, id: u32) -> (result: Result<Word, StorageError>)
        requires
            self.wf(),
        ensures
            match result {
                Ok(word) => self@.word_by_id(id) == Ok::<WordView, StorageErrorView>(word@),
                Err(error) => self@.word_by_id(id) == Err::<WordView, StorageErrorView>(error@),
            },
    {
        proof {
            lemma_settled_get(self.words@, self@, id);
        }
        found_or_not(self.words.get(id))
    }

    /// Lists folders in the order of their names, with the number of all
    /// folders.  `direction` is a sort symbol; `offset` folders are
    /// skipped, and at most `limit` are handed out.
    pub fn get_folders(&self, limit: Option<u32>, offset: Option<u32>, direction: String) -> (result:
        Result<FoldersAndCount, StorageError>)
        requires
            self.wf(),
        ensures
            match result {
                Ok(found) => {
                    &&& folder_views(found.folders@) == self@.list_folders(
                        limit,
                        offset,
                        direction_of(direction@),
                    )
                    &&& found.count == self@.folders.len()
                },
                Err(_) => false,
            },
    {
        let direction = sort_direction(direction.as_str());
        let folders = self.folders.get_all(limit, offset, direction);
        let count = self.folders.count();
        Ok(FoldersAndCount { folders, count })
    }

    /// Lists words of one folder in the order of their identities, with the
    /// number of all words of that folder.  `direction` is a sort symbol;
    /// `offset` words are skipped, and at most `limit` are handed out.
    pub fn get_words(
        &self,
        folder: String,
        limit: Option<u32>,
        offset: Option<u32>,
        direction: String,
    ) -> (result: Result<WordsAndCount, StorageError>)
        requires
            self.wf(),
        ensures
            match result {
                Ok(found) => {
                    &&& word_views(found.words@) == self@.list_words(
                        folder@,
                        limit,
                        offset,
                        direction_of(direction@),
                    )
                    &&& found.count == self@.words_in(folder@).len()
                },
                Err(_) => false,
            },
    {
        let direction = sort_direction(direction.as_str());
        let words = self.words.get_all_in_folder(&folder, limit, offset, direction);
        let count = self.words.count_in_folder(&folder);
        Ok(WordsAndCount { words, count })
    }

    /// Reads every folder, in the order of the names.
    pub fn export_folders(&self) -> (result: Result<Vec<Folder>, StorageError>)
        requires
            self.wf(),
        ensures
            match result {
                Ok(folders) => folder_views(folders@) == self@.folders,
                Err(_) => false,
            },
    {
        Ok(self.folders.get_all(None, None, Direction::Next))
    }

    /// Reads every word, in the order of the identities.
    pub fn export_words(&self) -> (result: Result<Vec<Word>, StorageError>)
        requires
            self.wf(),
        ensures
            match result {
                Ok(words) => word_views(words@) == self@.words,
                Err(_) => false,
            },
    {
        Ok(self.words.get_all(None, None, Direction::Next))
    }

    /// Exports the database: every folder and every word, in an envelope
    /// of the current version.
    pub fn export_data(&self) -> (result: Result<Data, StorageError>)
        requires
            self.wf(),
        ensures
            match result {
                Ok(data) => data@ == self@.export(),
                Err(_) => false,
            },
    {
        let folders = self.export_folders()?;
        let words = self.export_words()?;
        Ok(Data::envelope(folders, words))
    }

    /// Adds the folders in one transaction, each as `add_folder` would: all
    /// of them go in, or, if one is refused, none.
    pub fn import_folders(&mut self, folders: &Vec<Folder>) -> (result: Result<(), StorageError>)
        requires
            old(self).wf(),
        ensures
            final(self).wf(),
            match result {
                Ok(()) => old(self)@.import_folders(folder_views(folders@)) == Ok::<
                    StorageView,
                    StorageErrorView,
                >(final(self)@),
                Err(error) => {
                    &&& old(self)@.import_folders(folder_views(folders@)) == Err::<
                        StorageView,
                        StorageErrorView,
                    >(error@)
                    &&& final(self)@ == old(self)@
                },
            },
    {
        match self.execute(Script::AddFolders(copy_folders(folders))) {
            Ok(_) => Ok(()),
            Err(error) => Err(error),
        }
    }

    /// Adds the words in one transaction, each as `add_word` would: all of
    /// them go in, or, if one is refused, none.
    pub fn import_words(&mut self, words: &Vec<Word>) -> (result: Result<(), StorageError>)
        requires
            old(self).wf(),
        ensures
            final(self).wf(),
            match result {
                Ok(()) => old(self)@.import_words(word_views(words@)) == Ok::<
                    StorageView,
                    StorageErrorView,
                >(final(self)@),
                Err(error) => {
                    &&& old(self)@.import_words(word_views(words@)) == Err::<
                        StorageView,
                        StorageErrorView,
                    >(error@)
                    &&& final(self)@ == old(self)@
                },
            },
    {
        match self.execute(Script::AddWords(copy_words(words))) {
            Ok(_) => Ok(()),
            Err(error) => Err(error),
        }
    }

    /// Imports an envelope and hands it back.  An envelope of another
    /// version than the current one is refused before anything is written.
    /// The folders are added in one transaction, then the words in another:
    /// when a word is refused no word goes in, but the folders stay.
    pub fn import_data(&mut self, data: Data) -> (result: Result<Data, StorageError>)
        requires
            old(self).wf(),
        ensures
            final(self).wf(),
            final(self)@ == old(self)@.import(data@).0,
            match result {
                Ok(same) => old(self)@.import(data@).1.is_none() && same == data,
                Err(error) => old(self)@.import(data@).1 == Some(error@),
            },
    {
        let (folders, words) = import_scripts(&data)?;
        self.execute(folders)?;
        self.execute(words)?;
        Ok(data)
    }
}

/// Importing one folder is adding it.
proof fn lemma_import_one_folder(database: StorageView, folder: FolderView)
    ensures
        database.import_folders(seq![folder]) == database.add_folder(folder),
{
    let one = seq![folder];
    if let Ok(next) = database.add_folder(folder) {
        assert(next.import_folders(one.drop_first()) == Ok::<StorageView, StorageErrorView>(
            next,
        ));
    }
}

/// Importing one word is adding it.
proof fn lemma_import_one_word(database: StorageView, word: WordView)
    ensures
        database.import_words(seq![word]) == database.add_word(word),
{
    let one = seq![word];
    if let Ok(next) = database.add_word(word) {
        assert(next.import_words(one.drop_first()) == Ok::<StorageView, StorageErrorView>(next));
    }
}

} // verus!
