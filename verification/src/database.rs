//! The database as a mathematical value, and what each operation makes of
//! it.
//!
//! The contracts of the storage layer are stated over this model: an
//! operation on the storage is correct when the storage's value changes as
//! the model says.

use vstd::prelude::*;
use crate::folder_store::{names_ascend, with_folder};
use crate::model::{DataView, Direction, FolderView, WordView};
use crate::paging::page;
use crate::protocol::{ReplyView, RequestView, ScriptView};
use crate::schema::{IMPORT_EXPORT_DATA_VERSION, OBJ_STORE_FOLDERS, OBJ_STORE_WORDS};
use crate::storage_error::{
    StorageErrorView, INVALID_VERSION_ERROR, KEYS_EXHAUSTED, NO_TRANSACTION, STORE_FULL,
    STORE_NOT_FOUND,
};
use crate::word_store::{filed_in, EntryView, WordStoreView};

verus! {

/// Whether every word carries an identity, and each word's identity is
/// smaller than the identities of those behind it.
pub open spec fn ids_ascend(words: Seq<WordView>) -> bool {
    &&& forall|i: int| 0 <= i < words.len() ==> (#[trigger] words[i]).id is Some
    &&& forall|i: int, j: int|
        #![trigger words[i], words[j]]
        0 <= i < j < words.len() ==> words[i].id->0 < words[j].id->0
}

/// Whether one of the words carries the identity `id`.
pub open spec fn has_id(words: Seq<WordView>, id: u32) -> bool {
    exists|i: int| 0 <= i < words.len() && (#[trigger] words[i]).id == Some(id)
}

/// The mathematical value of a transaction: the store that it works on, as
/// the transaction has it.
pub enum TransactionView {
    Folders(Seq<FolderView>),
    Words(WordStoreView),
}

impl TransactionView {
    /// What becomes of the transaction's store when a record is to be
    /// written or deleted, and what is answered.  Folders are kept under
    /// their names, so deleting by a number leaves them alone.  A request
    /// for the other store is refused.
    pub open spec fn perform(self, request: RequestView) -> (TransactionView, ReplyView) {
        match (self, request) {
            (TransactionView::Folders(folders), RequestView::AddFolder(folder)) => match with_folder(
                folders,
                folder,
            ) {
                Ok(next) => (TransactionView::Folders(next), ReplyView::Done),
                Err(error) => (self, ReplyView::Failed(error)),
            },
            (TransactionView::Folders(_), RequestView::Delete(_)) => (self, ReplyView::Done),
            (TransactionView::Words(store), RequestView::AddWord(word)) => if store.can_add() {
                (TransactionView::Words(store.add(word)), ReplyView::Key(store.next_key as u32))
            } else {
                (self, ReplyView::Failed(store.add_error()))
            },
            (TransactionView::Words(store), RequestView::PutWord(word, key)) => if store.can_put(
                key,
            ) {
                (TransactionView::Words(store.put(key, word)), ReplyView::Done)
            } else {
                (self, ReplyView::Failed(StorageErrorView::RexieError(STORE_FULL@)))
            },
            (TransactionView::Words(store), RequestView::Delete(id)) => (
                TransactionView::Words(store.delete(id)),
                ReplyView::Done,
            ),
            _ => (self, ReplyView::Failed(StorageErrorView::RexieError(STORE_NOT_FOUND@))),
        }
    }
}

/// The mathematical value of the database.
pub struct StorageView {
    /// The folders, in the order of their names.
    pub folders: Seq<FolderView>,
    /// The words, in the order of their identities.
    pub words: Seq<WordView>,
    /// The identity that the next word will be given.
    pub next_key: int,
}

impl StorageView {
    /// Whether the value is one that a database can have: no two folders
    /// share a name, every word carries its own identity, no identity is
    /// used twice or has yet to be issued, and neither store holds more
    /// records than can be counted.
    pub open spec fn wf(self) -> bool {
        &&& names_ascend(self.folders)
        &&& self.folders.len() <= u32::MAX
        &&& ids_ascend(self.words)
        &&& forall|i: int| 0 <= i < self.words.len() ==> (#[trigger] self.words[i]).id->0
            < self.next_key
        &&& 1 <= self.next_key <= u32::MAX + 1
        &&& self.words.len() <= u32::MAX
    }

    /// The database as it is created: no folders, no words, and one as the
    /// first identity.
    pub open spec fn empty() -> StorageView {
        StorageView { folders: Seq::empty(), words: Seq::empty(), next_key: 1 }
    }

    /// Adding a folder: refused when its name is taken or the store is full,
    /// else the folder takes its place among the others.
    pub open spec fn add_folder(self, folder: FolderView) -> Result<StorageView, StorageErrorView> {
        match with_folder(self.folders, folder) {
            Ok(folders) => Ok(StorageView { folders, ..self }),
            Err(error) => Err(error),
        }
    }

    /// Adding a word: refused when no identity is left or the store is full,
    /// else the word comes last, carrying the next identity, whatever
    /// identity it brought.
    pub open spec fn add_word(self, word: WordView) -> Result<StorageView, StorageErrorView> {
        if self.next_key > u32::MAX {
            Err(StorageErrorView::RexieError(KEYS_EXHAUSTED@))
        } else if self.words.len() >= u32::MAX {
            Err(StorageErrorView::RexieError(STORE_FULL@))
        } else {
            Ok(
                StorageView {
                    words: self.words.push(word.with_id(Some(self.next_key as u32))),
                    next_key: self.next_key + 1,
                    ..self
                },
            )
        }
    }

    /// The database without the word of identity `id`.
    pub open spec fn delete_word(self, id: u32) -> StorageView {
        StorageView { words: self.words.filter(|word: WordView| word.id != Some(id)), ..self }
    }

    /// The word of identity `id`, or that there is none.
    pub open spec fn word_by_id(self, id: u32) -> Result<WordView, StorageErrorView> {
        if has_id(self.words, id) {
            Ok(
                self.words[choose|i: int|
                    0 <= i < self.words.len() && (#[trigger] self.words[i]).id == Some(id)],
            )
        } else {
            Err(StorageErrorView::NotFound)
        }
    }

    /// A page of the folders, in the order of their names.
    pub open spec fn list_folders(
        self,
        limit: Option<u32>,
        offset: Option<u32>,
        direction: Direction,
    ) -> Seq<FolderView> {
        page(self.folders, limit, offset, direction)
    }

    /// The words of one folder, in the order of their identities.
    pub open spec fn words_in(self, folder: Seq<char>) -> Seq<WordView> {
        filed_in(self.words, folder)
    }

    /// A page of the words of one folder, in the order of their identities.
    pub open spec fn list_words(
        self,
        folder: Seq<char>,
        limit: Option<u32>,
        offset: Option<u32>,
        direction: Direction,
    ) -> Seq<WordView> {
        page(self.words_in(folder), limit, offset, direction)
    }

    /// The envelope that holds everything in the database.
    pub open spec fn export(self) -> DataView {
        DataView { version: IMPORT_EXPORT_DATA_VERSION, folders: self.folders, words: self.words }
    }

    /// Adding folders one after the other, all or none: the first folder
    /// that is refused decides the error.
    pub open spec fn import_folders(self, folders: Seq<FolderView>) -> Result<
        StorageView,
        StorageErrorView,
    >
        decreases folders.len(),
    {
        if folders.len() == 0 {
            Ok(self)
        } else {
            match self.add_folder(folders[0]) {
                Ok(next) => next.import_folders(folders.drop_first()),
                Err(error) => Err(error),
            }
        }
    }

    /// Adding words one after the other, all or none: the first word that
    /// is refused decides the error.
    pub open spec fn import_words(self, words: Seq<WordView>) -> Result<
        StorageView,
        StorageErrorView,
    >
        decreases words.len(),
    {
        if words.len() == 0 {
            Ok(self)
        } else {
            match self.add_word(words[0]) {
                Ok(next) => next.import_words(words.drop_first()),
                Err(error) => Err(error),
            }
        }
    }

    /// Importing an envelope: what the database is afterwards, and the error
    /// if there was one.  An envelope of another version changes nothing.
    /// The folders go in first, all or none; then the words, all or none.
    /// Folders that went in stay, whatever becomes of the words.
    pub open spec fn import(self, data: DataView) -> (StorageView, Option<StorageErrorView>) {
        if data.version != IMPORT_EXPORT_DATA_VERSION {
            (self, Some(StorageErrorView::ImportError(INVALID_VERSION_ERROR@)))
        } else {
            match self.import_folders(data.folders) {
                Err(error) => (self, Some(error)),
                Ok(with_folders) => match with_folders.import_words(data.words) {
                    Err(error) => (with_folders, Some(error)),
                    Ok(with_words) => (with_words, None),
                },
            }
        }
    }

    /// The store of words as the database has it: each word under its
    /// identity.
    pub open spec fn word_store(self) -> WordStoreView {
        WordStoreView {
            entries: self.words.map_values(
                |word: WordView| EntryView { key: word.id->0, value: word },
            ),
            next_key: self.next_key,
        }
    }

    /// Opening a transaction on the store of the given name: it holds the
    /// store as the database has it.  There is none on a store that the
    /// database does not have.
    pub open spec fn begin(self, store: Seq<char>) -> Result<TransactionView, StorageErrorView> {
        if store == OBJ_STORE_FOLDERS@ {
            Ok(TransactionView::Folders(self.folders))
        } else if store == OBJ_STORE_WORDS@ {
            Ok(TransactionView::Words(self.word_store()))
        } else {
            Err(StorageErrorView::RexieError(STORE_NOT_FOUND@))
        }
    }

    /// Committing a transaction: the store that it worked on replaces the
    /// database's own.
    pub open spec fn commit(self, transaction: TransactionView) -> StorageView {
        match transaction {
            TransactionView::Folders(folders) => StorageView { folders, ..self },
            TransactionView::Words(store) => StorageView {
                words: store.values(),
                next_key: store.next_key,
                ..self
            },
        }
    }

    /// What a request does to the database and to the transaction that is
    /// open, if one is, and what is answered.
    pub open spec fn answer(self, transaction: Option<TransactionView>, request: RequestView) -> (
        StorageView,
        Option<TransactionView>,
        ReplyView,
    ) {
        match request {
            RequestView::Begin(store) => match self.begin(store) {
                Ok(opened) => (self, Some(opened), ReplyView::Done),
                Err(error) => (self, transaction, ReplyView::Failed(error)),
            },
            RequestView::Commit => match transaction {
                Some(open) => (self.commit(open), None, ReplyView::Done),
                None => (
                    self,
                    None,
                    ReplyView::Failed(StorageErrorView::RexieError(NO_TRANSACTION@)),
                ),
            },
            RequestView::Abort => (self, None, ReplyView::Done),
            _ => match transaction {
                Some(open) => (self, Some(open.perform(request).0), open.perform(request).1),
                None => (
                    self,
                    None,
                    ReplyView::Failed(StorageErrorView::RexieError(NO_TRANSACTION@)),
                ),
            },
        }
    }

    /// What a write makes of the database when all its steps are taken.
    pub open spec fn write(self, script: ScriptView) -> Result<StorageView, StorageErrorView> {
        match script {
            ScriptView::AddFolders(folders) => self.import_folders(folders),
            ScriptView::AddWords(words) => self.import_words(words),
            ScriptView::Delete { store, id } => if store == OBJ_STORE_WORDS@ {
                Ok(self.delete_word(id))
            } else if store == OBJ_STORE_FOLDERS@ {
                Ok(self)
            } else {
                Err(StorageErrorView::RexieError(STORE_NOT_FOUND@))
            },
        }
    }

    /// The identities that a write gives to the words it adds: the next
    /// one, and on from there.
    pub open spec fn issues(self, script: ScriptView) -> Seq<u32> {
        match script {
            ScriptView::AddWords(words) => Seq::new(
                words.len(),
                |i: int| (self.next_key + i) as u32,
            ),
            _ => Seq::empty(),
        }
    }

    /// The database after a write, whether it went well or not.
    pub open spec fn after(self, script: ScriptView) -> StorageView {
        match self.write(script) {
            Ok(next) => next,
            Err(_) => self,
        }
    }

    /// The database after one write after the other.
    pub open spec fn after_all(self, scripts: Seq<ScriptView>) -> StorageView
        decreases scripts.len(),
    {
        if scripts.len() == 0 {
            self
        } else {
            self.after_all(scripts.drop_last()).after(scripts.last())
        }
    }
}

} // verus!
