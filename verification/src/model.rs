//! The records of the dictionary and the envelope that carries them.

use vstd::prelude::*;
use vstd::string::StringExecFns;
use crate::clock::now_millis;
use crate::schema::IMPORT_EXPORT_DATA_VERSION;
use crate::storage_error::{StorageError, StorageErrorView, INVALID_VERSION_ERROR};

verus! {

/// The mathematical value of a [`Folder`].
pub struct FolderView {
    pub id: Option<u32>,
    pub folder: Seq<char>,
    pub folder_note: Seq<char>,
    pub datetime: i64,
}

/// A folder: a named group of words.  The name is the folder's key, so no
/// two stored folders share one.
#[derive(Debug, PartialEq, Eq, Hash)]
pub struct Folder {
    pub id: Option<u32>,
    pub folder: String,
    pub folder_note: String,
    pub datetime: i64,
}

/// The mathematical value of a [`Word`].
pub struct WordView {
    pub id: Option<u32>,
    pub folder: Seq<char>,
    pub word: Seq<char>,
    pub word_class: Seq<char>,
    pub url: Seq<char>,
    pub note: Seq<char>,
    pub datetime: i64,
}

/// A saved word.  `folder` names the folder it was filed under; `id` is
/// absent until the store has assigned one.
#[derive(Debug, PartialEq, Eq, Hash)]
pub struct Word {
    pub id: Option<u32>,
    pub folder: String,
    pub word: String,
    pub word_class: String,
    pub url: String,
    pub note: String,
    pub datetime: i64,
}

/// The mathematical value of a [`Data`] envelope.
pub struct DataView {
    pub version: u32,
    pub folders: Seq<FolderView>,
    pub words: Seq<WordView>,
}

/// The unit of export and import: every folder and every word, tagged with
/// the version of the format.
#[derive(Debug, PartialEq, Eq, Hash)]
pub struct Data {
    pub version: u32,
    pub folders: Vec<Folder>,
    pub words: Vec<Word>,
}

/// One page of folders, with the number of folders in the store.
#[derive(Debug, PartialEq, Eq, Hash)]
pub struct FoldersAndCount {
    pub folders: Vec<Folder>,
    pub count: u32,
}

/// One page of words, with the number of words in the folder asked for.
#[derive(Debug, PartialEq, Eq, Hash)]
pub struct WordsAndCount {
    pub words: Vec<Word>,
    pub count: u32,
}

/// Names a word by its identity.
#[derive(Debug, PartialEq, Eq, Clone, Copy, Hash)]
pub struct WordKey {
    pub id: u32,
}

/// Names a folder by an identity.
#[derive(Debug, PartialEq, Eq, Clone, Copy, Hash)]
pub struct FolderKey {
    pub id: u32,
}

/// The direction in which a listing walks the keys.
#[derive(Debug, PartialEq, Eq, Clone, Copy, Structural)]
pub enum Direction {
    /// From the smallest key to the largest.
    Next,
    /// From the largest key to the smallest.
    Prev,
}

/// The symbol that asks for an ascending listing.
pub const SORT_ASCENDING: &'static str = "\u{2191}";

/// The symbol that asks for a descending listing.
pub const SORT_DESCENDING: &'static str = "\u{2193}";

/// The direction that a sort symbol stands for.
pub open spec fn direction_of(symbol: Seq<char>) -> Direction {
    if symbol == SORT_ASCENDING@ {
        Direction::Next
    } else {
        Direction::Prev
    }
}

/// The symbol that listings start out with.
pub fn default_sort_direction() -> (symbol: &'static str)
    ensures
        symbol@ == SORT_ASCENDING@,
{
    SORT_ASCENDING
}

/// Reads a sort symbol.  Only the ascending symbol gives `Next`; the
/// descending symbol, and any other text, gives `Prev`.
pub fn sort_direction(symbol: &str) -> (direction: Direction)
    ensures
        direction == direction_of(symbol@),
{
    let given = String::from_str(symbol);
    let ascending = String::from_str(SORT_ASCENDING);
    if given == ascending {
        Direction::Next
    } else {
        Direction::Prev
    }
}

/// The values of a run of folders.
pub open spec fn folder_views(folders: Seq<Folder>) -> Seq<FolderView> {
    folders.map_values(|folder: Folder| folder@)
}

/// The values of a run of words.
pub open spec fn word_views(words: Seq<Word>) -> Seq<WordView> {
    words.map_values(|word: Word| word@)
}

impl View for Data {
    type V = DataView;

    open spec fn view(&self) -> DataView {
        DataView {
            version: self.version,
            folders: folder_views(self.folders@),
            words: word_views(self.words@),
        }
    }
}

/// Copies a run of folders.
pub fn copy_folders(folders: &Vec<Folder>) -> (copies: Vec<Folder>)
    ensures
        folder_views(copies@) == folder_views(folders@),
{
    let mut copies: Vec<Folder> = Vec::new();
    let mut at: usize = 0;
    while at < folders.len()
        invariant
            at <= folders@.len(),
            folder_views(copies@) == folder_views(folders@).take(at as int),
        decreases folders@.len() - at,
    {
        let copy = folders[at].clone();
        assert(folder_views(copies@.push(copy)) =~= folder_views(copies@).push(copy@));
        copies.push(copy);
        at += 1;
    }
    copies
}

/// Copies a run of words.
pub fn copy_words(words: &Vec<Word>) -> (copies: Vec<Word>)
    ensures
        word_views(copies@) == word_views(words@),
{
    let mut copies: Vec<Word> = Vec::new();
    let mut at: usize = 0;
    while at < words.len()
        invariant
            at <= words@.len(),
            word_views(copies@) == word_views(words@).take(at as int),
        decreases words@.len() - at,
    {
        let copy = words[at].clone();
        assert(word_views(copies@.push(copy)) =~= word_views(copies@).push(copy@));
        copies.push(copy);
        at += 1;
    }
    copies
}

impl Clone for Data {
    fn clone(&self) -> (copy: Data)
        ensures
            copy@ == self@,
    {
        Data {
            version: self.version,
            folders: copy_folders(&self.folders),
            words: copy_words(&self.words),
        }
    }
}

impl Data {
    /// The envelope of the current version that holds the given records.
    pub fn envelope(folders: Vec<Folder>, words: Vec<Word>) -> (data: Data)
        ensures
            data == (Data { version: IMPORT_EXPORT_DATA_VERSION, folders, words }),
    {
        Data { version: IMPORT_EXPORT_DATA_VERSION, folders, words }
    }

    /// Whether the envelope can be imported: only one of the current
    /// version can.
    pub fn check_version(&self) -> (result: Result<(), StorageError>)
        ensures
            match result {
                Ok(()) => self.version == IMPORT_EXPORT_DATA_VERSION,
                Err(error) => {
                    &&& self.version != IMPORT_EXPORT_DATA_VERSION
                    &&& error@ == StorageErrorView::ImportError(INVALID_VERSION_ERROR@)
                },
            },
    {
        if self.version != IMPORT_EXPORT_DATA_VERSION {
            Err(StorageError::ImportError(String::from_str(INVALID_VERSION_ERROR)))
        } else {
            Ok(())
        }
    }
}

impl Clone for FoldersAndCount {
    fn clone(&self) -> (copy: FoldersAndCount)
        ensures
            folder_views(copy.folders@) == folder_views(self.folders@),
            copy.count == self.count,
    {
        FoldersAndCount { folders: copy_folders(&self.folders), count: self.count }
    }
}

impl Clone for WordsAndCount {
    fn clone(&self) -> (copy: WordsAndCount)
        ensures
            word_views(copy.words@) == word_views(self.words@),
            copy.count == self.count,
    {
        WordsAndCount { words: copy_words(&self.words), count: self.count }
    }
}

impl View for Folder {
    type V = FolderView;

    open spec fn view(&self) -> FolderView {
        FolderView {
            id: self.id,
            folder: self.folder@,
            folder_note: self.folder_note@,
            datetime: self.datetime,
        }
    }
}

impl Clone for Folder {
    fn clone(&self) -> (copy: Folder)
        ensures
            copy@ == self@,
    {
        Folder {
            id: self.id,
            folder: self.folder.clone(),
            folder_note: self.folder_note.clone(),
            datetime: self.datetime,
        }
    }
}

impl Folder {
    /// A folder that has not been stored yet, stamped with `datetime`.
    pub fn with_datetime(folder: &String, folder_note: &String, datetime: i64) -> (made: Folder)
        ensures
            made@ == (FolderView {
                id: None,
                folder: folder@,
                folder_note: folder_note@,
                datetime,
            }),
    {
        Folder {
            id: None,
            folder: folder.clone(),
            folder_note: folder_note.clone(),
            datetime,
        }
    }

    /// A folder that has not been stored yet, stamped with the current time.
    pub fn new(folder: &String, folder_note: &String) -> (made: Folder)
        ensures
            made@.id.is_none(),
            made@.folder == folder@,
            made@.folder_note == folder_note@,
    {
        Folder::with_datetime(folder, folder_note, now_millis())
    }

    /// A folder is known by its name, so an assigned identity is not written
    /// into it: the result is a copy of the folder as it is.
    pub fn set_id(&self, id: Option<u32>) -> (copy: Folder)
        ensures
            copy@ == self@,
    {
        self.clone()
    }
}

impl View for Word {
    type V = WordView;

    open spec fn view(&self) -> WordView {
        WordView {
            id: self.id,
            folder: self.folder@,
            word: self.word@,
            word_class: self.word_class@,
            url: self.url@,
            note: self.note@,
            datetime: self.datetime,
        }
    }
}

impl Clone for Word {
    fn clone(&self) -> (copy: Word)
        ensures
            copy@ == self@,
    {
        Word {
            id: self.id,
            folder: self.folder.clone(),
            word: self.word.clone(),
            word_class: self.word_class.clone(),
            url: self.url.clone(),
            note: self.note.clone(),
            datetime: self.datetime,
        }
    }
}

impl WordView {
    /// The same word under the identity `id`.
    pub open spec fn with_id(self, id: Option<u32>) -> WordView {
        WordView { id, ..self }
    }
}

impl Word {
    /// A word that has not been stored yet, stamped with `datetime`.
    pub fn with_datetime(
        folder: &String,
        word: &String,
        word_class: &String,
        url: &String,
        note: &String,
        datetime: i64,
    ) -> (made: Word)
        ensures
            made@ == (WordView {
                id: None,
                folder: folder@,
                word: word@,
                word_class: word_class@,
                url: url@,
                note: note@,
                datetime,
            }),
    {
        Word {
            id: None,
            folder: folder.clone(),
            word: word.clone(),
            word_class: word_class.clone(),
            url: url.clone(),
            note: note.clone(),
            datetime,
        }
    }

    /// A word that has not been stored yet, stamped with the current time.
    pub fn new(
        folder: &String,
        word: &String,
        word_class: &String,
        url: &String,
        note: &String,
    ) -> (made: Word)
        ensures
            made@.id.is_none(),
            made@.folder == folder@,
            made@.word == word@,
            made@.word_class == word_class@,
            made@.url == url@,
            made@.note == note@,
    {
        Word::with_datetime(folder, word, word_class, url, note, now_millis())
    }

    /// A copy of the word that carries the identity `id`.
    pub fn set_id(&self, id: Option<u32>) -> (copy: Word)
        ensures
            copy@ == self@.with_id(id),
    {
        let mut word = self.clone();
        word.id = id;
        word
    }
}

} // verus!
