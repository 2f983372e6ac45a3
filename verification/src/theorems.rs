//! What holds of the database whatever is done with it.

use vstd::prelude::*;
use crate::database::{has_id, ids_ascend, StorageView};
use crate::protocol::ScriptView;
use crate::folder_store::{has_name, lemma_slot, names_ascend, slot};
use crate::key_order::{key_lt, lemma_key_lt_irreflexive, lemma_key_lt_transitive};
use crate::model::{DataView, Direction, FolderView, WordView};
use crate::paging::{leading_pages, lemma_pages_cover};
use crate::schema::IMPORT_EXPORT_DATA_VERSION;
use crate::sequences::{lemma_filter_keeps_all, lemma_filter_prefix};
use crate::storage_error::{StorageErrorView, INVALID_VERSION_ERROR, KEY_EXISTS};

verus! {

/// No two folders of a valid database share a name, and no two words share
/// an identity.
pub proof fn theorem_keys_are_unique(database: StorageView)
    requires
        database.wf(),
    ensures
        forall|i: int, j: int|
            #![trigger database.folders[i], database.folders[j]]
            0 <= i < database.folders.len() && 0 <= j < database.folders.len() && i != j
                ==> database.folders[i].folder != database.folders[j].folder,
        forall|i: int, j: int|
            #![trigger database.words[i], database.words[j]]
            0 <= i < database.words.len() && 0 <= j < database.words.len() && i != j
                ==> database.words[i].id != database.words[j].id,
{
    assert forall|i: int, j: int|
        #![trigger database.folders[i], database.folders[j]]
        0 <= i < database.folders.len() && 0 <= j < database.folders.len() && i
            != j implies database.folders[i].folder != database.folders[j].folder by {
        lemma_key_lt_irreflexive(database.folders[i].folder);
    }
}

/// Among ascending folders the ones whose names come before a given name
/// stand in front of all the others.
proof fn lemma_slot_splits(folders: Seq<FolderView>, name: Seq<char>)
    requires
        names_ascend(folders),
    ensures
        ({
            let at = slot(folders, name);
            &&& 0 <= at <= folders.len()
            &&& forall|i: int| 0 <= i < at ==> key_lt(#[trigger] folders[i].folder, name)
            &&& forall|i: int|
                at <= i < folders.len() ==> !key_lt(#[trigger] folders[i].folder, name)
        }),
    decreases folders.len(),
{
    let before = |folder: FolderView| key_lt(folder.folder, name);
    if folders.len() > 0 {
        let front = folders.drop_last();
        let last = folders.last();
        lemma_slot_splits(front, name);
        let split = slot(front, name);
        let at = if split == front.len() && before(last) {
            folders.len() as int
        } else {
            split
        };
        assert forall|i: int| 0 <= i < at implies key_lt(#[trigger] folders[i].folder, name) by {
            if i < front.len() {
                assert(folders[i] == front[i]);
            }
        }
        assert forall|i: int| at <= i < folders.len() implies !key_lt(
            #[trigger] folders[i].folder,
            name,
        ) by {
            if i < front.len() {
                assert(folders[i] == front[i]);
            } else if split < front.len() && before(last) {
                assert(folders[split] == front[split]);
                lemma_key_lt_transitive(folders[split].folder, last.folder, name);
            }
        }
        lemma_filter_prefix(folders, before, at);
    }
}

/// A folder that is added leaves the database valid.
proof fn lemma_add_folder_valid(database: StorageView, folder: FolderView)
    requires
        database.wf(),
    ensures
        match database.add_folder(folder) {
            Ok(next) => next.wf(),
            Err(_) => true,
        },
{
    lemma_slot_splits(database.folders, folder.folder);
    lemma_slot(database.folders, folder, slot(database.folders, folder.folder));
}

/// A word that is added leaves the database valid.
proof fn lemma_add_word_valid(database: StorageView, word: WordView)
    requires
        database.wf(),
    ensures
        match database.add_word(word) {
            Ok(next) => next.wf(),
            Err(_) => true,
        },
{
}

/// Folders that are imported leave the database valid.
proof fn lemma_import_folders_valid(database: StorageView, folders: Seq<FolderView>)
    requires
        database.wf(),
    ensures
        match database.import_folders(folders) {
            Ok(next) => next.wf(),
            Err(_) => true,
        },
    decreases folders.len(),
{
    if folders.len() > 0 {
        lemma_add_folder_valid(database, folders[0]);
        if let Ok(next) = database.add_folder(folders[0]) {
            lemma_import_folders_valid(next, folders.drop_first());
        }
    }
}

/// Words that are imported leave the database valid.
proof fn lemma_import_words_valid(database: StorageView, words: Seq<WordView>)
    requires
        database.wf(),
    ensures
        match database.import_words(words) {
            Ok(next) => next.wf(),
            Err(_) => true,
        },
    decreases words.len(),
{
    if words.len() > 0 {
        lemma_add_word_valid(database, words[0]);
        if let Ok(next) = database.add_word(words[0]) {
            lemma_import_words_valid(next, words.drop_first());
        }
    }
}

/// The database is valid when it is created, and no write makes a valid
/// database invalid.
pub proof fn theorem_valid_after(database: StorageView, script: ScriptView)
    requires
        database.wf(),
    ensures
        StorageView::empty().wf(),
        database.after(script).wf(),
{
    match script {
        ScriptView::AddFolders(folders) => {
            lemma_import_folders_valid(database, folders);
        },
        ScriptView::AddWords(words) => {
            lemma_import_words_valid(database, words);
        },
        ScriptView::Delete { store, id } => {
            let other = |word: WordView| word.id != Some(id);
            lemma_filter_ascends(database.words, other);
        },
    }
}

/// Whatever is written to a valid database, it stays valid.
pub proof fn theorem_valid_after_all(database: StorageView, scripts: Seq<ScriptView>)
    requires
        database.wf(),
    ensures
        database.after_all(scripts).wf(),
    decreases scripts.len(),
{
    if scripts.len() > 0 {
        theorem_valid_after_all(database, scripts.drop_last());
        theorem_valid_after(database.after_all(scripts.drop_last()), scripts.last());
    }
}

/// The identity that a new word is given is not the identity of any word
/// in the database, and reading by that identity afterwards gives the word
/// that was added, carrying the identity.
pub proof fn theorem_new_identity(database: StorageView, word: WordView)
    requires
        database.wf(),
        database.add_word(word) is Ok,
    ensures
        ({
            let id = database.next_key as u32;
            let next = database.add_word(word)->Ok_0;
            &&& !has_id(database.words, id)
            &&& next.word_by_id(id) == Ok::<WordView, StorageErrorView>(word.with_id(Some(id)))
        }),
{
    let id = database.next_key as u32;
    let next = database.add_word(word)->Ok_0;
    let last = database.words.len() as int;
    assert(next.words[last].id == Some(id));
}

/// Adding words one after the other never lets the next identity fall.
proof fn lemma_import_words_counts_up(database: StorageView, words: Seq<WordView>)
    ensures
        match database.import_words(words) {
            Ok(next) => next.next_key >= database.next_key && next.folders == database.folders,
            Err(_) => true,
        },
    decreases words.len(),
{
    if words.len() > 0 {
        if let Ok(next) = database.add_word(words[0]) {
            lemma_import_words_counts_up(next, words.drop_first());
        }
    }
}

/// Adding folders one after the other keeps every name that was taken, and
/// leaves the words alone.
proof fn lemma_import_folders_keeps_names(
    database: StorageView,
    folders: Seq<FolderView>,
    name: Seq<char>,
)
    requires
        has_name(database.folders, name),
    ensures
        match database.import_folders(folders) {
            Ok(next) => has_name(next.folders, name),
            Err(_) => true,
        },
    decreases folders.len(),
{
    if folders.len() > 0 {
        if let Ok(next) = database.add_folder(folders[0]) {
            lemma_add_folder_keeps_names(database, folders[0], name);
            lemma_import_folders_keeps_names(next, folders.drop_first(), name);
        }
    }
}

/// Adding folders one after the other leaves the next identity alone.
proof fn lemma_import_folders_keeps_count(database: StorageView, folders: Seq<FolderView>)
    ensures
        match database.import_folders(folders) {
            Ok(next) => next.next_key == database.next_key,
            Err(_) => true,
        },
    decreases folders.len(),
{
    if folders.len() > 0 {
        if let Ok(next) = database.add_folder(folders[0]) {
            lemma_import_folders_keeps_count(next, folders.drop_first());
        }
    }
}

/// A folder that was added leaves every name taken that was taken.
proof fn lemma_add_folder_keeps_names(database: StorageView, folder: FolderView, name: Seq<char>)
    requires
        has_name(database.folders, name),
        database.add_folder(folder) is Ok,
    ensures
        has_name(database.add_folder(folder)->Ok_0.folders, name),
{
    let at = slot(database.folders, folder.folder);
    let next = database.add_folder(folder)->Ok_0.folders;
    let i = choose|i: int|
        0 <= i < database.folders.len() && #[trigger] database.folders[i].folder == name;
    if i < at {
        assert(next[i].folder == name);
    } else {
        assert(next[i + 1].folder == name);
    }
}

/// No write lets the next identity fall, and none frees a folder's name.
pub proof fn lemma_after(database: StorageView, script: ScriptView)
    ensures
        database.after(script).next_key >= database.next_key,
        forall|name: Seq<char>|
            has_name(database.folders, name) ==> has_name(database.after(script).folders, name),
{
    assert forall|name: Seq<char>| has_name(database.folders, name) implies has_name(
        database.after(script).folders,
        name,
    ) by {
        match script {
            ScriptView::AddFolders(folders) => {
                lemma_import_folders_keeps_names(database, folders, name);
            },
            ScriptView::AddWords(words) => {
                lemma_import_words_counts_up(database, words);
            },
            _ => {},
        }
    }
    match script {
        ScriptView::AddFolders(folders) => {
            lemma_import_folders_keeps_count(database, folders);
        },
        ScriptView::AddWords(words) => {
            lemma_import_words_counts_up(database, words);
        },
        _ => {},
    }
}

/// No run of writes lets the next identity fall, and none frees a folder's
/// name.
pub proof fn lemma_after_all(database: StorageView, scripts: Seq<ScriptView>)
    ensures
        database.after_all(scripts).next_key >= database.next_key,
        forall|name: Seq<char>|
            has_name(database.folders, name) ==> has_name(
                database.after_all(scripts).folders,
                name,
            ),
    decreases scripts.len(),
{
    if scripts.len() > 0 {
        lemma_after_all(database, scripts.drop_last());
        lemma_after(database.after_all(scripts.drop_last()), scripts.last());
    }
}

/// An identity is given once in the life of the database: whatever is done
/// after a word was added, also deleting it, a word that is added later is
/// given a greater identity.
pub proof fn theorem_identity_given_once(
    database: StorageView,
    first: WordView,
    steps: Seq<ScriptView>,
    second: WordView,
)
    requires
        database.add_word(first) is Ok,
        database.add_word(first)->Ok_0.after_all(steps).add_word(second) is Ok,
    ensures
        database.next_key < database.add_word(first)->Ok_0.after_all(steps).next_key,
{
    lemma_after_all(database.add_word(first)->Ok_0, steps);
}

/// A folder's name is taken for good: once a folder was added, a folder of
/// the same name is refused as a conflict, at once and after whatever else
/// was done.
pub proof fn theorem_folder_name_taken(
    database: StorageView,
    first: FolderView,
    steps: Seq<ScriptView>,
    second: FolderView,
)
    requires
        database.wf(),
        database.add_folder(first) is Ok,
        second.folder == first.folder,
    ensures
        database.add_folder(first)->Ok_0.after_all(steps).add_folder(second) == Err::<
            StorageView,
            StorageErrorView,
        >(StorageErrorView::RexieError(KEY_EXISTS@)),
{
    let next = database.add_folder(first)->Ok_0;
    let at = slot(database.folders, first.folder);
    assert(next.folders[at].folder == first.folder);
    assert(has_name(next.folders, second.folder));
    lemma_after_all(next, steps);
}

/// Deleting a word twice is deleting it once, and a deleted word is not
/// found.
pub proof fn theorem_delete_twice(database: StorageView, id: u32)
    ensures
        database.delete_word(id).delete_word(id) == database.delete_word(id),
        database.delete_word(id).word_by_id(id) == Err::<WordView, StorageErrorView>(
            StorageErrorView::NotFound,
        ),
{
    let other = |word: WordView| word.id != Some(id);
    let left = database.words.filter(other);
    lemma_filter_keeps_all(left, other);
}

/// A page of a folder's words holds as many words as the limit allows and
/// as are left behind the offset.
pub proof fn theorem_page_count(
    database: StorageView,
    folder: Seq<char>,
    limit: u32,
    offset: u32,
    direction: Direction,
)
    ensures
        ({
            let all = database.words_in(folder).len();
            let left = if all > offset {
                all - offset
            } else {
                0
            };
            database.list_words(folder, Some(limit), Some(offset), direction).len() == if limit
                < left {
                limit as int
            } else {
                left
            }
        }),
{
}

/// An offset at or beyond the end of a folder's words gives an empty page.
pub proof fn theorem_page_beyond_end(
    database: StorageView,
    folder: Seq<char>,
    limit: Option<u32>,
    offset: u32,
    direction: Direction,
)
    requires
        offset >= database.words_in(folder).len(),
    ensures
        database.list_words(folder, limit, Some(offset), direction) == Seq::<WordView>::empty(),
{
}

/// Filtering words that ascend by identity leaves words that ascend by
/// identity.
pub proof fn lemma_filter_ascends(words: Seq<WordView>, pred: spec_fn(WordView) -> bool)
    requires
        ids_ascend(words),
    ensures
        ids_ascend(words.filter(pred)),
        forall|i: int|
            0 <= i < words.filter(pred).len() ==> words.contains(#[trigger] words.filter(pred)[i]),
    decreases words.len(),
{
    reveal(Seq::filter);
    if words.len() > 0 {
        let front = words.drop_last();
        lemma_filter_ascends(front, pred);
    }
}

/// The pages of a folder's words, taken one after the other in ascending
/// order up to the end, give every word of the folder once: together they
/// are the folder's words, and no two of those share an identity.  The
/// offset of the last page has to be one that a listing can be asked for.
pub proof fn theorem_pages_cover(
    database: StorageView,
    folder: Seq<char>,
    length: u32,
    pages: nat,
)
    requires
        database.wf(),
        pages > 0 ==> (pages - 1) * length <= u32::MAX,
        pages * length >= database.words_in(folder).len(),
    ensures
        leading_pages(database.words_in(folder), length, pages) == database.words_in(folder),
        ids_ascend(database.words_in(folder)),
{
    lemma_pages_cover(database.words_in(folder), length, pages);
    lemma_filter_ascends(database.words, |word: WordView| word.folder == folder);
}

/// Listing a folder's words downwards gives the upward listing backwards.
pub proof fn theorem_direction_symmetry(database: StorageView, folder: Seq<char>)
    ensures
        database.list_words(folder, None, None, Direction::Prev) == database.list_words(
            folder,
            None,
            None,
            Direction::Next,
        ).reverse(),
{
}

/// An envelope of another version than the current one is refused, and the
/// database stays as it was.
pub proof fn theorem_version_gate(database: StorageView, data: DataView)
    requires
        data.version != IMPORT_EXPORT_DATA_VERSION,
    ensures
        database.import(data) == (
            database,
            Some(StorageErrorView::ImportError(INVALID_VERSION_ERROR@)),
        ),
{
}

/// The words with the identities that an empty database gives them when
/// they are added in this order: one, two, three and so on.
pub open spec fn renumbered(words: Seq<WordView>) -> Seq<WordView> {
    Seq::new(words.len(), |i: int| words[i].with_id(Some((i + 1) as u32)))
}

/// Importing ascending folders into a database that holds the first of
/// them puts the rest behind.
proof fn lemma_import_sorted_folders(database: StorageView, folders: Seq<FolderView>, done: int)
    requires
        names_ascend(folders),
        folders.len() <= u32::MAX,
        0 <= done <= folders.len(),
        database.folders == folders.take(done),
    ensures
        database.import_folders(folders.skip(done)) == Ok::<StorageView, StorageErrorView>(
            StorageView { folders, ..database },
        ),
    decreases folders.len() - done,
{
    if done == folders.len() {
        assert(folders.take(done) =~= folders);
    } else {
        let rest = folders.skip(done);
        let folder = folders[done];
        let have = folders.take(done);
        lemma_slot(have, folder, done);
        let next = database.add_folder(folder)->Ok_0;
        assert(have.insert(done, folder) =~= folders.take(done + 1));
        assert(rest.drop_first() =~= folders.skip(done + 1));
        lemma_import_sorted_folders(next, folders, done + 1);
    }
}

/// Importing words into a database that holds the first of them,
/// renumbered, puts the rest behind, renumbered.
proof fn lemma_import_renumbers(database: StorageView, words: Seq<WordView>, done: int)
    requires
        words.len() <= u32::MAX,
        0 <= done <= words.len(),
        database.words == renumbered(words).take(done),
        database.next_key == done + 1,
    ensures
        database.import_words(words.skip(done)) == Ok::<StorageView, StorageErrorView>(
            StorageView { words: renumbered(words), next_key: words.len() as int + 1, ..database },
        ),
    decreases words.len() - done,
{
    if done == words.len() {
        assert(renumbered(words).take(done) =~= renumbered(words));
    } else {
        let rest = words.skip(done);
        let next = database.add_word(words[done])->Ok_0;
        assert(next.words =~= renumbered(words).take(done + 1));
        assert(rest.drop_first() =~= words.skip(done + 1));
        lemma_import_renumbers(next, words, done + 1);
    }
}

/// What was exported from one database and imported into an empty one is
/// there again: the same folders, and the same words in the same order,
/// each with all its fields but the identity, which is given anew.
pub proof fn theorem_round_trip(database: StorageView)
    requires
        database.wf(),
    ensures
        StorageView::empty().import(database.export()) == (
            StorageView {
                folders: database.folders,
                words: renumbered(database.words),
                next_key: database.words.len() as int + 1,
            },
            None::<StorageErrorView>,
        ),
{
    let empty = StorageView::empty();
    assert(empty.folders =~= database.folders.take(0));
    assert(database.folders.skip(0) =~= database.folders);
    lemma_import_sorted_folders(empty, database.folders, 0);
    let with_folders = StorageView { folders: database.folders, ..empty };
    assert(with_folders.words =~= renumbered(database.words).take(0));
    assert(database.words.skip(0) =~= database.words);
    lemma_import_renumbers(with_folders, database.words, 0);
}

} // verus!
