//! The object store of folders.
//!
//! A folder is kept under its name, and the store keeps its folders in the
//! order of their names.

use vstd::prelude::*;
use crate::key_order::{
    key_before, key_lt, lemma_key_lt_irreflexive, lemma_key_lt_total, lemma_key_lt_transitive,
};
use crate::model::{copy_folders, folder_views, Direction, Folder, FolderView};
use crate::paging::{cursor_at, directed, page, page_bounds};
use crate::sequences::lemma_filter_prefix;
use crate::storage_error::{StorageError, StorageErrorView, KEY_EXISTS, STORE_FULL};

verus! {

/// Whether each folder's name comes before the names of those behind it.
pub open spec fn names_ascend(folders: Seq<FolderView>) -> bool {
    forall|i: int, j: int|
        #![trigger folders[i], folders[j]]
        0 <= i < j < folders.len() ==> key_lt(folders[i].folder, folders[j].folder)
}

/// Whether one of the folders has the name `name`.
pub open spec fn has_name(folders: Seq<FolderView>, name: Seq<char>) -> bool {
    exists|i: int| 0 <= i < folders.len() && #[trigger] folders[i].folder == name
}

/// How many of the folders have a name that comes before `name`: the place
/// of a folder of that name among them.
pub open spec fn slot(folders: Seq<FolderView>, name: Seq<char>) -> int {
    folders.filter(|folder: FolderView| key_lt(folder.folder, name)).len() as int
}

/// Adding a folder to ascending folders: refused when its name is taken or
/// there are as many folders as can be counted, else the folder takes its
/// place among the others.
pub open spec fn with_folder(folders: Seq<FolderView>, folder: FolderView) -> Result<
    Seq<FolderView>,
    StorageErrorView,
> {
    if has_name(folders, folder.folder) {
        Err(StorageErrorView::RexieError(KEY_EXISTS@))
    } else if folders.len() >= u32::MAX {
        Err(StorageErrorView::RexieError(STORE_FULL@))
    } else {
        Ok(folders.insert(slot(folders, folder.folder), folder))
    }
}

/// In an ascending run the folders whose names come before the name of
/// `value` are the ones in front of the first whose name does not.  That
/// one has the name of `value`, if any has; if none has, `value` can be
/// put in front of it and the run still ascends.
pub proof fn lemma_slot(folders: Seq<FolderView>, value: FolderView, at: int)
    requires
        names_ascend(folders),
        0 <= at <= folders.len(),
        forall|i: int| 0 <= i < at ==> key_lt(#[trigger] folders[i].folder, value.folder),
        at < folders.len() ==> !key_lt(folders[at].folder, value.folder),
    ensures
        slot(folders, value.folder) == at,
        has_name(folders, value.folder) <==> at < folders.len() && folders[at].folder
            == value.folder,
        !has_name(folders, value.folder) ==> names_ascend(folders.insert(at, value)),
{
    let name = value.folder;
    let before = |folder: FolderView| key_lt(folder.folder, name);
    assert forall|j: int| at <= j < folders.len() implies !key_lt(
        #[trigger] folders[j].folder,
        name,
    ) by {
        if at < j && key_lt(folders[j].folder, name) {
            lemma_key_lt_transitive(folders[at].folder, folders[j].folder, name);
        }
    }
    lemma_filter_prefix(folders, before, at);
    lemma_key_lt_irreflexive(name);
    if at < folders.len() && folders[at].folder != name {
        lemma_key_lt_total(folders[at].folder, name);
    }
    assert forall|j: int| at <= j < folders.len() && (folders[at].folder != name) implies key_lt(
        name,
        #[trigger] folders[j].folder,
    ) by {
        if at < j {
            lemma_key_lt_transitive(name, folders[at].folder, folders[j].folder);
        }
    }
}

/// The object store of folders.
pub struct FolderStore {
    records: Vec<Folder>,
}

impl View for FolderStore {
    type V = Seq<FolderView>;

    closed spec fn view(&self) -> Seq<FolderView> {
        folder_views(self.records@)
    }
}

impl FolderStore {
    /// Whether the store is in order: its folders ascend by name, and there
    /// are no more of them than can be counted.
    pub open spec fn wf(&self) -> bool {
        &&& names_ascend(self@)
        &&& self@.len() <= u32::MAX
    }

    /// A store without folders.
    pub fn new() -> (store: FolderStore)
        ensures
            store.wf(),
            store@ == Seq::<FolderView>::empty(),
    {
        FolderStore { records: Vec::new() }
    }

    /// Adds a folder under its name.  A folder whose name is taken is
    /// refused, and so is any folder once the store is full; the store is
    /// then left as it was.
    pub fn add(&mut self, value: &Folder) -> (result: Result<(), StorageError>)
        requires
            old(self).wf(),
        ensures
            final(self).wf(),
            match result {
                Ok(()) => with_folder(old(self)@, value@) == Ok::<Seq<FolderView>, StorageErrorView>(
                    final(self)@,
                ),
                Err(error) => {
                    &&& with_folder(old(self)@, value@) == Err::<Seq<FolderView>, StorageErrorView>(
                        error@,
                    )
                    &&& final(self)@ == old(self)@
                },
            },
    {
        let len = self.records.len();
        let mut at: usize = 0;
        while at < len && key_before(self.records[at].folder.as_str(), value.folder.as_str())
            invariant
                len == self.records.len(),
                at <= len,
                forall|i: int|
                    0 <= i < at ==> key_lt(
                        #[trigger] folder_views(self.records@)[i].folder,
                        value@.folder,
                    ),
            decreases len - at,
        {
            at += 1;
        }
        proof {
            lemma_slot(self@, value@, at as int);
        }
        if at < len && self.records[at].folder == value.folder {
            return Err(StorageError::engine(KEY_EXISTS));
        }
        if len >= 0xFFFF_FFFF {
            return Err(StorageError::engine(STORE_FULL));
        }
        let copy = value.clone();
        proof {
            let placed = self.records@.insert(at as int, copy);
            assert(folder_views(placed) =~= self@.insert(at as int, value@));
        }
        self.records.insert(at, copy);
        Ok(())
    }

    /// Lists the folders in the order of their names, forwards or backwards:
    /// `offset` folders are skipped, and at most `limit` are handed out.
    pub fn get_all(&self, limit: Option<u32>, offset: Option<u32>, direction: Direction) -> (out:
        Vec<Folder>)
        ensures
            folder_views(out@) == page(self@, limit, offset, direction),
    {
        let len = self.records.len();
        let (start, end) = page_bounds(len, limit, offset);
        let mut out: Vec<Folder> = Vec::new();
        let mut step = start;
        while step < end
            invariant
                len == self.records.len(),
                start <= step <= end <= len,
                folder_views(out@) == directed(self@, direction).subrange(
                    start as int,
                    step as int,
                ),
            decreases end - step,
        {
            let at = cursor_at(len, direction, step);
            let copy = self.records[at].clone();
            proof {
                assert(folder_views(out@.push(copy)) =~= folder_views(out@).push(copy@));
            }
            out.push(copy);
            step += 1;
        }
        out
    }

    /// Counts the folders.
    pub fn count(&self) -> (count: u32)
        requires
            self.wf(),
        ensures
            count == self@.len(),
    {
        self.records.len() as u32
    }

    /// A copy of the store: what a transaction works on until it commits.
    pub fn duplicate(&self) -> (copy: FolderStore)
        ensures
            copy@ == self@,
    {
        FolderStore { records: copy_folders(&self.records) }
    }
}

} // verus!
