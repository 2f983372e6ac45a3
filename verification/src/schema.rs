//! The shape of the database: its name and version, its object stores and
//! their index, and the version of the export format.

use vstd::prelude::*;
use crate::model::{Folder, Word};

verus! {

/// The name under which the engine keeps the database.
pub const DATABASE_NAME: &'static str = "dictionary";

/// The version of the database's shape.
pub const DATABASE_VERSION: u32 = 1;

/// The name of the object store of folders.
pub const OBJ_STORE_FOLDERS: &'static str = "folders";

/// The name of the object store of words.
pub const OBJ_STORE_WORDS: &'static str = "words";

/// The field of a folder that is its key, and the field of a word that the
/// index of the same name is built on.
pub const INDEX_FOLDER: &'static str = "folder";

/// The version of the export format that this library writes and accepts.
pub const IMPORT_EXPORT_DATA_VERSION: u32 = 1;

/// An index of an object store: its name, and the field of the records
/// that it is built on.
pub struct IndexSchema {
    pub name: &'static str,
    pub key_path: &'static str,
}

/// An object store as the engine is to create it: its name, the field of
/// the records that is their key, if they carry their key, whether the
/// store issues the keys itself, and its indexes.
pub struct ObjectStoreSchema {
    pub name: &'static str,
    pub key_path: Option<&'static str>,
    pub auto_increment: bool,
    pub indexes: Vec<IndexSchema>,
}

/// The object stores of the database.  Folders are kept under their names.
/// Words are kept under keys that their store issues, and are indexed by
/// the name of their folder.
pub fn object_stores() -> (stores: Vec<ObjectStoreSchema>)
    ensures
        stores@.len() == 2,
        stores@[0].name@ == OBJ_STORE_FOLDERS@,
        stores@[0].key_path matches Some(field) && field@ == INDEX_FOLDER@,
        !stores@[0].auto_increment,
        stores@[0].indexes@.len() == 0,
        stores@[1].name@ == OBJ_STORE_WORDS@,
        stores@[1].key_path is None,
        stores@[1].auto_increment,
        stores@[1].indexes@.len() == 1,
        stores@[1].indexes@[0].name@ == INDEX_FOLDER@,
        stores@[1].indexes@[0].key_path@ == INDEX_FOLDER@,
{
    let mut index: Vec<IndexSchema> = Vec::new();
    index.push(IndexSchema { name: INDEX_FOLDER, key_path: INDEX_FOLDER });
    let mut stores: Vec<ObjectStoreSchema> = Vec::new();
    stores.push(
        ObjectStoreSchema {
            name: OBJ_STORE_FOLDERS,
            key_path: Some(INDEX_FOLDER),
            auto_increment: false,
            indexes: Vec::new(),
        },
    );
    stores.push(
        ObjectStoreSchema {
            name: OBJ_STORE_WORDS,
            key_path: None,
            auto_increment: true,
            indexes: index,
        },
    );
    stores
}

/// The two store names are different texts.
pub proof fn lemma_store_names_differ()
    ensures
        OBJ_STORE_FOLDERS@ != OBJ_STORE_WORDS@,
{
    reveal_strlit("folders");
    reveal_strlit("words");
    assert(OBJ_STORE_FOLDERS@.len() == 7);
}

/// A kind of record that has an object store of its own.
pub trait ObjStoreName {
    /// The name of the store that keeps records of this kind.
    spec fn store_name() -> Seq<char>;

    /// The name of the store that keeps records of this kind.
    fn obj_store_name() -> (name: &'static str)
        ensures
            name@ == Self::store_name(),
    ;
}

impl ObjStoreName for Folder {
    open spec fn store_name() -> Seq<char> {
        OBJ_STORE_FOLDERS@
    }

    fn obj_store_name() -> (name: &'static str) {
        OBJ_STORE_FOLDERS
    }
}

impl ObjStoreName for Word {
    open spec fn store_name() -> Seq<char> {
        OBJ_STORE_WORDS@
    }

    fn obj_store_name() -> (name: &'static str) {
        OBJ_STORE_WORDS
    }
}

} // verus!
