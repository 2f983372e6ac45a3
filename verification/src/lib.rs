//! A dictionary of saved words, organised into folders.
//!
//! The crate is the persistence layer of the dictionary: the records it
//! keeps, the two object stores that hold them, and the operations that add,
//! remove, list, export and import records.
//!
//! - [`model`] holds the records and the envelope of an export, [`schema`]
//!   the shape of the database, [`storage_error`] the one error type.
//! - [`folder_store`] and [`word_store`] are the object stores, ordered by
//!   key ([`key_order`]) and listed in pages ([`paging`]).
//! - [`protocol`] decides the steps of a write: the requests to the
//!   database, one after the other, and what to do with each reply.
//! - [`storage`] is the database in memory, an engine of its own.  It
//!   answers the requests of a write and so performs the operations.
//! - [`database`] is the database as a mathematical value.  The contracts
//!   of [`storage`] are stated over it, [`course`] shows that the steps of
//!   a write come to what the write means, and [`theorems`] states what
//!   holds of the database whatever is done with it.

pub mod clock;
pub mod course;
pub mod database;
pub mod folder_store;
pub mod key_order;
pub mod model;
pub mod paging;
pub mod protocol;
pub mod schema;
pub mod sequences;
pub mod storage;
pub mod storage_error;
pub mod theorems;
pub mod word_store;
