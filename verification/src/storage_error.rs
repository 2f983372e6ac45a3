//! The one error type of the storage layer.

use vstd::prelude::*;
use vstd::string::StringExecFns;

verus! {

/// The mathematical value of a [`StorageError`].
pub enum StorageErrorView {
    RexieError(Seq<char>),
    SerdeWasmBindgenError(Seq<char>),
    SerdeError(Seq<char>),
    ImportError(Seq<char>),
    NotFound,
}

/// What can go wrong in the storage layer.  Each kind but the last carries a
/// message for the reader.
#[derive(Debug, PartialEq)]
pub enum StorageError {
    /// The database engine failed or refused an operation: a transaction
    /// could not be opened, a key is taken, the store is full.
    RexieError(String),
    /// A record could not be turned into a value of the engine, or back.
    SerdeWasmBindgenError(String),
    /// The text of an export could not be written or read as JSON.
    SerdeError(String),
    /// An import was refused, as for a version that is not the current one.
    ImportError(String),
    /// No record has the identity asked for.
    NotFound,
}

/// The message of the database in memory when a record is added under a
/// key that is taken.  The text is this library's own; the browser's engine
/// words the same refusal in its own way.
pub const KEY_EXISTS: &'static str =
    "ConstraintError: a record with this key is already in the object store";

/// The message of the database in memory when the key generator has no key
/// left to give.  The text is this library's own.
pub const KEYS_EXHAUSTED: &'static str =
    "ConstraintError: the key generator has issued its last key";

/// The message of the database in memory when a store holds as many
/// records as it can count.  The text is this library's own.
pub const STORE_FULL: &'static str =
    "QuotaExceededError: the object store cannot hold another record";

/// The message of the database in memory when a transaction names a store
/// that does not exist.  The text is this library's own.
pub const STORE_NOT_FOUND: &'static str = "NotFoundError: no object store has this name";

/// The message when a request needs a transaction and none is open.  The
/// text is this library's own.
pub const NO_TRANSACTION: &'static str = "TransactionInactiveError: no transaction is open";

/// The message of a write whose word was added without a key being told.
pub const NO_KEY: &'static str = "the store has issued no key for the word";

/// The message of an import that carries another version than the current.
pub const INVALID_VERSION_ERROR: &'static str = "Invalid version";

impl View for StorageError {
    type V = StorageErrorView;

    open spec fn view(&self) -> StorageErrorView {
        match self {
            StorageError::RexieError(text) => StorageErrorView::RexieError(text@),
            StorageError::SerdeWasmBindgenError(text) => StorageErrorView::SerdeWasmBindgenError(
                text@,
            ),
            StorageError::SerdeError(text) => StorageErrorView::SerdeError(text@),
            StorageError::ImportError(text) => StorageErrorView::ImportError(text@),
            StorageError::NotFound => StorageErrorView::NotFound,
        }
    }
}

impl StorageErrorView {
    /// The text that describes the error to a reader.
    pub open spec fn message(self) -> Seq<char> {
        match self {
            StorageErrorView::RexieError(text) => "rexie::Error "@ + text,
            StorageErrorView::SerdeWasmBindgenError(text) => "serde_wasm_bindgen::Error "@ + text,
            StorageErrorView::SerdeError(text) => "serde_json::Error "@ + text,
            StorageErrorView::ImportError(text) => "ImportError "@ + text,
            StorageErrorView::NotFound => "NotFound"@,
        }
    }
}

impl Clone for StorageError {
    fn clone(&self) -> (copy: StorageError)
        ensures
            copy@ == self@,
    {
        match self {
            StorageError::RexieError(text) => StorageError::RexieError(text.clone()),
            StorageError::SerdeWasmBindgenError(text) => StorageError::SerdeWasmBindgenError(
                text.clone(),
            ),
            StorageError::SerdeError(text) => StorageError::SerdeError(text.clone()),
            StorageError::ImportError(text) => StorageError::ImportError(text.clone()),
            StorageError::NotFound => StorageError::NotFound,
        }
    }
}

/// The error type of `serde_json`, which the verifier takes as it is, without
/// looking inside.
#[verifier::external_type_specification]
#[verifier::external_body]
pub struct ExSerdeJsonError(serde_json::Error);

/// The text that `serde_json` writes for one of its errors: what went
/// wrong, and for an error met in a text the line and the column where.
pub uninterp spec fn json_error_message(error: serde_json::Error) -> Seq<char>;

/// The text of an error of the JSON codec.
///
/// Calls `to_string` on a `serde_json::Error`, which writes the error as
/// its `Display` does.  The claim is that the text is the one that belongs
/// to this error: `Display` reads nothing but the error itself.
#[verifier::external_body]
fn json_error_text(error: &serde_json::Error) -> (text: String)
    ensures
        text@ == json_error_message(*error),
{
    error.to_string()
}

impl From<serde_json::Error> for StorageError {
    /// An error of the JSON codec becomes a codec error that carries the
    /// codec's text.
    fn from(value: serde_json::Error) -> (error: StorageError)
        ensures
            error@ == StorageErrorView::SerdeError(json_error_message(value)),
    {
        StorageError::SerdeError(json_error_text(&value))
    }
}

impl vstd::std_specs::convert::FromSpecImpl<serde_json::Error> for StorageError {
    /// No value of the error type can be written down in a contract, only
    /// its view, so the conversion is stated by the `ensures` of `from`
    /// and not by a value here.
    open spec fn obeys_from_spec() -> bool {
        false
    }

    open spec fn from_spec(value: serde_json::Error) -> StorageError {
        arbitrary()
    }
}

impl StorageError {
    /// An engine error with the given message.
    pub fn engine(text: &str) -> (error: StorageError)
        ensures
            error@ == StorageErrorView::RexieError(text@),
    {
        StorageError::RexieError(String::from_str(text))
    }

    /// An error of the conversion between records and the values of the
    /// engine, with the given message.
    pub fn conversion(text: &str) -> (error: StorageError)
        ensures
            error@ == StorageErrorView::SerdeWasmBindgenError(text@),
    {
        StorageError::SerdeWasmBindgenError(String::from_str(text))
    }

    /// The text that describes the error to a reader: the kind, then the
    /// message it carries.
    pub fn message(&self) -> (text: String)
        ensures
            text@ == self@.message(),
    {
        match self {
            StorageError::RexieError(text) => String::from_str("rexie::Error ").concat(
                text.as_str(),
            ),
            StorageError::SerdeWasmBindgenError(text) => String::from_str(
                "serde_wasm_bindgen::Error ",
            ).concat(text.as_str()),
            StorageError::SerdeError(text) => String::from_str("serde_json::Error ").concat(
                text.as_str(),
            ),
            StorageError::ImportError(text) => String::from_str("ImportError ").concat(
                text.as_str(),
            ),
            StorageError::NotFound => String::from_str("NotFound"),
        }
    }
}

} // verus!
