//! The steps of a write.
//!
//! A write is done in one transaction on one object store.  The transaction
//! is opened; the records are written one after the other; the transaction
//! is committed.  When a step fails, nothing more is written and the
//! transaction is aborted, so that a write is done as a whole or not at
//! all.  A word is written in two steps: it is added, the store issuing its
//! key, and then put back under that key with the key as its identity.
//!
//! This module decides the steps and performs none: whoever holds the
//! database performs each request and hands back the reply.

use vstd::prelude::*;
use vstd::string::StringExecFns;
use crate::model::{
    copy_folders, copy_words, folder_views, word_views, Data, Folder, FolderView, Word, WordView,
};
use crate::schema::{IMPORT_EXPORT_DATA_VERSION, OBJ_STORE_FOLDERS, OBJ_STORE_WORDS};
use crate::storage_error::{StorageError, StorageErrorView, INVALID_VERSION_ERROR, NO_KEY};

verus! {

/// The mathematical value of a [`Script`].
pub enum ScriptView {
    AddFolders(Seq<FolderView>),
    AddWords(Seq<WordView>),
    Delete { store: Seq<char>, id: u32 },
}

/// What a write is to do.
pub enum Script {
    /// Add these folders, in this order.
    AddFolders(Vec<Folder>),
    /// Add these words, in this order.
    AddWords(Vec<Word>),
    /// Delete from the named store the record that is kept under a number.
    Delete { store: String, id: u32 },
}

/// The mathematical value of a [`Request`].
pub enum RequestView {
    Begin(Seq<char>),
    AddFolder(FolderView),
    AddWord(WordView),
    PutWord(WordView, u32),
    Delete(u32),
    Commit,
    Abort,
}

/// What the database is asked to do next.
pub enum Request {
    /// Open a transaction on the store of this name.
    Begin(String),
    /// Add the folder under its name.
    AddFolder(Folder),
    /// Add the word under a key that the store issues, and tell the key.
    AddWord(Word),
    /// Put the word under the key, in place of what is there.
    PutWord(Word, u32),
    /// Delete what is kept under the number.
    Delete(u32),
    /// Commit the transaction.
    Commit,
    /// Abort the transaction.
    Abort,
}

/// The mathematical value of a [`Reply`].
pub enum ReplyView {
    Done,
    Key(u32),
    Failed(StorageErrorView),
}

/// What the database answers to a request.
pub enum Reply {
    /// The request was carried out.
    Done,
    /// The request was carried out, and this is the key that was issued.
    Key(u32),
    /// The request failed.
    Failed(StorageError),
}

/// Where a write stands.
#[derive(Clone, Copy, PartialEq, Eq, Structural, Debug)]
pub enum Phase {
    /// The transaction is being opened.
    Opening,
    /// The record at the write's position is being written.
    Writing,
    /// The word at the write's position has been given this key and is
    /// being put back under it.
    WritingBack(u32),
    /// Everything is written, and the transaction is being committed.
    Committing,
    /// A step has failed, and the transaction is being aborted.
    Aborting,
    /// The write is over.
    Finished,
}

/// The mathematical value of a [`Run`].
pub struct RunView {
    pub script: ScriptView,
    pub position: int,
    pub phase: Phase,
    pub issued: Seq<u32>,
    pub failure: Option<StorageErrorView>,
}

/// A write on its way: what it is to do, how far it has come, the keys
/// that were issued to its words, and the error if a step has failed.
pub struct Run {
    script: Script,
    position: usize,
    phase: Phase,
    issued: Vec<u32>,
    failure: Option<StorageError>,
}

impl View for Script {
    type V = ScriptView;

    open spec fn view(&self) -> ScriptView {
        match self {
            Script::AddFolders(folders) => ScriptView::AddFolders(folder_views(folders@)),
            Script::AddWords(words) => ScriptView::AddWords(word_views(words@)),
            Script::Delete { store, id } => ScriptView::Delete { store: store@, id: *id },
        }
    }
}

impl View for Request {
    type V = RequestView;

    open spec fn view(&self) -> RequestView {
        match self {
            Request::Begin(store) => RequestView::Begin(store@),
            Request::AddFolder(folder) => RequestView::AddFolder(folder@),
            Request::AddWord(word) => RequestView::AddWord(word@),
            Request::PutWord(word, key) => RequestView::PutWord(word@, *key),
            Request::Delete(id) => RequestView::Delete(*id),
            Request::Commit => RequestView::Commit,
            Request::Abort => RequestView::Abort,
        }
    }
}

impl View for Reply {
    type V = ReplyView;

    open spec fn view(&self) -> ReplyView {
        match self {
            Reply::Done => ReplyView::Done,
            Reply::Key(key) => ReplyView::Key(*key),
            Reply::Failed(error) => ReplyView::Failed(error@),
        }
    }
}

/// The value of a request that may be there or not.
pub open spec fn request_view(request: Option<Request>) -> Option<RequestView> {
    match request {
        Some(request) => Some(request@),
        None => None,
    }
}

/// The value of an error that may be there or not.
pub open spec fn failure_view(failure: Option<StorageError>) -> Option<StorageErrorView> {
    match failure {
        Some(error) => Some(error@),
        None => None,
    }
}

impl ScriptView {
    /// The store that the write's transaction is on.
    pub open spec fn store(self) -> Seq<char> {
        match self {
            ScriptView::AddFolders(_) => OBJ_STORE_FOLDERS@,
            ScriptView::AddWords(_) => OBJ_STORE_WORDS@,
            ScriptView::Delete { store, .. } => store,
        }
    }

    /// How many records the write is about.
    pub open spec fn len(self) -> int {
        match self {
            ScriptView::AddFolders(folders) => folders.len() as int,
            ScriptView::AddWords(words) => words.len() as int,
            ScriptView::Delete { .. } => 1,
        }
    }

    /// The request that starts on the record at `position`.
    pub open spec fn request(self, position: int) -> RequestView {
        match self {
            ScriptView::AddFolders(folders) => RequestView::AddFolder(folders[position]),
            ScriptView::AddWords(words) => RequestView::AddWord(words[position]),
            ScriptView::Delete { id, .. } => RequestView::Delete(id),
        }
    }
}

impl RunView {
    /// A write at its start, and the request that opens its transaction.
    pub open spec fn start(script: ScriptView) -> (RunView, RequestView) {
        (
            RunView {
                script,
                position: 0,
                phase: Phase::Opening,
                issued: Seq::empty(),
                failure: None,
            },
            RequestView::Begin(script.store()),
        )
    }

    /// Whether the write is in a state that a run can be in.
    pub open spec fn wf(self) -> bool {
        &&& 0 <= self.position <= self.script.len()
        &&& (self.phase is Writing || self.phase is WritingBack) ==> self.position
            < self.script.len()
        &&& self.phase is WritingBack ==> self.script is AddWords
        &&& self.phase is Aborting ==> self.failure is Some
        &&& !(self.phase is Aborting || self.phase is Finished) ==> self.failure is None
    }

    /// The write turns to the record at `position`, or to committing when
    /// there is none.
    pub open spec fn turn_to(self, position: int) -> (RunView, Option<RequestView>) {
        if position < self.script.len() {
            (
                RunView { position, phase: Phase::Writing, ..self },
                Some(self.script.request(position)),
            )
        } else {
            (RunView { position, phase: Phase::Committing, ..self }, Some(RequestView::Commit))
        }
    }

    /// The write gives up: the error is kept, and the transaction is to be
    /// aborted.
    pub open spec fn give_up(self, error: StorageErrorView) -> (RunView, Option<RequestView>) {
        (
            RunView { phase: Phase::Aborting, failure: Some(error), ..self },
            Some(RequestView::Abort),
        )
    }

    /// The write ends, with the error if there is one.
    pub open spec fn end(self, failure: Option<StorageErrorView>) -> (RunView, Option<RequestView>) {
        (RunView { phase: Phase::Finished, failure, ..self }, None)
    }

    /// What the write does when the reply to its last request comes in:
    /// the state it goes to, and the next request, if there is one.
    pub open spec fn resume(self, reply: ReplyView) -> (RunView, Option<RequestView>) {
        match self.phase {
            Phase::Opening => match reply {
                ReplyView::Failed(error) => self.end(Some(error)),
                _ => self.turn_to(0),
            },
            Phase::Writing => match reply {
                ReplyView::Failed(error) => self.give_up(error),
                ReplyView::Key(key) => match self.script {
                    ScriptView::AddWords(words) => (
                        RunView { phase: Phase::WritingBack(key), ..self },
                        Some(
                            RequestView::PutWord(words[self.position].with_id(Some(key)), key),
                        ),
                    ),
                    _ => self.turn_to(self.position + 1),
                },
                ReplyView::Done => match self.script {
                    ScriptView::AddWords(_) => self.give_up(
                        StorageErrorView::SerdeWasmBindgenError(NO_KEY@),
                    ),
                    _ => self.turn_to(self.position + 1),
                },
            },
            Phase::WritingBack(key) => match reply {
                ReplyView::Failed(error) => self.give_up(error),
                _ => (RunView { issued: self.issued.push(key), ..self }).turn_to(
                    self.position + 1,
                ),
            },
            Phase::Committing => match reply {
                ReplyView::Failed(error) => self.end(Some(error)),
                _ => self.end(None),
            },
            Phase::Aborting => self.end(self.failure),
            Phase::Finished => (self, None),
        }
    }

    /// A bound on the replies that the write still needs before it is
    /// over.
    pub open spec fn steps_left(self) -> int {
        match self.phase {
            Phase::Opening => 2 * self.script.len() + 4,
            Phase::Writing => 2 * (self.script.len() - self.position) + 2,
            Phase::WritingBack(_) => 2 * (self.script.len() - self.position) + 1,
            Phase::Committing => 1,
            Phase::Aborting => 1,
            Phase::Finished => 0,
        }
    }

    /// What the write has come to: the keys issued to its words, or the
    /// error that stopped it.
    pub open spec fn outcome(self) -> Result<Seq<u32>, StorageErrorView> {
        match self.failure {
            Some(error) => Err(error),
            None => Ok(self.issued),
        }
    }
}

/// Every reply brings a write nearer to its end, whatever the reply is: a
/// write of `n` records is over after `2 n + 4` replies at the most.  And a
/// write asks for nothing more exactly when it is over.
pub proof fn theorem_write_ends(run: RunView, reply: ReplyView)
    requires
        run.wf(),
        !(run.phase is Finished),
    ensures
        run.resume(reply).0.wf(),
        run.resume(reply).0.script == run.script,
        0 <= run.resume(reply).0.steps_left() < run.steps_left(),
        run.resume(reply).1 is None <==> run.resume(reply).0.phase is Finished,
{
}

/// A write that is over without an error has committed its transaction as
/// the last thing it did, and one that has opened its transaction and then
/// met an error has aborted it: the last request of a write is `Commit` or
/// `Abort`, unless the transaction could not be opened.
pub proof fn theorem_transaction_is_closed(run: RunView, reply: ReplyView)
    requires
        run.wf(),
        !(run.phase is Finished),
        run.resume(reply).1 is None,
    ensures
        run.phase is Committing || run.phase is Aborting || (run.phase is Opening
            && reply is Failed),
        run.phase is Committing && !(reply is Failed) <==> run.resume(reply).0.outcome() is Ok,
{
}

impl View for Run {
    type V = RunView;

    closed spec fn view(&self) -> RunView {
        RunView {
            script: self.script@,
            position: self.position as int,
            phase: self.phase,
            issued: self.issued@,
            failure: failure_view(self.failure),
        }
    }
}

impl Script {
    /// The name of the store that the write's transaction is on.
    fn store(&self) -> (name: String)
        ensures
            name@ == self@.store(),
    {
        match self {
            Script::AddFolders(_) => String::from_str(OBJ_STORE_FOLDERS),
            Script::AddWords(_) => String::from_str(OBJ_STORE_WORDS),
            Script::Delete { store, .. } => store.clone(),
        }
    }

    /// How many records the write is about.
    fn len(&self) -> (len: usize)
        ensures
            len == self@.len(),
    {
        match self {
            Script::AddFolders(folders) => folders.len(),
            Script::AddWords(words) => words.len(),
            Script::Delete { .. } => 1,
        }
    }

    /// The request that starts on the record at `position`.
    fn request(&self, position: usize) -> (request: Request)
        requires
            position < self@.len(),
        ensures
            request@ == self@.request(position as int),
    {
        match self {
            Script::AddFolders(folders) => Request::AddFolder(folders[position].clone()),
            Script::AddWords(words) => Request::AddWord(words[position].clone()),
            Script::Delete { id, .. } => Request::Delete(*id),
        }
    }
}

/// What a write that added one word comes to: the identity that was given
/// to the word, the first that the write issued.  A write that issued none
/// does not know its word's identity, which is an error of the conversion
/// between records and the values of the engine.
pub fn issued_identity(issued: &Vec<u32>) -> (result: Result<u32, StorageError>)
    ensures
        match result {
            Ok(id) => issued@.len() > 0 && id == issued@[0],
            Err(error) => {
                &&& issued@.len() == 0
                &&& error@ == StorageErrorView::SerdeWasmBindgenError(NO_KEY@)
            },
        },
{
    if issued.len() > 0 {
        Ok(issued[0])
    } else {
        Err(StorageError::conversion(NO_KEY))
    }
}

/// The writes that import an envelope, in their order: first the folders,
/// then the words.  There are none for an envelope of another version than
/// the current one.
pub fn import_scripts(data: &Data) -> (result: Result<(Script, Script), StorageError>)
    ensures
        match result {
            Ok(scripts) => {
                &&& data@.version == IMPORT_EXPORT_DATA_VERSION
                &&& scripts.0@ == ScriptView::AddFolders(data@.folders)
                &&& scripts.1@ == ScriptView::AddWords(data@.words)
            },
            Err(error) => {
                &&& data@.version != IMPORT_EXPORT_DATA_VERSION
                &&& error@ == StorageErrorView::ImportError(INVALID_VERSION_ERROR@)
            },
        },
{
    match data.check_version() {
        Ok(()) => Ok(
            (
                Script::AddFolders(copy_folders(&data.folders)),
                Script::AddWords(copy_words(&data.words)),
            ),
        ),
        Err(error) => Err(error),
    }
}

impl Run {
    /// Whether the write is in a state that a run can be in.
    pub open spec fn wf(&self) -> bool {
        self@.wf()
    }

    /// Starts a write: the run, and the request that opens its transaction.
    pub fn start(script: Script) -> (started: (Run, Request))
        ensures
            started.0.wf(),
            (started.0@, started.1@) == RunView::start(script@),
    {
        let request = Request::Begin(script.store());
        let run = Run {
            script,
            position: 0,
            phase: Phase::Opening,
            issued: Vec::new(),
            failure: None,
        };
        (run, request)
    }

    /// The position behind the record that the write is at.
    fn behind(&self) -> (position: usize)
        requires
            self@.position < self@.script.len(),
        ensures
            position == self@.position + 1,
    {
        if self.position < self.script.len() {
            self.position + 1
        } else {
            self.position
        }
    }

    /// The write turns to the record at `position`, or to committing when
    /// there is none.
    fn turn_to(&mut self, position: usize) -> (next: Option<Request>)
        requires
            position <= old(self)@.script.len(),
            old(self)@.failure is None,
        ensures
            final(self).wf(),
            (final(self)@, request_view(next)) == old(self)@.turn_to(position as int),
    {
        self.position = position;
        if position < self.script.len() {
            self.phase = Phase::Writing;
            Some(self.script.request(position))
        } else {
            self.phase = Phase::Committing;
            Some(Request::Commit)
        }
    }

    /// The write gives up: the error is kept, and the transaction is to be
    /// aborted.
    fn give_up(&mut self, error: StorageError) -> (next: Option<Request>)
        requires
            old(self).wf(),
        ensures
            final(self).wf(),
            (final(self)@, request_view(next)) == old(self)@.give_up(error@),
    {
        self.phase = Phase::Aborting;
        self.failure = Some(error);
        Some(Request::Abort)
    }

    /// Takes the reply to the last request, and gives the next request, or
    /// none when the write is over.
    pub fn resume(&mut self, reply: Reply) -> (next: Option<Request>)
        requires
            old(self).wf(),
        ensures
            final(self).wf(),
            (final(self)@, request_view(next)) == old(self)@.resume(reply@),
    {
        match self.phase {
            Phase::Opening => match reply {
                Reply::Failed(error) => {
                    self.phase = Phase::Finished;
                    self.failure = Some(error);
                    None
                },
                _ => self.turn_to(0),
            },
            Phase::Writing => match reply {
                Reply::Failed(error) => self.give_up(error),
                Reply::Key(key) => match &self.script {
                    Script::AddWords(words) => {
                        let word = words[self.position].set_id(Some(key));
                        self.phase = Phase::WritingBack(key);
                        Some(Request::PutWord(word, key))
                    },
                    _ => self.turn_to(self.behind()),
                },
                Reply::Done => match &self.script {
                    Script::AddWords(_) => self.give_up(
                        StorageError::conversion(NO_KEY),
                    ),
                    _ => self.turn_to(self.behind()),
                },
            },
            Phase::WritingBack(key) => match reply {
                Reply::Failed(error) => self.give_up(error),
                _ => {
                    self.issued.push(key);
                    self.turn_to(self.behind())
                },
            },
            Phase::Committing => {
                self.phase = Phase::Finished;
                match reply {
                    Reply::Failed(error) => {
                        self.failure = Some(error);
                    },
                    _ => {
                        self.failure = None;
                    },
                }
                None
            },
            Phase::Aborting => {
                self.phase = Phase::Finished;
                None
            },
            Phase::Finished => None,
        }
    }

    /// Whether the write is over.
    pub fn is_finished(&self) -> (finished: bool)
        ensures
            finished == (self@.phase is Finished),
    {
        match self.phase {
            Phase::Finished => true,
            _ => false,
        }
    }

    /// What the write has come to: the keys issued to its words, or the
    /// error that stopped it.
    pub fn outcome(self) -> (result: Result<Vec<u32>, StorageError>)
        ensures
            match result {
                Ok(issued) => self@.outcome() == Ok::<Seq<u32>, StorageErrorView>(issued@),
                Err(error) => self@.outcome() == Err::<Seq<u32>, StorageErrorView>(error@),
            },
    {
        match self.failure {
            Some(error) => Err(error),
            None => Ok(self.issued),
        }
    }
}

} // verus!
