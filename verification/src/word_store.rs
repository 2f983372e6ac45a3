//! The object store of words.
//!
//! A word is kept under a number.  The store's key generator issues the
//! number when the word is added, and the store keeps its words in the order
//! of their numbers.  An index on the folder's name finds the words of one
//! folder, again in the order of their numbers.

use vstd::prelude::*;
use crate::model::{word_views, Direction, Word, WordView};
use crate::paging::{cursor_at, directed, page, page_bounds};
use crate::sequences::{lemma_filter_drops_one, lemma_filter_keeps_all, lemma_filter_prefix};
use crate::storage_error::{StorageError, StorageErrorView, KEYS_EXHAUSTED, STORE_FULL};

verus! {

/// A word as the store holds it: the value, and the key it is kept under.
pub struct EntryView {
    pub key: u32,
    pub value: WordView,
}

/// The values of a run of entries, without their keys.
pub open spec fn entry_values(entries: Seq<EntryView>) -> Seq<WordView> {
    entries.map_values(|entry: EntryView| entry.value)
}

/// Whether each entry's key is smaller than the keys of those behind it.
pub open spec fn keys_ascend(entries: Seq<EntryView>) -> bool {
    forall|i: int, j: int|
        #![trigger entries[i], entries[j]]
        0 <= i < j < entries.len() ==> entries[i].key < entries[j].key
}

/// Whether one of the entries has the key `key`.
pub open spec fn has_key(entries: Seq<EntryView>, key: u32) -> bool {
    exists|i: int| 0 <= i < entries.len() && #[trigger] entries[i].key == key
}

/// How many of the entries have a key below `key`: the place of an entry of
/// that key among them.
pub open spec fn key_slot(entries: Seq<EntryView>, key: u32) -> int {
    entries.filter(|entry: EntryView| entry.key < key).len() as int
}

/// Whether each entry's word carries the entry's key as its identity.
pub open spec fn settled(entries: Seq<EntryView>) -> bool {
    forall|i: int|
        0 <= i < entries.len() ==> (#[trigger] entries[i]).value.id == Some(entries[i].key)
}

/// The words that are filed in the folder `folder`, in the order given.
pub open spec fn filed_in(words: Seq<WordView>, folder: Seq<char>) -> Seq<WordView> {
    words.filter(|word: WordView| word.folder == folder)
}

/// The words at the given places, in the order of the places.
pub open spec fn picked(words: Seq<WordView>, places: Seq<usize>) -> Seq<WordView> {
    places.map_values(|at: usize| words[at as int])
}

/// The mathematical value of a [`WordStore`].
pub struct WordStoreView {
    /// The entries, in the order of their keys.
    pub entries: Seq<EntryView>,
    /// The key that the generator issues next.
    pub next_key: int,
}

impl WordStoreView {
    /// Whether the store is in order: the keys ascend, each has been passed
    /// by the key generator, and there are no more entries than can be
    /// counted.
    pub open spec fn wf(self) -> bool {
        &&& keys_ascend(self.entries)
        &&& forall|i: int| 0 <= i < self.entries.len() ==> (#[trigger] self.entries[i]).key
            < self.next_key
        &&& 1 <= self.next_key <= u32::MAX + 1
        &&& self.entries.len() <= u32::MAX
    }

    /// A store without words, whose generator starts at one.
    pub open spec fn empty() -> WordStoreView {
        WordStoreView { entries: Seq::empty(), next_key: 1 }
    }

    /// The words of the store, in the order of their keys.
    pub open spec fn values(self) -> Seq<WordView> {
        entry_values(self.entries)
    }

    /// Whether the store can take a word that brings no key: the generator
    /// has a key left, and the store has room.
    pub open spec fn can_add(self) -> bool {
        self.next_key <= u32::MAX && self.entries.len() < u32::MAX
    }

    /// The error that a word without a key is refused with.
    pub open spec fn add_error(self) -> StorageErrorView {
        if self.next_key > u32::MAX {
            StorageErrorView::RexieError(KEYS_EXHAUSTED@)
        } else {
            StorageErrorView::RexieError(STORE_FULL@)
        }
    }

    /// The store after `value` was added under the generator's next key.
    pub open spec fn add(self, value: WordView) -> WordStoreView {
        WordStoreView {
            entries: self.entries.push(EntryView { key: self.next_key as u32, value }),
            next_key: self.next_key + 1,
        }
    }

    /// Whether the store can take `value` under `key`: the key is in use, or
    /// the store has room.
    pub open spec fn can_put(self, key: u32) -> bool {
        has_key(self.entries, key) || self.entries.len() < u32::MAX
    }

    /// The store after `value` was put under `key`: in place of the entry
    /// that had the key, or else at the key's place among the others, the
    /// generator then moving past the key.
    pub open spec fn put(self, key: u32, value: WordView) -> WordStoreView {
        let at = key_slot(self.entries, key);
        let entry = EntryView { key, value };
        if has_key(self.entries, key) {
            WordStoreView { entries: self.entries.update(at, entry), next_key: self.next_key }
        } else {
            WordStoreView {
                entries: self.entries.insert(at, entry),
                next_key: if key >= self.next_key {
                    key + 1
                } else {
                    self.next_key
                },
            }
        }
    }

    /// The store without the entry under `key`.
    pub open spec fn delete(self, key: u32) -> WordStoreView {
        WordStoreView {
            entries: self.entries.filter(|entry: EntryView| entry.key != key),
            next_key: self.next_key,
        }
    }

    /// The word under `key`, if there is one.
    pub open spec fn get(self, key: u32) -> Option<WordView> {
        if has_key(self.entries, key) {
            Some(self.entries[key_slot(self.entries, key)].value)
        } else {
            None
        }
    }
}

/// In an ascending run the entries whose keys are below `key` are the ones
/// in front of the first whose key is not.  That one has the key, if any
/// has.
pub proof fn lemma_key_slot(entries: Seq<EntryView>, key: u32, at: int)
    requires
        keys_ascend(entries),
        0 <= at <= entries.len(),
        forall|i: int| 0 <= i < at ==> (#[trigger] entries[i]).key < key,
        at < entries.len() ==> entries[at].key >= key,
    ensures
        key_slot(entries, key) == at,
        has_key(entries, key) <==> at < entries.len() && entries[at].key == key,
{
    let below = |entry: EntryView| entry.key < key;
    lemma_filter_prefix(entries, below, at);
}

/// Deleting a key removes the entry that has it, and nothing when none has.
pub proof fn lemma_delete(entries: Seq<EntryView>, key: u32)
    requires
        keys_ascend(entries),
    ensures
        ({
            let at = key_slot(entries, key);
            let rest = entries.filter(|entry: EntryView| entry.key != key);
            &&& 0 <= at <= entries.len()
            &&& has_key(entries, key) ==> at < entries.len() && entries[at].key == key && rest
                == entries.remove(at)
            &&& !has_key(entries, key) ==> rest == entries
        }),
{
    let below = |entry: EntryView| entry.key < key;
    let other = |entry: EntryView| entry.key != key;
    if has_key(entries, key) {
        let i = choose|i: int| 0 <= i < entries.len() && #[trigger] entries[i].key == key;
        lemma_filter_prefix(entries, below, i);
        lemma_filter_drops_one(entries, other, i);
    } else {
        lemma_filter_keeps_all(entries, other);
    }
}

struct WordEntry {
    key: u32,
    value: Word,
}

/// The object store of words.
pub struct WordStore {
    entries: Vec<WordEntry>,
    next_key: u64,
}

spec fn entry_views(entries: Seq<WordEntry>) -> Seq<EntryView> {
    entries.map_values(|entry: WordEntry| EntryView { key: entry.key, value: entry.value@ })
}

impl View for WordStore {
    type V = WordStoreView;

    closed spec fn view(&self) -> WordStoreView {
        WordStoreView { entries: entry_views(self.entries@), next_key: self.next_key as int }
    }
}

impl WordStore {
    /// Whether the store is in order.
    pub open spec fn wf(&self) -> bool {
        self@.wf()
    }

    /// A store without words.
    pub fn new() -> (store: WordStore)
        ensures
            store.wf(),
            store@ == WordStoreView::empty(),
    {
        let store = WordStore { entries: Vec::new(), next_key: 1 };
        assert(store@.entries =~= Seq::<EntryView>::empty());
        store
    }

    /// Finds the place of `key`: the first entry whose key is not below it.
    fn place(&self, key: u32) -> (at: usize)
        requires
            self.wf(),
        ensures
            at == key_slot(self@.entries, key),
            at <= self.entries@.len(),
            has_key(self@.entries, key) <==> at < self.entries@.len() && self.entries@[at as int].key
                == key,
            forall|i: int| 0 <= i < at ==> (#[trigger] self@.entries[i]).key < key,
            forall|i: int| at <= i < self.entries@.len() ==> (#[trigger] self@.entries[i]).key >= key,
    {
        let mut low: usize = 0;
        let mut high: usize = self.entries.len();
        while low < high
            invariant
                self.wf(),
                low <= high <= self.entries@.len(),
                forall|i: int| 0 <= i < low ==> (#[trigger] self@.entries[i]).key < key,
                forall|i: int|
                    high <= i < self.entries@.len() ==> (#[trigger] self@.entries[i]).key >= key,
            decreases high - low,
        {
            let middle = low + (high - low) / 2;
            if self.entries[middle].key < key {
                assert forall|i: int| 0 <= i < middle + 1 implies (#[trigger] self@.entries[i]).key
                    < key by {
                    if i < middle {
                        assert(self@.entries[i].key < self@.entries[middle as int].key);
                    }
                }
                low = middle + 1;
            } else {
                high = middle;
            }
        }
        proof {
            lemma_key_slot(self@.entries, key, low as int);
        }
        low
    }

    /// Adds a word under the key that the generator issues, and returns the
    /// key.  The word is refused once the generator has no key left or the
    /// store is full; the store is then left as it was.
    pub fn add(&mut self, value: &Word) -> (result: Result<u32, StorageError>)
        requires
            old(self).wf(),
        ensures
            final(self).wf(),
            match result {
                Ok(key) => {
                    &&& old(self)@.can_add()
                    &&& key == old(self)@.next_key
                    &&& final(self)@ == old(self)@.add(value@)
                },
                Err(error) => {
                    &&& !old(self)@.can_add()
                    &&& final(self)@ == old(self)@
                    &&& error@ == old(self)@.add_error()
                },
            },
    {
        if self.next_key > 0xFFFF_FFFF {
            return Err(StorageError::engine(KEYS_EXHAUSTED));
        }
        if self.entries.len() >= 0xFFFF_FFFF {
            return Err(StorageError::engine(STORE_FULL));
        }
        let key = self.next_key as u32;
        let entry = WordEntry { key, value: value.clone() };
        proof {
            assert(entry_views(self.entries@.push(entry)) =~= self@.entries.push(
                EntryView { key, value: value@ },
            ));
        }
        self.entries.push(entry);
        self.next_key = self.next_key + 1;
        Ok(key)
    }

    /// Puts a word under `key`, in place of the word that was there if there
    /// was one.  A word under a new key is refused once the store is full;
    /// the store is then left as it was.
    pub fn put(&mut self, value: &Word, key: u32) -> (result: Result<(), StorageError>)
        requires
            old(self).wf(),
        ensures
            final(self).wf(),
            match result {
                Ok(()) => {
                    &&& old(self)@.can_put(key)
                    &&& final(self)@ == old(self)@.put(key, value@)
                },
                Err(error) => {
                    &&& !old(self)@.can_put(key)
                    &&& final(self)@ == old(self)@
                    &&& error@ == StorageErrorView::RexieError(STORE_FULL@)
                },
            },
    {
        let at = self.place(key);
        let present = at < self.entries.len() && self.entries[at].key == key;
        if !present && self.entries.len() >= 0xFFFF_FFFF {
            return Err(StorageError::engine(STORE_FULL));
        }
        let entry = WordEntry { key, value: value.clone() };
        if present {
            proof {
                let before = self@.entries;
                let after = before.update(at as int, EntryView { key, value: value@ });
                assert(entry_views(self.entries@.update(at as int, entry)) =~= after);
            }
            self.entries.set(at, entry);
        } else {
            proof {
                let before = self@.entries;
                let after = before.insert(at as int, EntryView { key, value: value@ });
                assert(entry_views(self.entries@.insert(at as int, entry)) =~= after);
            }
            self.entries.insert(at, entry);
            if key as u64 >= self.next_key {
                self.next_key = key as u64 + 1;
            }
        }
        Ok(())
    }

    /// Deletes the word under `key`.  Nothing changes when there is none.
    pub fn delete(&mut self, key: u32)
        requires
            old(self).wf(),
        ensures
            final(self).wf(),
            final(self)@ == old(self)@.delete(key),
    {
        let at = self.place(key);
        proof {
            lemma_delete(self@.entries, key);
        }
        if at < self.entries.len() && self.entries[at].key == key {
            proof {
                assert(entry_views(self.entries@.remove(at as int)) =~= self@.entries.remove(
                    at as int,
                ));
            }
            let _ = self.entries.remove(at);
        }
    }

    /// Gets the word under `key`, if there is one.
    pub fn get(&self, key: u32) -> (found: Option<Word>)
        requires
            self.wf(),
        ensures
            match found {
                Some(word) => self@.get(key) == Some(word@),
                None => self@.get(key).is_none(),
            },
    {
        let at = self.place(key);
        if at < self.entries.len() && self.entries[at].key == key {
            Some(self.entries[at].value.clone())
        } else {
            None
        }
    }

    /// Lists the words in the order of their keys, forwards or backwards:
    /// `offset` words are skipped, and at most `limit` are handed out.
    pub fn get_all(&self, limit: Option<u32>, offset: Option<u32>, direction: Direction) -> (out:
        Vec<Word>)
        ensures
            word_views(out@) == page(self@.values(), limit, offset, direction),
    {
        let ghost values = self@.values();
        let len = self.entries.len();
        let (start, end) = page_bounds(len, limit, offset);
        let mut out: Vec<Word> = Vec::new();
        let mut step = start;
        while step < end
            invariant
                values == self@.values(),
                len == self.entries.len(),
                start <= step <= end <= len,
                word_views(out@) == directed(values, direction).subrange(start as int, step as int),
            decreases end - step,
        {
            let at = cursor_at(len, direction, step);
            let copy = self.entries[at].value.clone();
            proof {
                assert(word_views(out@.push(copy)) =~= word_views(out@).push(copy@));
            }
            out.push(copy);
            step += 1;
        }
        out
    }

    /// Looks the folder up in the index: the places of the words that are
    /// filed in it, in the order of their keys.
    fn places_in_folder(&self, folder: &String) -> (places: Vec<usize>)
        ensures
            forall|k: int| 0 <= k < places@.len() ==> (#[trigger] places@[k]) < self.entries@.len(),
            picked(self@.values(), places@) == filed_in(self@.values(), folder@),
    {
        let ghost values = self@.values();
        let ghost wanted = |word: WordView| word.folder == folder@;
        let mut places: Vec<usize> = Vec::new();
        let mut at: usize = 0;
        while at < self.entries.len()
            invariant
                values == self@.values(),
                wanted == |word: WordView| word.folder == folder@,
                at <= self.entries@.len(),
                forall|k: int| 0 <= k < places@.len() ==> (#[trigger] places@[k]) < at,
                picked(values, places@) == values.take(at as int).filter(wanted),
            decreases self.entries@.len() - at,
        {
            proof {
                values.take(at as int).lemma_filter_push(values[at as int], wanted);
                assert(values.take(at as int).push(values[at as int]) =~= values.take(at + 1));
            }
            if self.entries[at].value.folder == *folder {
                places.push(at);
            }
            at += 1;
        }
        proof {
            assert(values.take(at as int) =~= values);
        }
        places
    }

    /// Lists the words that are filed in `folder`, in the order of their
    /// keys, forwards or backwards: `offset` words are skipped, and at most
    /// `limit` are handed out.
    pub fn get_all_in_folder(
        &self,
        folder: &String,
        limit: Option<u32>,
        offset: Option<u32>,
        direction: Direction,
    ) -> (out: Vec<Word>)
        ensures
            word_views(out@) == page(
                filed_in(self@.values(), folder@),
                limit,
                offset,
                direction,
            ),
    {
        let ghost values = self@.values();
        let ghost filed = filed_in(values, folder@);
        let places = self.places_in_folder(folder);
        let len = places.len();
        let (start, end) = page_bounds(len, limit, offset);
        let mut out: Vec<Word> = Vec::new();
        let mut step = start;
        while step < end
            invariant
                values == self@.values(),
                filed == picked(values, places@),
                forall|k: int|
                    0 <= k < places@.len() ==> (#[trigger] places@[k]) < self.entries@.len(),
                len == places@.len(),
                start <= step <= end <= len,
                word_views(out@) == directed(filed, direction).subrange(start as int, step as int),
            decreases end - step,
        {
            let at = places[cursor_at(len, direction, step)];
            let copy = self.entries[at].value.clone();
            proof {
                assert(word_views(out@.push(copy)) =~= word_views(out@).push(copy@));
            }
            out.push(copy);
            step += 1;
        }
        out
    }

    /// Counts the words.
    pub fn count(&self) -> (count: u32)
        requires
            self.wf(),
        ensures
            count == self@.entries.len(),
    {
        self.entries.len() as u32
    }

    /// Counts the words that are filed in `folder`.
    pub fn count_in_folder(&self, folder: &String) -> (count: u32)
        requires
            self.wf(),
        ensures
            count == filed_in(self@.values(), folder@).len(),
    {
        let places = self.places_in_folder(folder);
        places.len() as u32
    }

    /// A copy of the store: what a transaction works on until it commits.
    pub fn duplicate(&self) -> (copy: WordStore)
        ensures
            copy@ == self@,
    {
        let mut entries: Vec<WordEntry> = Vec::new();
        let mut at: usize = 0;
        while at < self.entries.len()
            invariant
                at <= self.entries@.len(),
                entry_views(entries@) == self@.entries.take(at as int),
            decreases self.entries@.len() - at,
        {
            let entry = WordEntry { key: self.entries[at].key, value: self.entries[at].value.clone() };
            assert(entry_views(entries@.push(entry)) =~= entry_views(entries@).push(
                self@.entries[at as int],
            ));
            entries.push(entry);
            at += 1;
        }
        assert(self@.entries.take(at as int) =~= self@.entries);
        WordStore { entries, next_key: self.next_key }
    }
}

} // verus!
