//! The store of one replica: the relation of known authors and the relation
//! of accepted entries, with the two uniqueness rules that make registering an
//! author and appending an entry idempotent.

use vstd::prelude::*;
use crate::models::authors::Author;
use crate::models::keys::Key;
use crate::models::messages::{Message, MessageView};
use crate::query::showable;

verus! {

/// Why the store did not answer.
#[derive(Debug)]
pub enum StoreError {
    /// No row answers the question.
    NotFound,
    /// Every internal identity has been handed out.
    Exhausted,
    /// The storage backend failed; its own words.
    Backend(String),
}

/// The place of an entry: the author's internal identity, the feed, and the
/// sequence number.
pub struct EntryKey {
    pub author_id: i32,
    pub feed_id: u64,
    pub seq: u64,
}

/// The key under which a row is stored.
pub open spec fn key_of(row: MessageView) -> EntryKey {
    EntryKey { author_id: row.author_id, feed_id: row.feed_id, seq: row.seq }
}

/// The rows of one feed of one author.
pub open spec fn in_feed(author_id: i32, feed_id: u64) -> spec_fn(MessageView) -> bool {
    |row: MessageView| row.author_id == author_id && row.feed_id == feed_id
}

/// The mathematical value of a store: the identity strings of the authors in
/// the order of their internal identities, which count from 1, the strings of
/// the second registry likewise, and the rows of accepted entries in the order
/// in which they were stored.
pub struct StoreView {
    pub authors: Seq<Seq<char>>,
    pub keys: Seq<Seq<char>>,
    pub messages: Seq<MessageView>,
}

/// The internal identity that a registry gives to `text`, if it knows it.
pub open spec fn registered(registry: Seq<Seq<char>>, text: Seq<char>) -> Option<i32> {
    if registry.contains(text) {
        Some((registry.index_of(text) + 1) as i32)
    } else {
        None
    }
}

/// A registry after `text` was looked up or, if unknown, added; with the
/// identity of `text`, or the refusal of a full registry.
pub open spec fn enrolled(registry: Seq<Seq<char>>, text: Seq<char>) -> (
    Seq<Seq<char>>,
    Result<i32, StoreError>,
) {
    if registry.contains(text) {
        (registry, Ok((registry.index_of(text) + 1) as i32))
    } else if registry.len() >= i32::MAX {
        (registry, Err(StoreError::Exhausted))
    } else {
        (registry.push(text), Ok((registry.len() + 1) as i32))
    }
}

/// A registry names nothing twice and has an identity for each of its names.
pub open spec fn registry_wf(registry: Seq<Seq<char>>) -> bool {
    registry.no_duplicates() && registry.len() <= i32::MAX
}

impl StoreView {
    /// The store with nothing in it.
    pub open spec fn empty() -> StoreView {
        StoreView { authors: Seq::empty(), keys: Seq::empty(), messages: Seq::empty() }
    }

    /// No identity string is registered twice, no key holds two rows.
    pub open spec fn wf(self) -> bool {
        &&& registry_wf(self.authors)
        &&& registry_wf(self.keys)
        &&& forall|i: int, j: int|
            0 <= i < j < self.messages.len() ==> key_of(#[trigger] self.messages[i]) != key_of(
                #[trigger] self.messages[j],
            )
    }

    /// The internal identity of the author known by `identity`, if any.
    pub open spec fn author_id(self, identity: Seq<char>) -> Option<i32> {
        registered(self.authors, identity)
    }

    /// Whether a row is stored under `key`.
    pub open spec fn holds(self, key: EntryKey) -> bool {
        exists|i: int| 0 <= i < self.messages.len() && key_of(#[trigger] self.messages[i]) == key
    }

    /// The row stored under `key`, if any.
    pub open spec fn row(self, key: EntryKey) -> Option<MessageView> {
        if self.holds(key) {
            Some(
                self.messages[choose|i: int|
                    0 <= i < self.messages.len() && key_of(#[trigger] self.messages[i]) == key],
            )
        } else {
            None
        }
    }

    /// The rows of one feed, in the order in which they were stored.
    pub open spec fn feed(self, author_id: i32, feed_id: u64) -> Seq<MessageView> {
        self.messages.filter(in_feed(author_id, feed_id))
    }

    /// The feeds in which the author known by `identity` has an entry.
    pub open spec fn feed_ids(self, identity: Seq<char>) -> Set<u64> {
        Set::new(
            |feed_id: u64|
                exists|i: int|
                    0 <= i < self.messages.len() && (#[trigger] self.messages[i]).feed_id == feed_id
                        && self.author_id(identity) == Some(self.messages[i].author_id),
        )
    }

    /// The store after `identity` was looked up or, if unknown, registered as
    /// an author.
    pub open spec fn upserted_author(self, identity: Seq<char>) -> (
        StoreView,
        Result<i32, StoreError>,
    ) {
        let (authors, id) = enrolled(self.authors, identity);
        (StoreView { authors, ..self }, id)
    }

    /// The store after `text` was looked up or, if unknown, added to the
    /// second registry.
    pub open spec fn upserted_key(self, text: Seq<char>) -> (StoreView, Result<i32, StoreError>) {
        let (keys, id) = enrolled(self.keys, text);
        (StoreView { keys, ..self }, id)
    }

    /// The store after `row` was appended: unchanged where its key is taken,
    /// whatever the bytes stored there.
    pub open spec fn appended(self, row: MessageView) -> StoreView {
        if self.holds(key_of(row)) {
            self
        } else {
            StoreView { messages: self.messages.push(row), ..self }
        }
    }
}

/// Every stored entry has a number of at least 1, and each one after the
/// first has the entry before it stored too.
pub open spec fn gap_free(store: StoreView) -> bool {
    forall|author_id: i32, feed_id: u64, seq: u64| #[trigger]
        store.holds(EntryKey { author_id, feed_id, seq }) ==> seq >= 1 && (seq > 1 ==> store.holds(
            EntryKey { author_id, feed_id, seq: (seq - 1) as u64 },
        ))
}

/// One replica's storage. It starts empty and changes only by `upsert_author`,
/// `upsert_key` and `insert_message`.
pub struct Store {
    pub(crate) authors: Vec<Author>,
    pub(crate) keys: Vec<Key>,
    pub(crate) messages: Vec<Message>,
}

impl View for Store {
    type V = StoreView;

    open(crate) spec fn view(&self) -> StoreView {
        StoreView {
            authors: Seq::new(self.authors@.len(), |i: int| self.authors@[i].author@),
            keys: Seq::new(self.keys@.len(), |i: int| self.keys@[i].key@),
            messages: Seq::new(self.messages@.len(), |i: int| self.messages@[i]@),
        }
    }
}

impl Store {
    /// The uniqueness rules hold, and internal identities count from 1 in the
    /// order of registration.
    pub open(crate) spec fn wf(&self) -> bool {
        &&& self@.wf()
        &&& forall|i: int| 0 <= i < self.authors@.len() ==> (#[trigger] self.authors@[i]).id == i + 1
        &&& forall|i: int| 0 <= i < self.keys@.len() ==> (#[trigger] self.keys@[i]).id == i + 1
    }

    /// A store with no author and no entry.
    pub fn new() -> (store: Store)
        ensures
            store.wf(),
            store@ == StoreView::empty(),
            gap_free(store@),
            showable(store@),
    {
        let store = Store { authors: Vec::new(), keys: Vec::new(), messages: Vec::new() };
        assert(store@.authors =~= Seq::empty());
        assert(store@.keys =~= Seq::empty());
        assert(store@.messages =~= Seq::empty());
        store
    }
}

/// Under a store's uniqueness rule, the row found at any position is the row
/// that the store holds under that position's key.
pub proof fn lemma_row_at(store: StoreView, i: int)
    requires
        store.wf(),
        0 <= i < store.messages.len(),
    ensures
        store.holds(key_of(store.messages[i])),
        store.row(key_of(store.messages[i])) == Some(store.messages[i]),
{
    let key = key_of(store.messages[i]);
    assert(store.holds(key));
    let j = choose|j: int| 0 <= j < store.messages.len() && key_of(#[trigger] store.messages[j]) == key;
    assert(i == j) by {
        if i < j {
            assert(key_of(store.messages[i]) != key_of(store.messages[j]));
        }
        if j < i {
            assert(key_of(store.messages[j]) != key_of(store.messages[i]));
        }
    }
}

} // verus!
