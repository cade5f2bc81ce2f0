//! The relation of accepted entries. A row is kept under the author's
//! internal identity, the feed and the sequence number; it is written once and
//! never changed or removed.

use vstd::prelude::*;
use crate::store::{in_feed, key_of, lemma_row_at, EntryKey, Store, StoreError};

verus! {

/// A stored entry: its place, the hexadecimal text of the encoded entry, and
/// that of the payload where one was stored with it.
#[derive(Debug)]
pub struct Message {
    pub seq: u64,
    pub author_id: i32,
    pub feed_id: u64,
    pub entry: String,
    pub payload: Option<String>,
}

/// An entry about to be stored.
#[derive(Debug)]
pub struct NewMessage<'a> {
    pub seq: u64,
    pub author_id: i32,
    pub feed_id: u64,
    pub entry: &'a str,
    pub payload: &'a str,
}

/// The mathematical value of a row.
pub struct MessageView {
    pub seq: u64,
    pub author_id: i32,
    pub feed_id: u64,
    pub entry: Seq<char>,
    pub payload: Option<Seq<char>>,
}

impl View for Message {
    type V = MessageView;

    open spec fn view(&self) -> MessageView {
        MessageView {
            seq: self.seq,
            author_id: self.author_id,
            feed_id: self.feed_id,
            entry: self.entry@,
            payload: match self.payload {
                Some(text) => Some(text@),
                None => None,
            },
        }
    }
}

impl<'a> View for NewMessage<'a> {
    type V = MessageView;

    open spec fn view(&self) -> MessageView {
        MessageView {
            seq: self.seq,
            author_id: self.author_id,
            feed_id: self.feed_id,
            entry: self.entry@,
            payload: Some(self.payload@),
        }
    }
}

impl Message {
    /// A copy of the row.
    pub fn duplicate(&self) -> (r: Message)
        ensures
            r@ == self@,
    {
        Message {
            seq: self.seq,
            author_id: self.author_id,
            feed_id: self.feed_id,
            entry: self.entry.clone(),
            payload: match &self.payload {
                Some(text) => Some(text.clone()),
                None => None,
            },
        }
    }
}

/// The mathematical values of a list of rows.
pub open spec fn rows_of(rows: Seq<Message>) -> Seq<MessageView> {
    rows.map_values(|row: Message| row@)
}

/// The mathematical value of a row that may be absent.
pub open spec fn row_of(row: Option<Message>) -> Option<MessageView> {
    match row {
        Some(m) => Some(m@),
        None => None,
    }
}

/// The position of the row stored under the given key, if there is one.
fn position(store: &Store, author: i32, sequence: u64, feed: u64) -> (r: Option<usize>)
    requires
        store.wf(),
    ensures
        match r {
            Some(i) => i < store.messages@.len() && key_of(store@.messages[i as int]) == (EntryKey {
                author_id: author,
                feed_id: feed,
                seq: sequence,
            }),
            None => !store@.holds(EntryKey { author_id: author, feed_id: feed, seq: sequence }),
        },
{
    let ghost key = EntryKey { author_id: author, feed_id: feed, seq: sequence };
    let mut i: usize = 0;
    while i < store.messages.len()
        invariant
            i <= store.messages@.len(),
            key == (EntryKey { author_id: author, feed_id: feed, seq: sequence }),
            forall|j: int| 0 <= j < i ==> key_of(#[trigger] store@.messages[j]) != key,
        decreases store.messages@.len() - i,
    {
        let row = &store.messages[i];
        if row.seq == sequence && row.author_id == author && row.feed_id == feed {
            return Some(i);
        }
        i += 1;
    }
    None
}

/// Appends an entry. Where a row is already stored under the entry's key, the
/// store is left as it is, whatever that row holds, and the call succeeds all
/// the same. Returns the number of rows written, 0 or 1.
pub fn insert_message(store: &mut Store, new_message: &NewMessage) -> (r: Result<usize, StoreError>)
    requires
        old(store).wf(),
    ensures
        final(store).wf(),
        final(store)@ == old(store)@.appended(new_message@),
        r == Ok::<usize, StoreError>(
            if old(store)@.holds(key_of(new_message@)) {
                0usize
            } else {
                1usize
            },
        ),
{
    match position(store, new_message.author_id, new_message.seq, new_message.feed_id) {
        Some(_) => Ok(0),
        None => {
            let row = Message {
                seq: new_message.seq,
                author_id: new_message.author_id,
                feed_id: new_message.feed_id,
                entry: new_message.entry.to_owned(),
                payload: Some(new_message.payload.to_owned()),
            };
            store.messages.push(row);
            assert(store@.messages =~= old(store)@.messages.push(new_message@));
            assert(store@.authors =~= old(store)@.authors);
            assert(store@.keys =~= old(store)@.keys);
            Ok(1)
        },
    }
}

/// All the entries of one feed of one author, in the order in which they were
/// stored.
pub fn get_messages(store: &Store, author: i32, feed: u64) -> (r: Result<Vec<Message>, StoreError>)
    requires
        store.wf(),
    ensures
        r matches Ok(rows) && rows_of(rows@) == store@.feed(author, feed),
{
    let mut rows: Vec<Message> = Vec::new();
    let mut i: usize = 0;
    assert(store@.messages.take(0) =~= Seq::empty());
    while i < store.messages.len()
        invariant
            i <= store.messages@.len(),
            rows_of(rows@) == store@.messages.take(i as int).filter(in_feed(author, feed)),
        decreases store.messages@.len() - i,
    {
        let row = &store.messages[i];
        proof {
            store@.messages.lemma_take_succ_push(i as int);
            store@.messages.take(i as int).lemma_filter_push(
                store@.messages[i as int],
                in_feed(author, feed),
            );
        }
        if row.author_id == author && row.feed_id == feed {
            let copy = row.duplicate();
            let ghost before = rows@;
            rows.push(copy);
            assert(rows_of(rows@) =~= rows_of(before).push(store@.messages[i as int]));
        }
        i += 1;
    }
    assert(store@.messages.take(i as int) =~= store@.messages);
    Ok(rows)
}

/// The entry stored at the given place, if there is one. That there is none
/// is an answer, not a failure.
pub fn get_message(store: &Store, author: i32, sequence: u64, feed: u64) -> (r: Result<
    Option<Message>,
    StoreError,
>)
    requires
        store.wf(),
    ensures
        r matches Ok(found) && row_of(found) == store@.row(
            EntryKey { author_id: author, feed_id: feed, seq: sequence },
        ),
{
    match position(store, author, sequence, feed) {
        Some(i) => {
            proof {
                lemma_row_at(store@, i as int);
            }
            Ok(Some(store.messages[i].duplicate()))
        },
        None => Ok(None),
    }
}

} // verus!
