//! The read side: known authors, an author's feeds, a feed's entries and a
//! single entry, each stored entry shown with its decoded form beside the
//! texts that were stored.

use vstd::prelude::*;
use crate::codec::{decode_entry, decoding_of, entry_decoding, DecodedEntry, EntryHeader};
use crate::hexcode::{decode_hex, hex_decoded, HexError};
use crate::models::authors::{get_author, get_author_feed_ids, get_authors, texts_of};
use crate::models::messages::{get_message, get_messages, rows_of, Message, MessageView};
use crate::store::{EntryKey, Store, StoreError, StoreView};

verus! {

/// Why a question was not answered.
#[derive(Debug)]
pub enum QueryError {
    /// The authors could not be listed.
    Authors(StoreError),
    /// The author's feeds could not be listed.
    Feeds(StoreError),
    /// The author is unknown, or could not be looked up.
    Author(StoreError),
    /// The entries of the feed could not be fetched.
    Entries(StoreError),
    /// The entry could not be fetched.
    Entry(StoreError),
    /// No entry is stored at that place.
    NoEntry,
    /// A stored entry is not hexadecimal text.
    StoredHex(HexError),
    /// A stored entry does not decode; the codec's account.
    StoredDecode(String),
}

/// The mathematical value of a `QueryError`.
pub enum QueryFailure {
    Authors(StoreError),
    Feeds(StoreError),
    Author(StoreError),
    Entries(StoreError),
    Entry(StoreError),
    NoEntry,
    StoredHex(HexError),
    StoredDecode(Seq<char>),
}

impl View for QueryError {
    type V = QueryFailure;

    open spec fn view(&self) -> QueryFailure {
        match *self {
            QueryError::Authors(e) => QueryFailure::Authors(e),
            QueryError::Feeds(e) => QueryFailure::Feeds(e),
            QueryError::Author(e) => QueryFailure::Author(e),
            QueryError::Entries(e) => QueryFailure::Entries(e),
            QueryError::Entry(e) => QueryFailure::Entry(e),
            QueryError::NoEntry => QueryFailure::NoEntry,
            QueryError::StoredHex(e) => QueryFailure::StoredHex(e),
            QueryError::StoredDecode(reason) => QueryFailure::StoredDecode(reason@),
        }
    }
}

/// A stored entry as it is shown: decoded, and as the two texts that were
/// stored.
#[derive(Debug)]
pub struct Presented {
    pub decoded: DecodedEntry,
    pub encoded: String,
    pub payload: Option<String>,
}

/// The mathematical value of a `Presented`.
pub struct PresentedView {
    pub decoded: EntryHeader,
    pub encoded: Seq<char>,
    pub payload: Option<Seq<char>>,
}

impl View for Presented {
    type V = PresentedView;

    open spec fn view(&self) -> PresentedView {
        PresentedView {
            decoded: self.decoded@,
            encoded: self.encoded@,
            payload: match self.payload {
                Some(text) => Some(text@),
                None => None,
            },
        }
    }
}

/// What showing one entry returned, as a mathematical value.
pub open spec fn showing_of(r: Result<Presented, QueryError>) -> Result<PresentedView, QueryFailure> {
    match r {
        Ok(shown) => Ok(shown@),
        Err(e) => Err(e@),
    }
}

/// The mathematical values of a list of shown entries.
pub open spec fn shown_of(shown: Seq<Presented>) -> Seq<PresentedView> {
    shown.map_values(|one: Presented| one@)
}

/// What showing a list of entries returned, as a mathematical value.
pub open spec fn listing_of(r: Result<Vec<Presented>, QueryError>) -> Result<
    Seq<PresentedView>,
    QueryFailure,
> {
    match r {
        Ok(shown) => Ok(shown_of(shown@)),
        Err(e) => Err(e@),
    }
}

/// A row as it is shown, given what the codec made of the bytes of its
/// entry.
pub open spec fn presented_from(row: MessageView, decoded: Result<EntryHeader, Seq<char>>) -> Result<
    PresentedView,
    QueryFailure,
> {
    match decoded {
        Err(reason) => Err(QueryFailure::StoredDecode(reason)),
        Ok(decoded) => Ok(PresentedView { decoded, encoded: row.entry, payload: row.payload }),
    }
}

/// A row as it is shown: the stored entry text must be hexadecimal and its
/// bytes must decode.
pub open spec fn presented(row: MessageView) -> Result<PresentedView, QueryFailure> {
    match hex_decoded(row.entry) {
        Err(e) => Err(QueryFailure::StoredHex(e)),
        Ok(bytes) => presented_from(row, entry_decoding(bytes)),
    }
}

/// Rows as they are shown, in their order; or what is wrong with the first
/// row that cannot be shown.
pub open spec fn presented_all(rows: Seq<MessageView>) -> Result<Seq<PresentedView>, QueryFailure>
    decreases rows.len(),
{
    if rows.len() == 0 {
        Ok(Seq::empty())
    } else {
        match presented_all(rows.drop_last()) {
            Err(e) => Err(e),
            Ok(shown) => match presented(rows.last()) {
                Err(e) => Err(e),
                Ok(one) => Ok(shown.push(one)),
            },
        }
    }
}

/// Every stored row can be shown: its entry text is hexadecimal and its
/// bytes decode.
pub open spec fn showable(store: StoreView) -> bool {
    forall|i: int| 0 <= i < store.messages.len() ==> presented(#[trigger] store.messages[i]) is Ok
}

/// The entries of one feed of the author known by `identity`, as shown.
pub open spec fn feed_shown(store: StoreView, identity: Seq<char>, feed_id: u64) -> Result<
    Seq<PresentedView>,
    QueryFailure,
> {
    match store.author_id(identity) {
        None => Err(QueryFailure::Author(StoreError::NotFound)),
        Some(author_id) => presented_all(store.feed(author_id, feed_id)),
    }
}

/// The entry at one place in a feed of the author known by `identity`, as
/// shown.
pub open spec fn entry_shown(store: StoreView, identity: Seq<char>, feed_id: u64, seq: u64) -> Result<
    PresentedView,
    QueryFailure,
> {
    match store.author_id(identity) {
        None => Err(QueryFailure::Author(StoreError::NotFound)),
        Some(author_id) => match store.row(EntryKey { author_id, feed_id, seq }) {
            None => Err(QueryFailure::NoEntry),
            Some(row) => presented(row),
        },
    }
}

/// Shows a stored entry, given what the codec made of the bytes of its
/// entry.
pub fn present_decoded(row: &Message, decoded: Result<DecodedEntry, String>) -> (r: Result<
    Presented,
    QueryError,
>)
    ensures
        showing_of(r) == presented_from(row@, decoding_of(decoded)),
{
    match decoded {
        Err(reason) => Err(QueryError::StoredDecode(reason)),
        Ok(decoded) => Ok(
            Presented {
                decoded,
                encoded: row.entry.clone(),
                payload: match &row.payload {
                    Some(text) => Some(text.clone()),
                    None => None,
                },
            },
        ),
    }
}

/// Shows a stored entry.
pub fn present(row: &Message) -> (r: Result<Presented, QueryError>)
    ensures
        showing_of(r) == presented(row@),
{
    match decode_hex(row.entry.as_str()) {
        Err(e) => Err(QueryError::StoredHex(e)),
        Ok(bytes) => present_decoded(row, decode_entry(bytes.as_slice())),
    }
}

/// Shows stored entries, in their order.
pub fn present_all(rows: &Vec<Message>) -> (r: Result<Vec<Presented>, QueryError>)
    ensures
        listing_of(r) == presented_all(rows_of(rows@)),
{
    let ghost all = rows_of(rows@);
    let mut shown: Vec<Presented> = Vec::new();
    let mut i: usize = 0;
    assert(all.take(0) =~= Seq::empty());
    assert(shown_of(shown@) =~= Seq::empty());
    while i < rows.len()
        invariant
            i <= rows@.len(),
            all == rows_of(rows@),
            presented_all(all.take(i as int)) == Ok::<Seq<PresentedView>, QueryFailure>(
                shown_of(shown@),
            ),
        decreases rows@.len() - i,
    {
        proof {
            assert(all.take(i + 1).drop_last() =~= all.take(i as int));
            assert(all.take(i + 1).last() == rows@[i as int]@);
        }
        match present(&rows[i]) {
            Err(e) => {
                proof {
                    lemma_first_failure(all, i + 1);
                }
                return Err(e);
            },
            Ok(one) => {
                let ghost before = shown@;
                shown.push(one);
                assert(shown_of(shown@) =~= shown_of(before).push(one@));
            },
        }
        i += 1;
    }
    assert(all.take(i as int) =~= all);
    Ok(shown)
}

/// Once a row cannot be shown, no longer list can.
proof fn lemma_first_failure(rows: Seq<MessageView>, n: int)
    requires
        0 <= n <= rows.len(),
        presented_all(rows.take(n)) is Err,
    ensures
        presented_all(rows) == presented_all(rows.take(n)),
    decreases rows.len() - n,
{
    if n < rows.len() {
        assert(rows.take(n + 1).drop_last() =~= rows.take(n));
        lemma_first_failure(rows, n + 1);
    } else {
        assert(rows.take(n) =~= rows);
    }
}

/// The identity strings of all known authors.
pub fn feeds(store: &Store) -> (r: Result<Vec<String>, QueryError>)
    requires
        store.wf(),
    ensures
        r matches Ok(names) && texts_of(names@) == store@.authors,
{
    match get_authors(store) {
        Ok(names) => Ok(names),
        Err(e) => Err(QueryError::Authors(e)),
    }
}

/// The feeds in which the author known by `pub_key` has an entry, each once.
/// An unknown author is an error; a known author without entries has an
/// empty list.
pub fn feeds_key(store: &Store, pub_key: &str) -> (r: Result<Vec<u64>, QueryError>)
    requires
        store.wf(),
    ensures
        match store@.author_id(pub_key@) {
            None => r matches Err(e) && e@ == QueryFailure::Author(StoreError::NotFound),
            Some(_) => r matches Ok(feed_ids) && feed_ids@.no_duplicates() && feed_ids@.to_set()
                == store@.feed_ids(pub_key@),
        },
{
    match get_author(store, pub_key) {
        Err(e) => Err(QueryError::Author(e)),
        Ok(_) => match get_author_feed_ids(store, pub_key) {
            Ok(feed_ids) => Ok(feed_ids),
            Err(e) => Err(QueryError::Feeds(e)),
        },
    }
}

/// All the entries that the author known by `pub_key` has in the feed
/// `feed_id`, as shown, in the order in which they were stored. An unknown
/// author is an error; a known author without entries in the feed has an
/// empty list.
pub fn feeds_key_feed_id(store: &Store, pub_key: &str, feed_id: u64) -> (r: Result<
    Vec<Presented>,
    QueryError,
>)
    requires
        store.wf(),
    ensures
        listing_of(r) == feed_shown(store@, pub_key@, feed_id),
{
    let author_id = match get_author(store, pub_key) {
        Ok(id) => id,
        Err(e) => {
            return Err(QueryError::Author(e));
        },
    };
    match get_messages(store, author_id, feed_id) {
        Err(e) => Err(QueryError::Entries(e)),
        Ok(rows) => present_all(&rows),
    }
}

/// The entry that the author known by `pub_key` has at place `seq` of the
/// feed `feed_id`, as shown. An unknown author and an empty place are errors.
pub fn feeds_key_feed_id_seq(store: &Store, pub_key: &str, feed_id: u64, seq: u64) -> (r: Result<
    Presented,
    QueryError,
>)
    requires
        store.wf(),
    ensures
        showing_of(r) == entry_shown(store@, pub_key@, feed_id, seq),
{
    let author_id = match get_author(store, pub_key) {
        Ok(id) => id,
        Err(e) => {
            return Err(QueryError::Author(e));
        },
    };
    match get_message(store, author_id, seq, feed_id) {
        Err(e) => Err(QueryError::Entry(e)),
        Ok(None) => Err(QueryError::NoEntry),
        Ok(Some(row)) => present(&row),
    }
}

} // verus!
