//! Submissions against the library's own store: each question of the
//! pipeline is answered by the store at once, so that a whole submission is
//! one call, and what it does to the store can be stated in one place.

use vstd::prelude::*;
use crate::codec::{leaping_index, verification, EntryHeader};
use crate::hexcode::{hex_decoded, hex_text};
use crate::models::authors::upsert_author;
use crate::models::messages::{get_message, insert_message, NewMessage};
use crate::pipeline::{
    advance, advanced, begin, candidate_of, started, Accepted, AcceptedView, IngestError,
    IngestFailure, Next, NextView, Reply, ReplyView, Request, RequestView, outcome_of,
};
use crate::laws::{lemma_ingested_gap_free, lemma_ingested_showable};
use crate::query::showable;
use crate::store::{gap_free, key_of, EntryKey, Store, StoreView};

verus! {

/// The store's answer to a question, and the store after it.
pub open spec fn answered(store: StoreView, request: RequestView) -> (StoreView, ReplyView) {
    match request {
        RequestView::UpsertAuthor { identity } => {
            let (after, id) = store.upserted_author(identity);
            (after, ReplyView::Author(id))
        },
        RequestView::GetMessage { author_id, seq, feed_id } => (
            store,
            ReplyView::Message(Ok(store.row(EntryKey { author_id, feed_id, seq }))),
        ),
        RequestView::InsertMessage { row } => (
            store.appended(row),
            ReplyView::Inserted(
                Ok(
                    if store.holds(key_of(row)) {
                        0usize
                    } else {
                        1usize
                    },
                ),
            ),
        ),
    }
}

/// The two ancestors of an entry, as the verifier is to see them: the bytes
/// of the stored entry that the skiplink points to, then those of the stored
/// entry just before. The first entry of a feed has neither. Any other entry
/// has both, or is rejected for the one that is not stored, the entry before
/// it first.
pub open spec fn ancestors(store: StoreView, author_id: i32, header: EntryHeader) -> Result<
    (Option<Seq<u8>>, Option<Seq<u8>>),
    IngestFailure,
> {
    let before = EntryKey {
        author_id,
        feed_id: header.log_id,
        seq: (header.seq_num - 1) as u64,
    };
    let leap = EntryKey { author_id, feed_id: header.log_id, seq: leaping_index(header.seq_num) };
    if header.seq_num <= 1 {
        Ok((None, None))
    } else {
        match store.row(before) {
            None => Err(IngestFailure::MissingBacklink),
            Some(back) => match hex_decoded(back.entry) {
                Err(e) => Err(IngestFailure::BacklinkHex(e)),
                Ok(backlink) => match store.row(leap) {
                    None => Err(IngestFailure::MissingSkiplink),
                    Some(skip) => match hex_decoded(skip.entry) {
                        Err(e) => Err(IngestFailure::SkiplinkHex(e)),
                        Ok(skiplink) => Ok((Some(skiplink), Some(backlink))),
                    },
                },
            },
        }
    }
}

/// What a submission does to a store, and how it ends. The submission is
/// read; its author is looked up, or registered when first seen; its
/// ancestors are fetched; the verifier is asked; and only then the entry is
/// appended. The first step that fails ends the submission, and the store
/// is then as the steps before it left it: with the author, without the
/// entry.
pub open spec fn ingested(store: StoreView, entry_text: Seq<char>, payload_text: Seq<char>) -> (
    StoreView,
    Result<AcceptedView, IngestFailure>,
) {
    match candidate_of(entry_text, payload_text) {
        Err(e) => (store, Err(e)),
        Ok(candidate) => {
            let (known, author) = store.upserted_author(hex_text(candidate.header.author));
            match author {
                Err(e) => (known, Err(IngestFailure::AuthorStorage(e))),
                Ok(author_id) => match ancestors(known, author_id, candidate.header) {
                    Err(e) => (known, Err(e)),
                    Ok((skiplink, backlink)) => match verification(
                        candidate.entry,
                        Some(candidate.payload),
                        skiplink,
                        backlink,
                    ) {
                        Err(reason) => (known, Err(IngestFailure::Verification(reason))),
                        Ok(()) => (
                            known.appended(candidate.row(author_id)),
                            Ok(candidate.accepted()),
                        ),
                    },
                },
            }
        },
    }
}

/// One turn of a submission against a store: a question is answered and the
/// next step taken; a submission that has ended stays as it is.
pub open spec fn turned(store: StoreView, next: NextView) -> (StoreView, NextView) {
    match next {
        NextView::Done(_) => (store, next),
        NextView::Ask(progress, request) => {
            let (after, reply) = answered(store, request);
            (after, advanced(progress, reply))
        },
    }
}

/// A submission against a store is over after four turns, and has then done
/// what `ingested` says.
pub proof fn lemma_four_turns(store: StoreView, entry_text: Seq<char>, payload_text: Seq<char>)
    ensures
        ({
            let (s1, n1) = turned(store, started(entry_text, payload_text));
            let (s2, n2) = turned(s1, n1);
            let (s3, n3) = turned(s2, n2);
            let (s4, n4) = turned(s3, n3);
            (s4, n4) == (
                ingested(store, entry_text, payload_text).0,
                NextView::Done(ingested(store, entry_text, payload_text).1),
            )
        }),
{
}

/// Answers a question from the store.
pub fn perform(store: &mut Store, request: &Request) -> (reply: Reply)
    requires
        old(store).wf(),
    ensures
        final(store).wf(),
        (final(store)@, reply@) == answered(old(store)@, request@),
{
    match request {
        Request::UpsertAuthor { identity } => Reply::Author(upsert_author(store, identity.as_str())),
        Request::GetMessage { author_id, seq, feed_id } => Reply::Message(
            get_message(store, *author_id, *seq, *feed_id),
        ),
        Request::InsertMessage { seq, author_id, feed_id, entry, payload } => {
            let row = NewMessage {
                seq: *seq,
                author_id: *author_id,
                feed_id: *feed_id,
                entry: entry.as_str(),
                payload: payload.as_str(),
            };
            Reply::Inserted(insert_message(store, &row))
        },
    }
}

/// One turn of a submission against the store.
fn turn(store: &mut Store, next: Next) -> (after: Next)
    requires
        old(store).wf(),
    ensures
        final(store).wf(),
        (final(store)@, after@) == turned(old(store)@, next@),
{
    match next {
        Next::Done(r) => Next::Done(r),
        Next::Ask(progress, request) => {
            let reply = perform(store, &request);
            advance(progress, reply)
        },
    }
}

/// Submits an entry and its payload, both as hexadecimal text, to the store.
/// An admitted entry is stored, once, and handed back with its decoded form;
/// a rejected one leaves no entry behind. A store whose feeds are numbered
/// without a gap stays so, and so does one in which every row can be shown.
pub fn feeds_post(store: &mut Store, encoded_entry: &str, encoded_payload: &str) -> (r: Result<
    Accepted,
    IngestError,
>)
    requires
        old(store).wf(),
    ensures
        final(store).wf(),
        (final(store)@, outcome_of(r)) == ingested(old(store)@, encoded_entry@, encoded_payload@),
        gap_free(old(store)@) ==> gap_free(final(store)@),
        showable(old(store)@) ==> showable(final(store)@),
        outcome_of(r) != Err::<AcceptedView, IngestFailure>(IngestFailure::SequenceZero),
{
    let next = begin(encoded_entry, encoded_payload);
    let next = turn(store, next);
    let next = turn(store, next);
    let next = turn(store, next);
    let next = turn(store, next);
    proof {
        lemma_four_turns(old(store)@, encoded_entry@, encoded_payload@);
        if gap_free(old(store)@) {
            lemma_ingested_gap_free(old(store)@, encoded_entry@, encoded_payload@);
        }
        if showable(old(store)@) {
            lemma_ingested_showable(old(store)@, encoded_entry@, encoded_payload@);
        }
    }
    match next {
        Next::Done(r) => r,
        // No submission has a fifth question.
        Next::Ask(..) => Err(IngestError::UnexpectedReply),
    }
}

} // verus!
