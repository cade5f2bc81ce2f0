//! What holds of every store and every submission, proved from the
//! definitions of the store and of the pipeline.

use vstd::prelude::*;
use crate::codec::leaping_index;
use crate::hexcode::hex_text;
use crate::ingest::{ancestors, ingested};
use crate::models::authors::lemma_registered_at;
use crate::models::messages::MessageView;
use crate::pipeline::{candidate_of, IngestFailure};
use crate::query::{
    entry_shown, feed_shown, presented, presented_all, showable, PresentedView, QueryFailure,
};
use crate::store::{
    enrolled, gap_free, in_feed, key_of, lemma_row_at, registered, registry_wf, EntryKey, StoreView,
};
use vstd::set_lib::{lemma_int_range, lemma_len_subset, lemma_subset_equality, set_int_range};

verus! {

/// Looking a text up in a registry, or adding it, keeps the registry in
/// order, leaves every known text its identity, and gives the text an
/// identity under which it is found from then on.
pub proof fn lemma_enrolled(registry: Seq<Seq<char>>, text: Seq<char>)
    requires
        registry_wf(registry),
    ensures
        registry_wf(enrolled(registry, text).0),
        enrolled(registry, text).1 matches Ok(id) ==> registered(enrolled(registry, text).0, text)
            == Some(id),
        enrolled(registry, text).1 is Err ==> enrolled(registry, text).0 == registry,
        forall|known: Seq<char>| #[trigger]
            registry.contains(known) ==> registered(enrolled(registry, text).0, known)
                == registered(registry, known),
{
    let after = enrolled(registry, text).0;
    if !registry.contains(text) && registry.len() < i32::MAX {
        assert(after.no_duplicates()) by {
            assert forall|i: int, j: int| 0 <= i < after.len() && 0 <= j < after.len() && i != j
            implies after[i] != after[j] by {
                if i < registry.len() && j < registry.len() {
                    assert(registry[i] != registry[j]);
                } else if i < registry.len() {
                    assert(registry.contains(registry[i]));
                } else {
                    assert(registry.contains(registry[j]));
                }
            }
        }
        lemma_registered_at(after, registry.len() as int);
        assert forall|known: Seq<char>| #[trigger] registry.contains(known) implies registered(
            after,
            known,
        ) == registered(registry, known) by {
            let i = registry.index_of(known);
            lemma_registered_at(registry, i);
            assert(after[i] == known);
            lemma_registered_at(after, i);
        }
    }
}

/// Appending a row keeps the store in order and every stored row in its
/// place; the row itself is stored afterwards if its place was free, and
/// nothing else is new.
pub proof fn lemma_appended(store: StoreView, row: MessageView)
    requires
        store.wf(),
    ensures
        store.appended(row).wf(),
        store.appended(row).holds(key_of(row)),
        !store.holds(key_of(row)) ==> store.appended(row).row(key_of(row)) == Some(row),
        forall|key: EntryKey| #[trigger]
            store.holds(key) ==> store.appended(row).holds(key) && store.appended(row).row(key)
                == store.row(key),
        forall|key: EntryKey| #[trigger]
            store.appended(row).holds(key) ==> store.holds(key) || key == key_of(row),
{
    let after = store.appended(row);
    if !store.holds(key_of(row)) {
        let last = store.messages.len() as int;
        assert(after.messages[last] == row);
        assert(after.wf()) by {
            assert forall|i: int, j: int| 0 <= i < j < after.messages.len() implies key_of(
                #[trigger] after.messages[i],
            ) != key_of(#[trigger] after.messages[j]) by {
                if j < last {
                    assert(key_of(store.messages[i]) != key_of(store.messages[j]));
                } else {
                    assert(store.messages[i] == after.messages[i]);
                    if key_of(store.messages[i]) == key_of(row) {
                        assert(store.holds(key_of(row)));
                    }
                }
            }
        }
        lemma_row_at(after, last);
        assert forall|key: EntryKey| #[trigger] store.holds(key) implies after.holds(key)
            && after.row(key) == store.row(key) by {
            let i = choose|i: int|
                0 <= i < store.messages.len() && key_of(#[trigger] store.messages[i]) == key;
            lemma_row_at(store, i);
            assert(after.messages[i] == store.messages[i]);
            lemma_row_at(after, i);
        }
        assert forall|key: EntryKey| #[trigger] after.holds(key) implies store.holds(key) || key
            == key_of(row) by {
            let i = choose|i: int|
                0 <= i < after.messages.len() && key_of(#[trigger] after.messages[i]) == key;
            if i < last {
                assert(store.messages[i] == after.messages[i]);
            }
        }
    }
}

/// The place at which a submission is stored if it is admitted: known once
/// the submission reads and its author has an identity.
pub open spec fn place_of(store: StoreView, entry_text: Seq<char>, payload_text: Seq<char>) -> Option<
    EntryKey,
> {
    match candidate_of(entry_text, payload_text) {
        Err(_) => None,
        Ok(candidate) => match store.upserted_author(hex_text(candidate.header.author)).1 {
            Err(_) => None,
            Ok(author_id) => Some(
                EntryKey {
                    author_id,
                    feed_id: candidate.header.log_id,
                    seq: candidate.header.seq_num,
                },
            ),
        },
    }
}

/// A submission keeps the store in order, whatever its end.
pub proof fn lemma_ingested_wf(store: StoreView, entry_text: Seq<char>, payload_text: Seq<char>)
    requires
        store.wf(),
    ensures
        ingested(store, entry_text, payload_text).0.wf(),
{
    if let Ok(candidate) = candidate_of(entry_text, payload_text) {
        let identity = hex_text(candidate.header.author);
        lemma_enrolled(store.authors, identity);
        let (known, author) = store.upserted_author(identity);
        if let Ok(author_id) = author {
            lemma_appended(known, candidate.row(author_id));
        }
    }
}

/// An empty store has no gap.
pub proof fn lemma_empty_is_gap_free()
    ensures
        StoreView::empty().wf(),
        gap_free(StoreView::empty()),
{
}

/// Submissions never open a gap: in a store filled by submissions alone, the
/// entries of a feed are numbered from 1 without a break, since the first
/// needs no ancestor and every other is admitted only after the entry before
/// it.
pub proof fn lemma_ingested_gap_free(store: StoreView, entry_text: Seq<char>, payload_text: Seq<char>)
    requires
        store.wf(),
        gap_free(store),
    ensures
        gap_free(ingested(store, entry_text, payload_text).0),
{
    let after = ingested(store, entry_text, payload_text).0;
    if let Ok(candidate) = candidate_of(entry_text, payload_text) {
        let identity = hex_text(candidate.header.author);
        lemma_enrolled(store.authors, identity);
        let (known, author) = store.upserted_author(identity);
        assert(known.messages == store.messages);
        assert(gap_free(known)) by {
            assert forall|author_id: i32, feed_id: u64, seq: u64| #[trigger]
                known.holds(EntryKey { author_id, feed_id, seq }) implies seq >= 1 && (seq > 1
                ==> known.holds(EntryKey { author_id, feed_id, seq: (seq - 1) as u64 })) by {
                assert(store.holds(EntryKey { author_id, feed_id, seq }));
                if seq > 1 {
                    assert(store.holds(EntryKey { author_id, feed_id, seq: (seq - 1) as u64 }));
                }
            }
        }
        if let Ok(id) = author {
            let row = candidate.row(id);
            lemma_appended(known, row);
            if after == known.appended(row) {
                assert forall|author_id: i32, feed_id: u64, seq: u64| #[trigger]
                    after.holds(EntryKey { author_id, feed_id, seq }) implies seq >= 1 && (seq > 1
                    ==> after.holds(EntryKey { author_id, feed_id, seq: (seq - 1) as u64 })) by {
                    let key = EntryKey { author_id, feed_id, seq };
                    let before = EntryKey { author_id, feed_id, seq: (seq - 1) as u64 };
                    if known.holds(key) {
                        if seq > 1 {
                            assert(known.holds(before));
                        }
                    } else {
                        assert(key == key_of(row));
                        if seq > 1 {
                            assert(ancestors(known, id, candidate.header) is Ok);
                            assert(known.row(before) is Some);
                            assert(known.holds(before));
                        }
                    }
                }
            }
        }
    }
}

/// In a store without a gap, every number from 1 up to that of a stored
/// entry has an entry in the same feed.
pub proof fn lemma_gap_free_prefix(
    store: StoreView,
    author_id: i32,
    feed_id: u64,
    seq: u64,
    below: u64,
)
    requires
        gap_free(store),
        store.holds(EntryKey { author_id, feed_id, seq }),
        1 <= below <= seq,
    ensures
        store.holds(EntryKey { author_id, feed_id, seq: below }),
    decreases seq - below,
{
    if below < seq {
        assert(store.holds(EntryKey { author_id, feed_id, seq: (seq - 1) as u64 }));
        lemma_gap_free_prefix(store, author_id, feed_id, (seq - 1) as u64, below);
    }
}

/// The numbers under which one feed of one author has entries.
pub open spec fn numbers(store: StoreView, author_id: i32, feed_id: u64) -> Set<int> {
    Set::new(
        |seq: int|
            0 <= seq <= u64::MAX && store.holds(EntryKey { author_id, feed_id, seq: seq as u64 }),
    )
}

/// A feed has as many numbers as it has entries, since no place holds two.
pub proof fn lemma_numbers_count(store: StoreView, author_id: i32, feed_id: u64)
    requires
        store.wf(),
    ensures
        numbers(store, author_id, feed_id).finite(),
        numbers(store, author_id, feed_id).len() == store.feed(author_id, feed_id).len(),
    decreases store.messages.len(),
{
    let here = numbers(store, author_id, feed_id);
    if store.messages.len() == 0 {
        assert(here =~= Set::empty());
        store.messages.lemma_filter_len(in_feed(author_id, feed_id));
    } else {
        let last = store.messages.last();
        let rest = StoreView { messages: store.messages.drop_last(), ..store };
        let there = numbers(rest, author_id, feed_id);
        assert(rest.messages.push(last) =~= store.messages);
        assert(rest.wf()) by {
            assert forall|i: int, j: int| 0 <= i < j < rest.messages.len() implies key_of(
                #[trigger] rest.messages[i],
            ) != key_of(#[trigger] rest.messages[j]) by {
                assert(key_of(store.messages[i]) != key_of(store.messages[j]));
            }
        }
        lemma_numbers_count(rest, author_id, feed_id);
        rest.messages.lemma_filter_push(last, in_feed(author_id, feed_id));
        assert(rest.appended(last) == store) by {
            if rest.holds(key_of(last)) {
                let i = choose|i: int|
                    0 <= i < rest.messages.len() && key_of(#[trigger] rest.messages[i]) == key_of(
                        last,
                    );
                assert(key_of(store.messages[i]) != key_of(
                    store.messages[store.messages.len() - 1],
                ));
            }
        }
        lemma_appended(rest, last);
        if in_feed(author_id, feed_id)(last) {
            assert(key_of(last) == EntryKey { author_id, feed_id, seq: last.seq });
            assert(!there.contains(last.seq as int));
            assert(here =~= there.insert(last.seq as int)) by {
                assert forall|seq: int| here.contains(seq) <==> there.insert(
                    last.seq as int,
                ).contains(seq) by {
                    if 0 <= seq <= u64::MAX {
                        let key = EntryKey { author_id, feed_id, seq: seq as u64 };
                        if rest.holds(key) {
                            assert(store.holds(key));
                        }
                        if store.holds(key) {
                            assert(rest.holds(key) || key == key_of(last));
                        }
                    }
                }
            }
        } else {
            assert(here =~= there) by {
                assert forall|seq: int| here.contains(seq) <==> there.contains(seq) by {
                    if 0 <= seq <= u64::MAX {
                        let key = EntryKey { author_id, feed_id, seq: seq as u64 };
                        if rest.holds(key) {
                            assert(store.holds(key));
                        }
                        if store.holds(key) {
                            assert(rest.holds(key) || key == key_of(last));
                        }
                    }
                }
            }
        }
    }
}

/// In a store without a gap, the entries of a feed are numbered from 1 to
/// the number of its entries: every number in between is taken, each by one
/// entry, and no other.
pub proof fn lemma_feed_numbers(store: StoreView, author_id: i32, feed_id: u64)
    requires
        store.wf(),
        gap_free(store),
    ensures
        forall|seq: u64| #[trigger]
            store.holds(EntryKey { author_id, feed_id, seq }) <==> 1 <= seq <= store.feed(
                author_id,
                feed_id,
            ).len(),
{
    let here = numbers(store, author_id, feed_id);
    let count = store.feed(author_id, feed_id).len() as int;
    lemma_numbers_count(store, author_id, feed_id);
    lemma_int_range(1, count + 1);
    assert forall|top: int| here.contains(top) implies 1 <= top <= count by {
        let taken = EntryKey { author_id, feed_id, seq: top as u64 };
        assert(store.holds(taken));
        lemma_int_range(1, top + 1);
        assert(set_int_range(1, top + 1).subset_of(here)) by {
            assert forall|below: int| set_int_range(1, top + 1).contains(below) implies here.contains(
                below,
            ) by {
                lemma_gap_free_prefix(store, author_id, feed_id, top as u64, below as u64);
            }
        }
        lemma_len_subset(set_int_range(1, top + 1), here);
    }
    assert(here.subset_of(set_int_range(1, count + 1)));
    lemma_subset_equality(here, set_int_range(1, count + 1));
    assert forall|seq: u64| #[trigger]
        store.holds(EntryKey { author_id, feed_id, seq }) <==> 1 <= seq <= count by {
        assert(here.contains(seq as int) <==> store.holds(EntryKey { author_id, feed_id, seq }));
        assert(set_int_range(1, count + 1).contains(seq as int) <==> 1 <= seq <= count);
    }
}

/// A submission that is rejected stores no entry.
pub proof fn lemma_rejection_stores_nothing(
    store: StoreView,
    entry_text: Seq<char>,
    payload_text: Seq<char>,
)
    requires
        ingested(store, entry_text, payload_text).1 is Err,
    ensures
        ingested(store, entry_text, payload_text).0.messages == store.messages,
{
}

/// An entry after the first whose place before it, or the place that its
/// skiplink points to, is empty is rejected, for the ancestor that is not
/// stored or for a stored one that cannot be read, and stores nothing.
pub proof fn lemma_missing_ancestor_rejected(
    store: StoreView,
    entry_text: Seq<char>,
    payload_text: Seq<char>,
)
    requires
        place_of(store, entry_text, payload_text) matches Some(place) && place.seq > 1 && (
        !store.holds(EntryKey { seq: (place.seq - 1) as u64, ..place }) || !store.holds(
            EntryKey { seq: leaping_index(place.seq), ..place },
        )),
    ensures
        ingested(store, entry_text, payload_text).1 matches Err(e) && (e
            == IngestFailure::MissingBacklink || e == IngestFailure::MissingSkiplink
            || e is BacklinkHex),
        ingested(store, entry_text, payload_text).0.messages == store.messages,
{
    let candidate = candidate_of(entry_text, payload_text)->Ok_0;
    let known = store.upserted_author(hex_text(candidate.header.author)).0;
    assert(known.messages == store.messages);
    let place = place_of(store, entry_text, payload_text).unwrap();
    let before = EntryKey { seq: (place.seq - 1) as u64, ..place };
    let leap = EntryKey { seq: leaping_index(place.seq), ..place };
    assert(known.holds(before) == store.holds(before));
    assert(known.holds(leap) == store.holds(leap));
}

/// Submitting an admitted entry again, with the same payload, succeeds again
/// with the same answer and leaves the store as the first submission left
/// it: with a row at the entry's place, which like every place holds one row
/// only, and with at most one row more than before the first submission.
pub proof fn lemma_resubmission(store: StoreView, entry_text: Seq<char>, payload_text: Seq<char>)
    requires
        store.wf(),
        ingested(store, entry_text, payload_text).1 is Ok,
    ensures
        ingested(ingested(store, entry_text, payload_text).0, entry_text, payload_text) == ingested(
            store,
            entry_text,
            payload_text,
        ),
        place_of(store, entry_text, payload_text) matches Some(place) && ingested(
            store,
            entry_text,
            payload_text,
        ).0.holds(place),
        ingested(store, entry_text, payload_text).0.wf(),
        ingested(store, entry_text, payload_text).0.messages.len() <= store.messages.len() + 1,
{
    let candidate = candidate_of(entry_text, payload_text)->Ok_0;
    let identity = hex_text(candidate.header.author);
    let (known, author) = store.upserted_author(identity);
    let id = author->Ok_0;
    let row = candidate.row(id);
    let after = known.appended(row);
    lemma_enrolled(store.authors, identity);
    lemma_appended(known, row);
    assert(after.authors == known.authors);
    lemma_enrolled(known.authors, identity);
    assert(known.authors.contains(identity));
    assert(after.upserted_author(identity) == (after, author));
    if candidate.header.seq_num > 1 {
        let before = EntryKey {
            author_id: id,
            feed_id: candidate.header.log_id,
            seq: (candidate.header.seq_num - 1) as u64,
        };
        let leap = EntryKey {
            author_id: id,
            feed_id: candidate.header.log_id,
            seq: leaping_index(candidate.header.seq_num),
        };
        assert(known.row(before) is Some);
        assert(known.holds(before));
        assert(known.row(leap) is Some);
        assert(known.holds(leap));
    }
    assert(ancestors(after, id, candidate.header) == ancestors(known, id, candidate.header));
    assert(after.appended(row) == after);
}

/// An admitted entry is read back as it was admitted: asked for by its
/// author, feed and number, the store shows the texts that were submitted
/// and the decoded entry that the submitter was handed. This holds where the
/// entry's place was free; where it was taken, the store keeps what it had.
pub proof fn lemma_round_trip(store: StoreView, entry_text: Seq<char>, payload_text: Seq<char>)
    requires
        store.wf(),
        ingested(store, entry_text, payload_text).1 is Ok,
        place_of(store, entry_text, payload_text) matches Some(place) && !store.holds(place),
    ensures
        ({
            let (after, outcome) = ingested(store, entry_text, payload_text);
            let accepted = outcome->Ok_0;
            entry_shown(
                after,
                hex_text(accepted.decoded.author),
                accepted.decoded.log_id,
                accepted.decoded.seq_num,
            ) == Ok::<PresentedView, QueryFailure>(
                PresentedView {
                    decoded: accepted.decoded,
                    encoded: accepted.entry,
                    payload: Some(accepted.payload),
                },
            )
        }),
{
    let candidate = candidate_of(entry_text, payload_text)->Ok_0;
    let identity = hex_text(candidate.header.author);
    let (known, author) = store.upserted_author(identity);
    let id = author->Ok_0;
    let row = candidate.row(id);
    let after = known.appended(row);
    lemma_enrolled(store.authors, identity);
    assert(known.messages == store.messages);
    assert(known.holds(key_of(row)) == store.holds(key_of(row)));
    lemma_appended(known, row);
    assert(after.authors == known.authors);
    assert(after.author_id(identity) == Some(id));
    assert(after.row(key_of(row)) == Some(row));
    assert(presented(row) == Ok::<PresentedView, QueryFailure>(
        PresentedView {
            decoded: candidate.header,
            encoded: candidate.entry_text,
            payload: Some(candidate.payload_text),
        },
    ));
}

/// A submission takes nothing away and changes nothing that is stored:
/// whatever its end, every stored row is afterwards found at its place as it
/// was, and every known author has the identity that the author had.
pub proof fn lemma_ingested_keeps(store: StoreView, entry_text: Seq<char>, payload_text: Seq<char>)
    requires
        store.wf(),
    ensures
        forall|key: EntryKey| #[trigger]
            store.holds(key) ==> ingested(store, entry_text, payload_text).0.holds(key) && ingested(
                store,
                entry_text,
                payload_text,
            ).0.row(key) == store.row(key),
        forall|identity: Seq<char>| #[trigger]
            store.authors.contains(identity) ==> ingested(
                store,
                entry_text,
                payload_text,
            ).0.author_id(identity) == store.author_id(identity),
{
    let after = ingested(store, entry_text, payload_text).0;
    if let Ok(candidate) = candidate_of(entry_text, payload_text) {
        let identity = hex_text(candidate.header.author);
        lemma_enrolled(store.authors, identity);
        let (known, author) = store.upserted_author(identity);
        assert(known.messages == store.messages);
        assert forall|key: EntryKey| #[trigger] store.holds(key) implies known.holds(key)
            && known.row(key) == store.row(key) by {
            assert(known.holds(key) == store.holds(key));
        }
        if let Ok(author_id) = author {
            lemma_appended(known, candidate.row(author_id));
            assert(after.authors == known.authors);
        }
    }
}

/// What was read once is read again: an entry that is stored is shown the
/// same after any later submission, whatever that submission's end.
pub proof fn lemma_shown_stays(
    store: StoreView,
    identity: Seq<char>,
    feed_id: u64,
    seq: u64,
    entry_text: Seq<char>,
    payload_text: Seq<char>,
)
    requires
        store.wf(),
        store.author_id(identity) matches Some(author_id) && store.holds(
            EntryKey { author_id, feed_id, seq },
        ),
    ensures
        entry_shown(ingested(store, entry_text, payload_text).0, identity, feed_id, seq)
            == entry_shown(store, identity, feed_id, seq),
{
    lemma_ingested_keeps(store, entry_text, payload_text);
    assert(store.authors.contains(identity));
}

/// A list of rows of which each can be shown can be shown, row for row.
pub proof fn lemma_presented_all(rows: Seq<MessageView>)
    requires
        forall|i: int| 0 <= i < rows.len() ==> presented(#[trigger] rows[i]) is Ok,
    ensures
        presented_all(rows) matches Ok(shown) && shown.len() == rows.len() && forall|i: int|
            0 <= i < rows.len() ==> presented(rows[i]) == Ok::<PresentedView, QueryFailure>(
                #[trigger] shown[i],
            ),
    decreases rows.len(),
{
    if rows.len() > 0 {
        let rest = rows.drop_last();
        assert forall|i: int| 0 <= i < rest.len() implies presented(#[trigger] rest[i]) is Ok by {
            assert(rest[i] == rows[i]);
        }
        lemma_presented_all(rest);
        assert(presented(rows[rows.len() - 1]) is Ok);
        let shown = presented_all(rows)->Ok_0;
        assert forall|i: int| 0 <= i < rows.len() implies presented(rows[i]) == Ok::<
            PresentedView,
            QueryFailure,
        >(#[trigger] shown[i]) by {
            if i < rest.len() {
                assert(rest[i] == rows[i]);
            }
        }
    }
}

/// Every row that an admitted submission stores can be shown, so that a
/// store in which every row can be shown stays so under submissions.
pub proof fn lemma_ingested_showable(store: StoreView, entry_text: Seq<char>, payload_text: Seq<char>)
    requires
        showable(store),
    ensures
        showable(ingested(store, entry_text, payload_text).0),
{
    let after = ingested(store, entry_text, payload_text).0;
    if let Ok(candidate) = candidate_of(entry_text, payload_text) {
        let (known, author) = store.upserted_author(hex_text(candidate.header.author));
        assert(known.messages == store.messages);
        if let Ok(author_id) = author {
            let row = candidate.row(author_id);
            assert(presented(row) is Ok);
            assert forall|i: int| 0 <= i < after.messages.len() implies presented(
                #[trigger] after.messages[i],
            ) is Ok by {
                if i < store.messages.len() {
                    assert(after.messages[i] == store.messages[i]);
                }
            }
        }
    }
}

/// In a store in which every row can be shown, and so in every store filled
/// by submissions alone, reading never fails for what is stored: a known
/// author's feed is listed in full, and an entry that is stored is shown.
pub proof fn lemma_showable_reads(store: StoreView, identity: Seq<char>, feed_id: u64, seq: u64)
    requires
        store.wf(),
        showable(store),
        store.author_id(identity) is Some,
    ensures
        feed_shown(store, identity, feed_id) matches Ok(shown) && shown.len() == store.feed(
            store.author_id(identity).unwrap(),
            feed_id,
        ).len(),
        entry_shown(store, identity, feed_id, seq) is Ok || entry_shown(
            store,
            identity,
            feed_id,
            seq,
        ) == Err::<PresentedView, QueryFailure>(QueryFailure::NoEntry),
        store.holds(EntryKey { author_id: store.author_id(identity).unwrap(), feed_id, seq })
            ==> entry_shown(store, identity, feed_id, seq) is Ok,
{
    let author_id = store.author_id(identity).unwrap();
    let rows = store.feed(author_id, feed_id);
    assert forall|i: int| 0 <= i < rows.len() implies presented(#[trigger] rows[i]) is Ok by {
        assert(rows.contains(rows[i]));
        store.messages.lemma_filter_contains_rev(in_feed(author_id, feed_id), rows[i]);
        let j = store.messages.index_of(rows[i]);
        assert(store.messages[j] == rows[i]);
    }
    lemma_presented_all(rows);
    let key = EntryKey { author_id, feed_id, seq };
    if store.holds(key) {
        let j = choose|j: int|
            0 <= j < store.messages.len() && key_of(#[trigger] store.messages[j]) == key;
        lemma_row_at(store, j);
    }
}

/// An author's identity is stable: registering the same identity string
/// again changes nothing and gives the same answer, the same internal
/// identity, under which a lookup finds the author from then on; and no
/// registration changes the identity of an author already known.
pub proof fn lemma_author_identity_stable(store: StoreView, identity: Seq<char>)
    requires
        store.wf(),
    ensures
        ({
            let (known, id) = store.upserted_author(identity);
            &&& known.wf()
            &&& known.upserted_author(identity) == (known, id)
            &&& id matches Ok(author_id) ==> known.author_id(identity) == Some(author_id)
            &&& forall|other: Seq<char>| #[trigger]
                store.authors.contains(other) ==> known.author_id(other) == store.author_id(other)
        }),
{
    lemma_enrolled(store.authors, identity);
    let (known, id) = store.upserted_author(identity);
    if id is Ok {
        assert(known.authors.contains(identity));
    }
}

/// Appending is idempotent: a second append at the same place changes
/// nothing, whatever it carries.
pub proof fn lemma_append_idempotent(store: StoreView, row: MessageView, again: MessageView)
    requires
        store.wf(),
        key_of(again) == key_of(row),
    ensures
        store.appended(row).appended(again) == store.appended(row),
{
    lemma_appended(store, row);
}

} // verus!
