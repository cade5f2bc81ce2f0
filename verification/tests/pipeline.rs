use bamboo_feeds::hexcode::HexError;
use bamboo_feeds::ingest::{feeds_post, perform};
use bamboo_feeds::models::authors::{get_author, get_authors};
use bamboo_feeds::models::messages::{get_message, get_messages, insert_message, Message, NewMessage};
use bamboo_feeds::codec::DecodedEntry;
use bamboo_feeds::pipeline::{
    advance, begin, enter, IngestError, Next, Progress, Reply, Request,
};
use bamboo_feeds::query::{
    feeds, feeds_key, feeds_key_feed_id, feeds_key_feed_id_seq, present, present_all,
    present_decoded, QueryError,
};
use bamboo_feeds::store::{Store, StoreError};
use bamboo_rs_core::entry::MAX_ENTRY_SIZE;
use bamboo_rs_core::{publish, Keypair, PublicKey, SecretKey};

fn keypair(seed: u8) -> Keypair {
    let secret = SecretKey::from_bytes(&[seed; 32]).unwrap();
    let public = PublicKey::from(&secret);
    Keypair { secret, public }
}

fn identity(keys: &Keypair) -> String {
    hex::encode(keys.public.as_bytes())
}

fn payload_of(log_id: u64, seq: u64) -> Vec<u8> {
    format!("payload {} of feed {}", seq, log_id).into_bytes()
}

/// The first `n` entries of a feed, each as the hexadecimal texts of the
/// entry and of its payload.
fn chain(keys: &Keypair, log_id: u64, n: u64) -> Vec<(String, String)> {
    let mut entries: Vec<Vec<u8>> = Vec::new();
    let mut texts = Vec::new();
    for seq in 1..=n {
        let payload = payload_of(log_id, seq);
        let mut buffer = [0u8; MAX_ENTRY_SIZE];
        let size = if seq == 1 {
            publish(&mut buffer, keys, log_id, &payload, false, None, None, None).unwrap()
        } else {
            let leap = bamboo_rs_core::lipmaa(seq) as usize;
            publish(
                &mut buffer,
                keys,
                log_id,
                &payload,
                false,
                Some(seq - 1),
                Some(&entries[leap - 1][..]),
                Some(&entries[(seq - 2) as usize][..]),
            )
            .unwrap()
        };
        entries.push(buffer[..size].to_vec());
        texts.push((hex::encode(&buffer[..size]), hex::encode(&payload)));
    }
    texts
}

fn ask(next: Next) -> (Progress, Request) {
    match next {
        Next::Ask(progress, request) => (progress, request),
        Next::Done(r) => panic!("the submission ended: {:?}", r),
    }
}

fn decoded(log_id: u64, seq_num: u64, author: &[u8]) -> DecodedEntry {
    DecodedEntry {
        log_id,
        is_end_of_feed: false,
        payload_hash: vec![7; 64],
        payload_size: 3,
        author: author.to_vec(),
        seq_num,
        backlink: None,
        lipmaa_link: None,
        sig: Some(vec![9; 64]),
    }
}

fn stored(author_id: i32, feed_id: u64, seq: u64, entry: &str) -> Message {
    Message { seq, author_id, feed_id, entry: entry.to_string(), payload: None }
}

#[test]
fn first_entry_of_a_fresh_feed_is_accepted_and_read_back() {
    let keys = keypair(1);
    let feed = chain(&keys, 0, 1);
    let mut store = Store::new();
    let accepted = feeds_post(&mut store, &feed[0].0, &feed[0].1).unwrap();
    assert_eq!(accepted.entry, feed[0].0);
    assert_eq!(accepted.payload, feed[0].1);
    assert_eq!(accepted.decoded.seq_num, 1);
    assert_eq!(accepted.decoded.log_id, 0);
    assert_eq!(accepted.decoded.author, keys.public.as_bytes().to_vec());
    assert!(!accepted.decoded.is_end_of_feed);
    assert_eq!(accepted.decoded.payload_size, payload_of(0, 1).len() as u64);

    let shown = feeds_key_feed_id_seq(&store, &identity(&keys), 0, 1).unwrap();
    assert_eq!(shown.encoded, feed[0].0);
    assert_eq!(shown.payload, Some(feed[0].1.clone()));
    assert_eq!(shown.decoded.seq_num, 1);
    assert_eq!(shown.decoded.log_id, 0);
    assert_eq!(shown.decoded.author, accepted.decoded.author);
    assert_eq!(shown.decoded.payload_size, accepted.decoded.payload_size);
    assert_eq!(shown.decoded.is_end_of_feed, accepted.decoded.is_end_of_feed);
}

#[test]
fn second_entry_needs_the_first() {
    let keys = keypair(2);
    let feed = chain(&keys, 0, 2);
    let mut store = Store::new();
    let early = feeds_post(&mut store, &feed[1].0, &feed[1].1);
    assert!(matches!(early, Err(IngestError::MissingBacklink)));
    let author = get_author(&store, &identity(&keys)).unwrap();
    assert!(get_messages(&store, author, 0).unwrap().is_empty());

    assert!(feeds_post(&mut store, &feed[0].0, &feed[0].1).is_ok());
    let second = feeds_post(&mut store, &feed[1].0, &feed[1].1).unwrap();
    assert_eq!(second.decoded.seq_num, 2);
    assert_eq!(get_messages(&store, author, 0).unwrap().len(), 2);
}

#[test]
fn submitting_the_first_entry_twice_stores_one_row() {
    let keys = keypair(3);
    let feed = chain(&keys, 0, 1);
    let mut store = Store::new();
    let first = feeds_post(&mut store, &feed[0].0, &feed[0].1).unwrap();
    let second = feeds_post(&mut store, &feed[0].0, &feed[0].1).unwrap();
    assert_eq!(first.entry, second.entry);
    assert_eq!(first.payload, second.payload);
    assert_eq!(first.decoded.seq_num, second.decoded.seq_num);
    let author = get_author(&store, &identity(&keys)).unwrap();
    let rows = get_messages(&store, author, 0).unwrap();
    assert_eq!(rows.len(), 1);
    assert_eq!(rows[0].seq, 1);
    assert_eq!(get_authors(&store).unwrap().len(), 1);
}

#[test]
fn feed_ids_of_an_author_with_entries_in_two_feeds() {
    let keys = keypair(4);
    let other = keypair(5);
    let mut store = Store::new();
    for (entry, payload) in chain(&keys, 0, 2) {
        feeds_post(&mut store, &entry, &payload).unwrap();
    }
    for (entry, payload) in chain(&keys, 1, 1) {
        feeds_post(&mut store, &entry, &payload).unwrap();
    }
    for (entry, payload) in chain(&other, 9, 1) {
        feeds_post(&mut store, &entry, &payload).unwrap();
    }
    let mut feed_ids = feeds_key(&store, &identity(&keys)).unwrap();
    feed_ids.sort();
    assert_eq!(feed_ids, vec![0, 1]);
    assert_eq!(feeds_key(&store, &identity(&other)).unwrap(), vec![9]);
    assert!(matches!(
        feeds_key(&store, "00"),
        Err(QueryError::Author(StoreError::NotFound))
    ));
}

#[test]
fn accepted_sequence_numbers_count_from_one_without_a_break() {
    let keys = keypair(6);
    let feed = chain(&keys, 3, 14);
    let mut store = Store::new();
    // Out of order: only the entry that extends the feed by one is admitted.
    for index in [4usize, 0, 2, 1, 13, 2, 3, 5, 4, 7, 6, 5, 7, 12] {
        let _ = feeds_post(&mut store, &feed[index].0, &feed[index].1);
    }
    let author = get_author(&store, &identity(&keys)).unwrap();
    let mut numbers: Vec<u64> = get_messages(&store, author, 3).unwrap().iter().map(|m| m.seq).collect();
    numbers.sort();
    assert_eq!(numbers, vec![1, 2, 3, 4, 5, 6]);
}

#[test]
fn a_whole_feed_is_accepted_in_order() {
    let keys = keypair(7);
    let feed = chain(&keys, 0, 14);
    let mut store = Store::new();
    for (entry, payload) in &feed {
        feeds_post(&mut store, entry, payload).unwrap();
    }
    let shown = feeds_key_feed_id(&store, &identity(&keys), 0).unwrap();
    assert_eq!(shown.len(), 14);
    for (index, one) in shown.iter().enumerate() {
        assert_eq!(one.decoded.seq_num, index as u64 + 1);
        assert_eq!(one.encoded, feed[index].0);
        assert_eq!(one.payload, Some(feed[index].1.clone()));
    }
}

#[test]
fn an_entry_whose_skiplink_target_is_missing_is_rejected() {
    let keys = keypair(8);
    let feed = chain(&keys, 0, 4);
    let mut store = Store::new();
    feeds_post(&mut store, &feed[0].0, &feed[0].1).unwrap();
    let author = get_author(&store, &identity(&keys)).unwrap();
    // A store that was filled by hand holds entry 3 without entry 2; entry 4
    // has its backlink there, but its skiplink points to entry 1 of another
    // store.
    let mut holed = Store::new();
    bamboo_feeds::models::authors::upsert_author(&mut holed, &identity(&keys)).unwrap();
    insert_message(
        &mut holed,
        &NewMessage { seq: 3, author_id: author, feed_id: 0, entry: &feed[2].0, payload: &feed[2].1 },
    )
    .unwrap();
    let r = feeds_post(&mut holed, &feed[3].0, &feed[3].1);
    assert!(matches!(r, Err(IngestError::MissingSkiplink)));
    assert_eq!(get_messages(&holed, author, 0).unwrap().len(), 1);
    assert!(get_message(&holed, author, 4, 0).unwrap().is_none());
}

#[test]
fn the_same_place_in_another_feed_or_of_another_author_is_no_ancestor() {
    let keys = keypair(9);
    let other = keypair(10);
    let mut store = Store::new();
    let feed = chain(&keys, 0, 2);
    feeds_post(&mut store, &chain(&keys, 1, 1)[0].0, &chain(&keys, 1, 1)[0].1).unwrap();
    feeds_post(&mut store, &chain(&other, 0, 1)[0].0, &chain(&other, 0, 1)[0].1).unwrap();
    let r = feeds_post(&mut store, &feed[1].0, &feed[1].1);
    assert!(matches!(r, Err(IngestError::MissingBacklink)));
}

#[test]
fn a_fork_at_a_taken_place_is_accepted_and_not_stored() {
    let keys = keypair(11);
    let mut store = Store::new();
    let first = chain(&keys, 0, 1);
    feeds_post(&mut store, &first[0].0, &first[0].1).unwrap();

    let payload = b"another first entry".to_vec();
    let mut buffer = [0u8; MAX_ENTRY_SIZE];
    let size = publish(&mut buffer, &keys, 0, &payload, false, None, None, None).unwrap();
    let fork = hex::encode(&buffer[..size]);
    assert_ne!(fork, first[0].0);
    let accepted = feeds_post(&mut store, &fork, &hex::encode(&payload)).unwrap();
    assert_eq!(accepted.entry, fork);

    let shown = feeds_key_feed_id_seq(&store, &identity(&keys), 0, 1).unwrap();
    assert_eq!(shown.encoded, first[0].0);
    assert_eq!(feeds_key_feed_id(&store, &identity(&keys), 0).unwrap().len(), 1);
}

#[test]
fn text_that_is_not_hexadecimal_is_rejected_by_name() {
    let keys = keypair(12);
    let feed = chain(&keys, 0, 1);
    let mut store = Store::new();
    assert!(matches!(
        feeds_post(&mut store, "abc", &feed[0].1),
        Err(IngestError::EntryHex(HexError::OddLength))
    ));
    assert!(matches!(
        feeds_post(&mut store, "0g", &feed[0].1),
        Err(IngestError::EntryHex(HexError::InvalidHexCharacter { c: 'g', index: 1 }))
    ));
    assert!(matches!(
        feeds_post(&mut store, &feed[0].0, "00 1"),
        Err(IngestError::PayloadHex(HexError::InvalidHexCharacter { c: ' ', index: 2 }))
    ));
    assert!(matches!(
        feeds_post(&mut store, &feed[0].0, "0"),
        Err(IngestError::PayloadHex(HexError::OddLength))
    ));
    // The entry is read before the payload.
    assert!(matches!(
        feeds_post(&mut store, "zz", "0"),
        Err(IngestError::EntryHex(HexError::InvalidHexCharacter { c: 'z', index: 0 }))
    ));
    // Two bytes of one character: an even length, and no digit.
    assert!(matches!(
        feeds_post(&mut store, "\u{e9}", ""),
        Err(IngestError::EntryHex(HexError::InvalidHexCharacter { c: '\u{c3}', index: 0 }))
    ));
    assert!(get_authors(&store).unwrap().is_empty());
}

#[test]
fn upper_case_digits_are_read_and_kept_as_submitted() {
    let keys = keypair(13);
    let feed = chain(&keys, 0, 1);
    let upper = feed[0].0.to_uppercase();
    let mut store = Store::new();
    let accepted = feeds_post(&mut store, &upper, &feed[0].1).unwrap();
    assert_eq!(accepted.entry, upper);
    let shown = feeds_key_feed_id_seq(&store, &identity(&keys), 0, 1).unwrap();
    assert_eq!(shown.encoded, upper);
    // The author is known by lower-case digits, whatever the submission used.
    assert_eq!(get_authors(&store).unwrap(), vec![identity(&keys)]);
}

#[test]
fn bytes_that_are_no_entry_are_rejected_with_the_codec_account() {
    let mut store = Store::new();
    match feeds_post(&mut store, "", "") {
        Err(IngestError::EntryDecode(reason)) => {
            assert_eq!(reason, "Bytes to decode had length of 0")
        }
        other => panic!("{:?}", other),
    }
    match feeds_post(&mut store, "00ff", "") {
        Err(IngestError::EntryDecode(reason)) => {
            assert_eq!(reason, "Could not decode author public key from bytes")
        }
        other => panic!("{:?}", other),
    }
    assert!(get_authors(&store).unwrap().is_empty());
}

#[test]
fn a_payload_that_the_entry_was_not_signed_over_is_rejected_by_the_verifier() {
    let keys = keypair(14);
    let feed = chain(&keys, 0, 1);
    let mut store = Store::new();
    match feeds_post(&mut store, &feed[0].0, &hex::encode(b"something else")) {
        Err(IngestError::Verification(reason)) => assert_eq!(
            reason,
            "The payload hash encoded in the entry does not match the payload provided"
        ),
        other => panic!("{:?}", other),
    }
    // The author was registered before the verifier was asked; no entry is stored.
    let author = get_author(&store, &identity(&keys)).unwrap();
    assert_eq!(author, 1);
    assert!(get_messages(&store, author, 0).unwrap().is_empty());
}

#[test]
fn a_tampered_entry_is_rejected_by_the_verifier() {
    let keys = keypair(15);
    let feed = chain(&keys, 0, 1);
    let mut bytes = hex::decode(&feed[0].0).unwrap();
    let last = bytes.len() - 1;
    bytes[last] ^= 1;
    let mut store = Store::new();
    match feeds_post(&mut store, &hex::encode(&bytes), &feed[0].1) {
        Err(IngestError::Verification(reason)) => assert_eq!(reason, "Entry signature is invalid!"),
        other => panic!("{:?}", other),
    }
}

#[test]
fn a_stored_ancestor_that_is_not_hexadecimal_ends_the_submission() {
    let keys = keypair(16);
    let feed = chain(&keys, 0, 3);
    let mut store = Store::new();
    let author = bamboo_feeds::models::authors::upsert_author(&mut store, &identity(&keys)).unwrap();
    insert_message(
        &mut store,
        &NewMessage { seq: 1, author_id: author, feed_id: 0, entry: "xy", payload: "" },
    )
    .unwrap();
    assert!(matches!(
        feeds_post(&mut store, &feed[1].0, &feed[1].1),
        Err(IngestError::BacklinkHex(HexError::InvalidHexCharacter { c: 'x', index: 0 }))
    ));
    insert_message(
        &mut store,
        &NewMessage { seq: 2, author_id: author, feed_id: 0, entry: &feed[1].0, payload: &feed[1].1 },
    )
    .unwrap();
    // Entry 3 has entry 2 before it, and its skiplink points to entry 2 as well.
    assert!(feeds_post(&mut store, &feed[2].0, &feed[2].1).is_ok());
    // Entry 4 would have its skiplink at entry 1.
    let four = chain(&keys, 0, 4);
    assert!(matches!(
        feeds_post(&mut store, &four[3].0, &four[3].1),
        Err(IngestError::SkiplinkHex(HexError::InvalidHexCharacter { c: 'x', index: 0 }))
    ));
}

#[test]
fn the_questions_of_a_first_entry() {
    let keys = keypair(17);
    let feed = chain(&keys, 5, 1);
    let (progress, request) = ask(begin(&feed[0].0, &feed[0].1));
    match request {
        Request::UpsertAuthor { identity: asked } => assert_eq!(asked, identity(&keys)),
        other => panic!("{:?}", other),
    }
    let (progress, request) = ask(advance(progress, Reply::Author(Ok(42))));
    match request {
        Request::InsertMessage { seq, author_id, feed_id, entry, payload } => {
            assert_eq!(seq, 1);
            assert_eq!(author_id, 42);
            assert_eq!(feed_id, 5);
            assert_eq!(entry, feed[0].0);
            assert_eq!(payload, feed[0].1);
        }
        other => panic!("{:?}", other),
    }
    match advance(progress, Reply::Inserted(Ok(1))) {
        Next::Done(Ok(accepted)) => {
            assert_eq!(accepted.entry, feed[0].0);
            assert_eq!(accepted.payload, feed[0].1);
            assert_eq!(accepted.decoded.seq_num, 1);
            assert_eq!(accepted.decoded.log_id, 5);
        }
        other => panic!("{:?}", other),
    }
}

#[test]
fn the_questions_of_a_later_entry_follow_the_leaping_index() {
    let keys = keypair(18);
    let feed = chain(&keys, 0, 13);
    // Entry 13 has entry 12 before it, and its skiplink points to entry 4.
    let (progress, _) = ask(begin(&feed[12].0, &feed[12].1));
    let (progress, request) = ask(advance(progress, Reply::Author(Ok(7))));
    assert!(matches!(request, Request::GetMessage { author_id: 7, seq: 12, feed_id: 0 }));
    let (progress, request) =
        ask(advance(progress, Reply::Message(Ok(Some(stored(7, 0, 12, &feed[11].0))))));
    assert!(matches!(request, Request::GetMessage { author_id: 7, seq: 4, feed_id: 0 }));
    let (progress, request) =
        ask(advance(progress, Reply::Message(Ok(Some(stored(7, 0, 4, &feed[3].0))))));
    assert!(matches!(request, Request::InsertMessage { seq: 13, author_id: 7, feed_id: 0, .. }));
    assert!(matches!(advance(progress, Reply::Inserted(Ok(0))), Next::Done(Ok(_))));
}

#[test]
fn the_wrong_ancestor_is_refused_by_the_verifier() {
    let keys = keypair(19);
    let feed = chain(&keys, 0, 13);
    let (progress, _) = ask(begin(&feed[12].0, &feed[12].1));
    let (progress, _) = ask(advance(progress, Reply::Author(Ok(7))));
    let (progress, _) =
        ask(advance(progress, Reply::Message(Ok(Some(stored(7, 0, 12, &feed[11].0))))));
    match advance(progress, Reply::Message(Ok(Some(stored(7, 0, 4, &feed[4].0))))) {
        Next::Done(Err(IngestError::Verification(reason))) => assert_eq!(
            reason,
            "The lipmaa hash encoded in the entry does not match the lipmaa entry provided"
        ),
        other => panic!("{:?}", other),
    }
}

#[test]
fn a_failure_of_the_storage_ends_the_submission_under_the_name_of_its_step() {
    let keys = keypair(20);
    let feed = chain(&keys, 0, 4);
    let down = || StoreError::Backend("connection refused".to_string());

    let (progress, _) = ask(begin(&feed[3].0, &feed[3].1));
    match advance(progress, Reply::Author(Err(down()))) {
        Next::Done(Err(IngestError::AuthorStorage(StoreError::Backend(text)))) => {
            assert_eq!(text, "connection refused")
        }
        other => panic!("{:?}", other),
    }

    let (progress, _) = ask(begin(&feed[3].0, &feed[3].1));
    let (progress, _) = ask(advance(progress, Reply::Author(Ok(1))));
    assert!(matches!(
        advance(progress, Reply::Message(Err(down()))),
        Next::Done(Err(IngestError::BacklinkStorage(StoreError::Backend(_))))
    ));

    let (progress, _) = ask(begin(&feed[3].0, &feed[3].1));
    let (progress, _) = ask(advance(progress, Reply::Author(Ok(1))));
    let (progress, _) =
        ask(advance(progress, Reply::Message(Ok(Some(stored(1, 0, 3, &feed[2].0))))));
    assert!(matches!(
        advance(progress, Reply::Message(Err(down()))),
        Next::Done(Err(IngestError::SkiplinkStorage(StoreError::Backend(_))))
    ));

    let (progress, _) = ask(begin(&feed[0].0, &feed[0].1));
    let (progress, _) = ask(advance(progress, Reply::Author(Ok(1))));
    assert!(matches!(
        advance(progress, Reply::Inserted(Err(down()))),
        Next::Done(Err(IngestError::Commit(StoreError::Backend(_))))
    ));
}

#[test]
fn an_answer_to_another_question_ends_the_submission() {
    let keys = keypair(21);
    let feed = chain(&keys, 0, 2);
    let (progress, _) = ask(begin(&feed[1].0, &feed[1].1));
    assert!(matches!(
        advance(progress, Reply::Inserted(Ok(1))),
        Next::Done(Err(IngestError::UnexpectedReply))
    ));
    let (progress, _) = ask(begin(&feed[1].0, &feed[1].1));
    let (progress, _) = ask(advance(progress, Reply::Author(Ok(1))));
    assert!(matches!(
        advance(progress, Reply::Author(Ok(1))),
        Next::Done(Err(IngestError::UnexpectedReply))
    ));
}

#[test]
fn the_store_answers_each_question() {
    let mut store = Store::new();
    let who = Request::UpsertAuthor { identity: "ab".to_string() };
    assert!(matches!(perform(&mut store, &who), Reply::Author(Ok(1))));
    assert!(matches!(perform(&mut store, &who), Reply::Author(Ok(1))));
    let write = Request::InsertMessage {
        seq: 1,
        author_id: 1,
        feed_id: 2,
        entry: "aa".to_string(),
        payload: "bb".to_string(),
    };
    assert!(matches!(perform(&mut store, &write), Reply::Inserted(Ok(1))));
    assert!(matches!(perform(&mut store, &write), Reply::Inserted(Ok(0))));
    match perform(&mut store, &Request::GetMessage { author_id: 1, seq: 1, feed_id: 2 }) {
        Reply::Message(Ok(Some(row))) => {
            assert_eq!(row.entry, "aa");
            assert_eq!(row.payload, Some("bb".to_string()));
        }
        other => panic!("{:?}", other),
    }
    assert!(matches!(
        perform(&mut store, &Request::GetMessage { author_id: 1, seq: 2, feed_id: 2 }),
        Reply::Message(Ok(None))
    ));
}

#[test]
fn questions_about_what_is_not_there() {
    let keys = keypair(22);
    let feed = chain(&keys, 0, 1);
    let mut store = Store::new();
    feeds_post(&mut store, &feed[0].0, &feed[0].1).unwrap();
    assert_eq!(feeds(&store).unwrap(), vec![identity(&keys)]);
    assert!(matches!(
        feeds_key_feed_id(&store, "00", 0),
        Err(QueryError::Author(StoreError::NotFound))
    ));
    assert!(matches!(
        feeds_key_feed_id_seq(&store, "00", 0, 1),
        Err(QueryError::Author(StoreError::NotFound))
    ));
    assert!(matches!(
        feeds_key_feed_id_seq(&store, &identity(&keys), 0, 2),
        Err(QueryError::NoEntry)
    ));
    assert!(matches!(
        feeds_key_feed_id_seq(&store, &identity(&keys), 1, 1),
        Err(QueryError::NoEntry)
    ));
    assert!(feeds_key_feed_id(&store, &identity(&keys), 1).unwrap().is_empty());
}

#[test]
fn a_stored_row_that_cannot_be_shown() {
    let keys = keypair(23);
    let feed = chain(&keys, 0, 1);
    assert!(matches!(
        present(&stored(1, 0, 1, "0")),
        Err(QueryError::StoredHex(HexError::OddLength))
    ));
    match present(&stored(1, 0, 1, "00")) {
        Err(QueryError::StoredDecode(reason)) => {
            assert_eq!(reason, "Could not decode author public key from bytes")
        }
        other => panic!("{:?}", other),
    }
    let good = stored(1, 0, 1, &feed[0].0);
    let shown = present(&good).unwrap();
    assert_eq!(shown.decoded.seq_num, 1);
    assert_eq!(shown.encoded, feed[0].0);
    assert_eq!(shown.payload, None);

    // The first row that cannot be shown decides.
    let rows = vec![stored(1, 0, 1, &feed[0].0), stored(1, 0, 2, "0"), stored(1, 0, 3, "zz")];
    assert!(matches!(present_all(&rows), Err(QueryError::StoredHex(HexError::OddLength))));
    let shown = present_all(&vec![stored(1, 0, 1, &feed[0].0), stored(1, 0, 2, &feed[0].0)]).unwrap();
    assert_eq!(shown.len(), 2);
    assert_eq!(shown[1].decoded.seq_num, 1);
    assert!(present_all(&Vec::new()).unwrap().is_empty());
}

#[test]
fn an_entry_numbered_zero_is_rejected_whatever_the_codec_says() {
    let next = enter("00", "", vec![0], vec![], Ok(decoded(0, 0, &[1, 2])));
    assert!(matches!(next, Next::Done(Err(IngestError::SequenceZero))));
}

#[test]
fn the_codec_account_of_a_malformed_entry_is_handed_on_unchanged() {
    let next = enter("00", "", vec![0], vec![], Err("no entry".to_string()));
    match next {
        Next::Done(Err(IngestError::EntryDecode(reason))) => assert_eq!(reason, "no entry"),
        other => panic!("{:?}", other),
    }
}

#[test]
fn the_author_is_asked_for_by_the_lower_case_text_of_the_key() {
    let next = enter("00", "", vec![0], vec![], Ok(decoded(0, 1, &[0x00, 0x0a, 0xb1, 0xff])));
    match ask(next).1 {
        Request::UpsertAuthor { identity } => assert_eq!(identity, "000ab1ff"),
        other => panic!("{:?}", other),
    }
}

#[test]
fn the_verdict_decides_whether_the_entry_is_written() {
    let begun = || ask(enter("0a", "0b", vec![10], vec![11], Ok(decoded(6, 3, &[1])))).0;
    match begun().conclude(4, Err("refused".to_string())) {
        Next::Done(Err(IngestError::Verification(reason))) => assert_eq!(reason, "refused"),
        other => panic!("{:?}", other),
    }
    let (progress, request) = ask(begun().conclude(4, Ok(())));
    match request {
        Request::InsertMessage { seq, author_id, feed_id, entry, payload } => {
            assert_eq!((seq, author_id, feed_id), (3, 4, 6));
            assert_eq!(entry, "0a");
            assert_eq!(payload, "0b");
        }
        other => panic!("{:?}", other),
    }
    match advance(progress, Reply::Inserted(Ok(1))) {
        Next::Done(Ok(accepted)) => {
            assert_eq!(accepted.entry, "0a");
            assert_eq!(accepted.payload, "0b");
            assert_eq!(accepted.decoded.seq_num, 3);
            assert_eq!(accepted.decoded.log_id, 6);
            assert_eq!(accepted.decoded.sig, Some(vec![9; 64]));
        }
        other => panic!("{:?}", other),
    }
}

#[test]
fn the_backlink_is_asked_for_before_the_skiplink() {
    let progress = ask(enter("0a", "0b", vec![10], vec![11], Ok(decoded(6, 9, &[1])))).0;
    let (progress, request) = ask(progress.ask_for_backlink(4, 5));
    assert!(matches!(request, Request::GetMessage { author_id: 4, seq: 8, feed_id: 6 }));
    let (_, request) = ask(advance(progress, Reply::Message(Ok(Some(stored(4, 6, 8, "00"))))));
    assert!(matches!(request, Request::GetMessage { author_id: 4, seq: 5, feed_id: 6 }));
    let progress = ask(enter("0a", "0b", vec![10], vec![11], Ok(decoded(6, 9, &[1])))).0;
    let (progress, _) = ask(progress.ask_for_backlink(4, 5));
    assert!(matches!(
        advance(progress, Reply::Message(Ok(None))),
        Next::Done(Err(IngestError::MissingBacklink))
    ));
}

#[test]
fn a_row_is_shown_with_what_the_codec_made_of_it() {
    let row = Message {
        seq: 2,
        author_id: 1,
        feed_id: 0,
        entry: "0a".to_string(),
        payload: Some("0b".to_string()),
    };
    let shown = present_decoded(&row, Ok(decoded(0, 2, &[1]))).unwrap();
    assert_eq!(shown.encoded, "0a");
    assert_eq!(shown.payload, Some("0b".to_string()));
    assert_eq!(shown.decoded.seq_num, 2);
    assert_eq!(shown.decoded.author, vec![1]);
    match present_decoded(&row, Err("garbled".to_string())) {
        Err(QueryError::StoredDecode(reason)) => assert_eq!(reason, "garbled"),
        other => panic!("{:?}", other),
    }
}

#[test]
fn the_feeds_of_an_author_who_is_not_known_are_not_listed() {
    let store = Store::new();
    assert!(matches!(
        feeds_key(&store, "00"),
        Err(QueryError::Author(StoreError::NotFound))
    ));
    assert!(matches!(feeds_key(&store, ""), Err(QueryError::Author(StoreError::NotFound))));
}

#[test]
fn a_known_author_without_entries_has_an_empty_list_of_feeds() {
    let keys = keypair(24);
    let feed = chain(&keys, 0, 1);
    let mut store = Store::new();
    // The verifier refuses the entry; the author was registered before it was asked.
    assert!(feeds_post(&mut store, &feed[0].0, &hex::encode(b"not the payload")).is_err());
    assert_eq!(feeds_key(&store, &identity(&keys)).unwrap(), Vec::<u64>::new());
    feeds_post(&mut store, &feed[0].0, &feed[0].1).unwrap();
    assert_eq!(feeds_key(&store, &identity(&keys)).unwrap(), vec![0]);
}

#[test]
fn what_was_read_once_is_read_again_after_later_submissions() {
    let keys = keypair(25);
    let other = keypair(26);
    let feed = chain(&keys, 2, 3);
    let mut store = Store::new();
    feeds_post(&mut store, &feed[0].0, &feed[0].1).unwrap();
    let author = get_author(&store, &identity(&keys)).unwrap();
    let before = feeds_key_feed_id_seq(&store, &identity(&keys), 2, 1).unwrap();
    feeds_post(&mut store, &feed[1].0, &feed[1].1).unwrap();
    feeds_post(&mut store, &chain(&other, 2, 1)[0].0, &chain(&other, 2, 1)[0].1).unwrap();
    assert!(feeds_post(&mut store, "zz", "").is_err());
    assert!(feeds_post(&mut store, &feed[2].0, "00").is_err());
    let after = feeds_key_feed_id_seq(&store, &identity(&keys), 2, 1).unwrap();
    assert_eq!(after.encoded, before.encoded);
    assert_eq!(after.payload, before.payload);
    assert_eq!(after.decoded.seq_num, before.decoded.seq_num);
    assert_eq!(after.decoded.sig, before.decoded.sig);
    assert_eq!(get_author(&store, &identity(&keys)).unwrap(), author);
    assert_eq!(feeds_key_feed_id(&store, &identity(&keys), 2).unwrap().len(), 2);
}
