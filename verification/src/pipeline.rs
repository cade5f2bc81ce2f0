//! The admission of one submitted entry, as a sequence of decisions between
//! questions to the storage.
//!
//! `begin` takes the submission and either rejects it or asks the first
//! question; `advance` takes the answer and either ends the submission or asks
//! the next one. Whoever holds the storage answers the questions, in order and
//! without letting another submission in between: the library's own `Store`
//! through `perform`, or a database behind a lock. Nothing is written before
//! the verifier has agreed, and then one row is written, once.

use vstd::prelude::*;
use crate::codec::{
    bytes_of, decode_entry, decoding_of, entry_decoding, leaping_index, lipmaa, verdict_of,
    verification, verify, DecodedEntry, EntryHeader,
};
use crate::hexcode::{decode_hex, encode_hex, hex_decoded, hex_text, HexError};
use crate::models::messages::{Message, MessageView};
use crate::store::StoreError;

verus! {

/// Why a submission was not admitted, by the step that ended it.
#[derive(Debug)]
pub enum IngestError {
    /// The submitted entry is not hexadecimal text.
    EntryHex(HexError),
    /// The submitted payload is not hexadecimal text.
    PayloadHex(HexError),
    /// The entry's envelope is malformed; the codec's account.
    EntryDecode(String),
    /// The entry claims the sequence number zero; feeds count from 1.
    SequenceZero,
    /// The author could not be looked up or registered.
    AuthorStorage(StoreError),
    /// The lookup of the entry before this one failed.
    BacklinkStorage(StoreError),
    /// The stored entry before this one is not hexadecimal text.
    BacklinkHex(HexError),
    /// The entry before this one is not stored.
    MissingBacklink,
    /// The lookup of the entry that the skiplink points to failed.
    SkiplinkStorage(StoreError),
    /// The stored entry that the skiplink points to is not hexadecimal text.
    SkiplinkHex(HexError),
    /// The entry that the skiplink points to is not stored.
    MissingSkiplink,
    /// The verifier refused the entry; its account, unchanged.
    Verification(String),
    /// The entry could not be written.
    Commit(StoreError),
    /// The answer is to another question than the one that was asked.
    UnexpectedReply,
}

/// The mathematical value of an `IngestError`.
pub enum IngestFailure {
    EntryHex(HexError),
    PayloadHex(HexError),
    EntryDecode(Seq<char>),
    SequenceZero,
    AuthorStorage(StoreError),
    BacklinkStorage(StoreError),
    BacklinkHex(HexError),
    MissingBacklink,
    SkiplinkStorage(StoreError),
    SkiplinkHex(HexError),
    MissingSkiplink,
    Verification(Seq<char>),
    Commit(StoreError),
    UnexpectedReply,
}

impl View for IngestError {
    type V = IngestFailure;

    open spec fn view(&self) -> IngestFailure {
        match *self {
            IngestError::EntryHex(e) => IngestFailure::EntryHex(e),
            IngestError::PayloadHex(e) => IngestFailure::PayloadHex(e),
            IngestError::EntryDecode(reason) => IngestFailure::EntryDecode(reason@),
            IngestError::SequenceZero => IngestFailure::SequenceZero,
            IngestError::AuthorStorage(e) => IngestFailure::AuthorStorage(e),
            IngestError::BacklinkStorage(e) => IngestFailure::BacklinkStorage(e),
            IngestError::BacklinkHex(e) => IngestFailure::BacklinkHex(e),
            IngestError::MissingBacklink => IngestFailure::MissingBacklink,
            IngestError::SkiplinkStorage(e) => IngestFailure::SkiplinkStorage(e),
            IngestError::SkiplinkHex(e) => IngestFailure::SkiplinkHex(e),
            IngestError::MissingSkiplink => IngestFailure::MissingSkiplink,
            IngestError::Verification(reason) => IngestFailure::Verification(reason@),
            IngestError::Commit(e) => IngestFailure::Commit(e),
            IngestError::UnexpectedReply => IngestFailure::UnexpectedReply,
        }
    }
}

/// An admitted entry, as it is handed back to the submitter: the two texts as
/// submitted, and the decoded entry.
#[derive(Debug)]
pub struct Accepted {
    pub entry: String,
    pub payload: String,
    pub decoded: DecodedEntry,
}

/// The mathematical value of an `Accepted`.
pub struct AcceptedView {
    pub entry: Seq<char>,
    pub payload: Seq<char>,
    pub decoded: EntryHeader,
}

impl View for Accepted {
    type V = AcceptedView;

    open spec fn view(&self) -> AcceptedView {
        AcceptedView { entry: self.entry@, payload: self.payload@, decoded: self.decoded@ }
    }
}

/// How a submission ended, as a mathematical value.
pub open spec fn outcome_of(r: Result<Accepted, IngestError>) -> Result<AcceptedView, IngestFailure> {
    match r {
        Ok(accepted) => Ok(accepted@),
        Err(e) => Err(e@),
    }
}

/// A submission that was read: the texts as submitted, the bytes they stand
/// for, and the decoded entry.
#[derive(Debug)]
pub struct Candidate {
    pub(crate) encoded_entry: String,
    pub(crate) encoded_payload: String,
    pub(crate) entry_bytes: Vec<u8>,
    pub(crate) payload_bytes: Vec<u8>,
    pub(crate) decoded: DecodedEntry,
}

impl Candidate {
    /// A candidate's sequence number is at least 1.
    #[verifier::type_invariant]
    spec fn numbered(self) -> bool {
        self.decoded.seq_num >= 1
    }
}

/// The mathematical value of a `Candidate`.
pub struct CandidateView {
    pub entry_text: Seq<char>,
    pub payload_text: Seq<char>,
    pub entry: Seq<u8>,
    pub payload: Seq<u8>,
    pub header: EntryHeader,
}

impl View for Candidate {
    type V = CandidateView;

    open(crate) spec fn view(&self) -> CandidateView {
        CandidateView {
            entry_text: self.encoded_entry@,
            payload_text: self.encoded_payload@,
            entry: self.entry_bytes@,
            payload: self.payload_bytes@,
            header: self.decoded@,
        }
    }
}

impl CandidateView {
    /// The row that admits the candidate under the given author.
    pub open spec fn row(self, author_id: i32) -> MessageView {
        MessageView {
            seq: self.header.seq_num,
            author_id,
            feed_id: self.header.log_id,
            entry: self.entry_text,
            payload: Some(self.payload_text),
        }
    }

    /// What the submitter hears when the candidate is admitted.
    pub open spec fn accepted(self) -> AcceptedView {
        AcceptedView { entry: self.entry_text, payload: self.payload_text, decoded: self.header }
    }
}

/// The question that a submission waits on.
#[derive(Debug)]
pub enum Stage {
    /// Who the author is.
    Author,
    /// What is stored just before the entry; the place that the skiplink
    /// points to is kept for the next question.
    Backlink { author_id: i32, skiplink_seq: u64 },
    /// What is stored where the skiplink points to; the entry before this one
    /// is at hand.
    Skiplink { author_id: i32, backlink: Vec<u8> },
    /// Whether the entry was written.
    Commit { author_id: i32 },
}

/// The mathematical value of a `Stage`.
pub enum StageView {
    Author,
    Backlink { author_id: i32, skiplink_seq: u64 },
    Skiplink { author_id: i32, backlink: Seq<u8> },
    Commit { author_id: i32 },
}

impl View for Stage {
    type V = StageView;

    open spec fn view(&self) -> StageView {
        match *self {
            Stage::Author => StageView::Author,
            Stage::Backlink { author_id, skiplink_seq } => StageView::Backlink {
                author_id,
                skiplink_seq,
            },
            Stage::Skiplink { author_id, backlink } => StageView::Skiplink {
                author_id,
                backlink: backlink@,
            },
            Stage::Commit { author_id } => StageView::Commit { author_id },
        }
    }
}

/// A submission between two questions.
#[derive(Debug)]
pub struct Progress {
    pub(crate) candidate: Candidate,
    pub(crate) stage: Stage,
}

/// The mathematical value of a `Progress`.
pub struct ProgressView {
    pub candidate: CandidateView,
    pub stage: StageView,
}

impl View for Progress {
    type V = ProgressView;

    open(crate) spec fn view(&self) -> ProgressView {
        ProgressView { candidate: self.candidate@, stage: self.stage@ }
    }
}

/// A question to the storage.
#[derive(Debug)]
pub enum Request {
    /// Look the author up by the hexadecimal text of the public key, and
    /// register the author if unknown.
    UpsertAuthor { identity: String },
    /// Fetch the entry at the given place, if one is stored there.
    GetMessage { author_id: i32, seq: u64, feed_id: u64 },
    /// Append the entry, unless one is stored at its place.
    InsertMessage { seq: u64, author_id: i32, feed_id: u64, entry: String, payload: String },
}

/// The mathematical value of a `Request`.
pub enum RequestView {
    UpsertAuthor { identity: Seq<char> },
    GetMessage { author_id: i32, seq: u64, feed_id: u64 },
    InsertMessage { row: MessageView },
}

impl View for Request {
    type V = RequestView;

    open spec fn view(&self) -> RequestView {
        match *self {
            Request::UpsertAuthor { identity } => RequestView::UpsertAuthor { identity: identity@ },
            Request::GetMessage { author_id, seq, feed_id } => RequestView::GetMessage {
                author_id,
                seq,
                feed_id,
            },
            Request::InsertMessage { seq, author_id, feed_id, entry, payload } => {
                RequestView::InsertMessage {
                    row: MessageView {
                        seq,
                        author_id,
                        feed_id,
                        entry: entry@,
                        payload: Some(payload@),
                    },
                }
            },
        }
    }
}

/// The storage's answer to a question.
#[derive(Debug)]
pub enum Reply {
    /// To `UpsertAuthor`: the author's internal identity.
    Author(Result<i32, StoreError>),
    /// To `GetMessage`: the stored entry, if there is one.
    Message(Result<Option<Message>, StoreError>),
    /// To `InsertMessage`: the number of rows written.
    Inserted(Result<usize, StoreError>),
}

/// The mathematical value of a `Reply`.
pub enum ReplyView {
    Author(Result<i32, StoreError>),
    Message(Result<Option<MessageView>, StoreError>),
    Inserted(Result<usize, StoreError>),
}

impl View for Reply {
    type V = ReplyView;

    open spec fn view(&self) -> ReplyView {
        match *self {
            Reply::Author(r) => ReplyView::Author(r),
            Reply::Message(Ok(Some(row))) => ReplyView::Message(Ok(Some(row@))),
            Reply::Message(Ok(None)) => ReplyView::Message(Ok(None)),
            Reply::Message(Err(e)) => ReplyView::Message(Err(e)),
            Reply::Inserted(r) => ReplyView::Inserted(r),
        }
    }
}

/// What comes next in a submission: a question, with the state to resume
/// from once it is answered, or the end.
#[derive(Debug)]
pub enum Next {
    Ask(Progress, Request),
    Done(Result<Accepted, IngestError>),
}

/// The mathematical value of a `Next`.
pub enum NextView {
    Ask(ProgressView, RequestView),
    Done(Result<AcceptedView, IngestFailure>),
}

impl View for Next {
    type V = NextView;

    open spec fn view(&self) -> NextView {
        match *self {
            Next::Ask(progress, request) => NextView::Ask(progress@, request@),
            Next::Done(r) => NextView::Done(outcome_of(r)),
        }
    }
}

/// A submission whose two texts were read as bytes, given what the codec
/// made of the entry's bytes: it is rejected where the bytes do not decode,
/// or where the entry claims the sequence number zero.
pub open spec fn candidate_from(
    entry_text: Seq<char>,
    payload_text: Seq<char>,
    entry: Seq<u8>,
    payload: Seq<u8>,
    decoded: Result<EntryHeader, Seq<char>>,
) -> Result<CandidateView, IngestFailure> {
    match decoded {
        Err(reason) => Err(IngestFailure::EntryDecode(reason)),
        Ok(header) => if header.seq_num == 0 {
            Err(IngestFailure::SequenceZero)
        } else {
            Ok(CandidateView { entry_text, payload_text, entry, payload, header })
        },
    }
}

/// A submission as read from its two texts: both must be hexadecimal, the
/// entry's bytes must decode, and its sequence number must not be zero. The
/// first of these that fails is the reason of the rejection.
pub open spec fn candidate_of(entry_text: Seq<char>, payload_text: Seq<char>) -> Result<
    CandidateView,
    IngestFailure,
> {
    match hex_decoded(entry_text) {
        Err(e) => Err(IngestFailure::EntryHex(e)),
        Ok(entry) => match hex_decoded(payload_text) {
            Err(e) => Err(IngestFailure::PayloadHex(e)),
            Ok(payload) => candidate_from(
                entry_text,
                payload_text,
                entry,
                payload,
                entry_decoding(entry),
            ),
        },
    }
}

/// The first step of a submission that was read or rejected: the rejection,
/// or the question for the author, who is known by the hexadecimal text of
/// the entry's public key.
pub open spec fn entered(candidate: Result<CandidateView, IngestFailure>) -> NextView {
    match candidate {
        Err(e) => NextView::Done(Err(e)),
        Ok(candidate) => NextView::Ask(
            ProgressView { candidate, stage: StageView::Author },
            RequestView::UpsertAuthor { identity: hex_text(candidate.header.author) },
        ),
    }
}

/// The first step of a submission.
pub open spec fn started(entry_text: Seq<char>, payload_text: Seq<char>) -> NextView {
    entered(candidate_of(entry_text, payload_text))
}

/// The question for the entry before the candidate, with the place that the
/// candidate's skiplink points to kept for the question after it.
pub open spec fn linked(candidate: CandidateView, author_id: i32, skiplink_seq: u64) -> NextView {
    NextView::Ask(
        ProgressView { candidate, stage: StageView::Backlink { author_id, skiplink_seq } },
        RequestView::GetMessage {
            author_id,
            seq: (candidate.header.seq_num - 1) as u64,
            feed_id: candidate.header.log_id,
        },
    )
}

/// The step after the verifier has spoken: its refusal ends the submission,
/// with its account unchanged; its agreement sends the entry to be written.
pub open spec fn concluded(
    candidate: CandidateView,
    author_id: i32,
    verdict: Result<(), Seq<char>>,
) -> NextView {
    match verdict {
        Err(reason) => NextView::Done(Err(IngestFailure::Verification(reason))),
        Ok(()) => NextView::Ask(
            ProgressView { candidate, stage: StageView::Commit { author_id } },
            RequestView::InsertMessage { row: candidate.row(author_id) },
        ),
    }
}

/// The step after the ancestors are at hand: the verifier is asked about the
/// entry, its payload and the two ancestors.
pub open spec fn judged(
    candidate: CandidateView,
    author_id: i32,
    skiplink: Option<Seq<u8>>,
    backlink: Option<Seq<u8>>,
) -> NextView {
    concluded(
        candidate,
        author_id,
        verification(candidate.entry, Some(candidate.payload), skiplink, backlink),
    )
}

/// The step that follows an answer. A failure of the storage ends the
/// submission at once, under the name of the question that failed. The first
/// entry of a feed goes to the verifier without ancestors; any other needs
/// the entry before it and the entry that its skiplink points to, and is
/// rejected where either is not stored.
pub open spec fn advanced(progress: ProgressView, reply: ReplyView) -> NextView {
    let candidate = progress.candidate;
    let header = candidate.header;
    match (progress.stage, reply) {
        (StageView::Author, ReplyView::Author(Err(e))) => NextView::Done(
            Err(IngestFailure::AuthorStorage(e)),
        ),
        (StageView::Author, ReplyView::Author(Ok(author_id))) => if header.seq_num <= 1 {
            judged(candidate, author_id, None, None)
        } else {
            linked(candidate, author_id, leaping_index(header.seq_num))
        },
        (StageView::Backlink { .. }, ReplyView::Message(Err(e))) => NextView::Done(
            Err(IngestFailure::BacklinkStorage(e)),
        ),
        (StageView::Backlink { .. }, ReplyView::Message(Ok(None))) => NextView::Done(
            Err(IngestFailure::MissingBacklink),
        ),
        (StageView::Backlink { author_id, skiplink_seq }, ReplyView::Message(Ok(Some(row)))) => {
            match hex_decoded(row.entry) {
                Err(e) => NextView::Done(Err(IngestFailure::BacklinkHex(e))),
                Ok(backlink) => NextView::Ask(
                    ProgressView { candidate, stage: StageView::Skiplink { author_id, backlink } },
                    RequestView::GetMessage { author_id, seq: skiplink_seq, feed_id: header.log_id },
                ),
            }
        },
        (StageView::Skiplink { .. }, ReplyView::Message(Err(e))) => NextView::Done(
            Err(IngestFailure::SkiplinkStorage(e)),
        ),
        (StageView::Skiplink { .. }, ReplyView::Message(Ok(None))) => NextView::Done(
            Err(IngestFailure::MissingSkiplink),
        ),
        (StageView::Skiplink { author_id, backlink }, ReplyView::Message(Ok(Some(row)))) => {
            match hex_decoded(row.entry) {
                Err(e) => NextView::Done(Err(IngestFailure::SkiplinkHex(e))),
                Ok(skiplink) => judged(candidate, author_id, Some(skiplink), Some(backlink)),
            }
        },
        (StageView::Commit { .. }, ReplyView::Inserted(Err(e))) => NextView::Done(
            Err(IngestFailure::Commit(e)),
        ),
        (StageView::Commit { .. }, ReplyView::Inserted(Ok(_))) => NextView::Done(
            Ok(candidate.accepted()),
        ),
        _ => NextView::Done(Err(IngestFailure::UnexpectedReply)),
    }
}

/// Takes the first step of a submission whose texts were read as the given
/// bytes, given what the codec made of the entry's bytes.
pub fn enter(
    encoded_entry: &str,
    encoded_payload: &str,
    entry_bytes: Vec<u8>,
    payload_bytes: Vec<u8>,
    decoded: Result<DecodedEntry, String>,
) -> (next: Next)
    ensures
        next@ == entered(
            candidate_from(
                encoded_entry@,
                encoded_payload@,
                entry_bytes@,
                payload_bytes@,
                decoding_of(decoded),
            ),
        ),
{
    let decoded = match decoded {
        Ok(decoded) => decoded,
        Err(reason) => {
            return Next::Done(Err(IngestError::EntryDecode(reason)));
        },
    };
    if decoded.seq_num == 0 {
        return Next::Done(Err(IngestError::SequenceZero));
    }
    let identity = encode_hex(decoded.author.as_slice());
    let candidate = Candidate {
        encoded_entry: encoded_entry.to_owned(),
        encoded_payload: encoded_payload.to_owned(),
        entry_bytes,
        payload_bytes,
        decoded,
    };
    Next::Ask(Progress { candidate, stage: Stage::Author }, Request::UpsertAuthor { identity })
}

/// Reads a submission and takes its first step. The codec hands out no
/// entry numbered zero, so no submission ends here for that.
pub fn begin(encoded_entry: &str, encoded_payload: &str) -> (next: Next)
    ensures
        next@ == started(encoded_entry@, encoded_payload@),
        next@ != NextView::Done(Err(IngestFailure::SequenceZero)),
{
    let entry_bytes = match decode_hex(encoded_entry) {
        Ok(bytes) => bytes,
        Err(e) => {
            return Next::Done(Err(IngestError::EntryHex(e)));
        },
    };
    let payload_bytes = match decode_hex(encoded_payload) {
        Ok(bytes) => bytes,
        Err(e) => {
            return Next::Done(Err(IngestError::PayloadHex(e)));
        },
    };
    let decoded = decode_entry(entry_bytes.as_slice());
    enter(encoded_entry, encoded_payload, entry_bytes, payload_bytes, decoded)
}

impl Progress {
    /// Asks for the entry before the candidate, given the place that the
    /// candidate's skiplink points to.
    pub fn ask_for_backlink(self, author_id: i32, skiplink_seq: u64) -> (next: Next)
        ensures
            next@ == linked(self@.candidate, author_id, skiplink_seq),
    {
        let candidate = self.candidate;
        proof {
            use_type_invariant(&candidate);
        }
        let request = Request::GetMessage {
            author_id,
            seq: candidate.decoded.seq_num - 1,
            feed_id: candidate.decoded.log_id,
        };
        Next::Ask(
            Progress { candidate, stage: Stage::Backlink { author_id, skiplink_seq } },
            request,
        )
    }

    /// Takes the step that follows the verifier's verdict.
    pub fn conclude(self, author_id: i32, verdict: Result<(), String>) -> (next: Next)
        ensures
            next@ == concluded(self@.candidate, author_id, verdict_of(verdict)),
    {
        let candidate = self.candidate;
        match verdict {
            Err(reason) => Next::Done(Err(IngestError::Verification(reason))),
            Ok(()) => {
                let request = Request::InsertMessage {
                    seq: candidate.decoded.seq_num,
                    author_id,
                    feed_id: candidate.decoded.log_id,
                    entry: candidate.encoded_entry.clone(),
                    payload: candidate.encoded_payload.clone(),
                };
                Next::Ask(Progress { candidate, stage: Stage::Commit { author_id } }, request)
            },
        }
    }

    /// Asks the verifier about the candidate, with its ancestors at hand, and
    /// takes the step that follows.
    fn judge(self, author_id: i32, skiplink: Option<Vec<u8>>, backlink: Option<Vec<u8>>) -> (next:
        Next)
        ensures
            next@ == judged(self@.candidate, author_id, bytes_of(skiplink), bytes_of(backlink)),
    {
        let verdict = verify(
            self.candidate.entry_bytes.as_slice(),
            self.candidate.payload_bytes.as_slice(),
            &skiplink,
            &backlink,
        );
        self.conclude(author_id, verdict)
    }
}

/// Takes the step that follows the storage's answer.
pub fn advance(progress: Progress, reply: Reply) -> (next: Next)
    ensures
        next@ == advanced(progress@, reply@),
{
    match (&progress.stage, reply) {
        (Stage::Author, Reply::Author(Err(e))) => Next::Done(Err(IngestError::AuthorStorage(e))),
        (Stage::Author, Reply::Author(Ok(author_id))) => {
            let seq: u64 = progress.candidate.decoded.seq_num;
            if seq <= 1 {
                progress.judge(author_id, None, None)
            } else {
                let skiplink_seq: u64 = lipmaa(seq);
                progress.ask_for_backlink(author_id, skiplink_seq)
            }
        },
        (Stage::Backlink { .. }, Reply::Message(Err(e))) => Next::Done(
            Err(IngestError::BacklinkStorage(e)),
        ),
        (Stage::Backlink { .. }, Reply::Message(Ok(None))) => Next::Done(
            Err(IngestError::MissingBacklink),
        ),
        (Stage::Backlink { author_id, skiplink_seq }, Reply::Message(Ok(Some(row)))) => {
            let author_id: i32 = *author_id;
            let skiplink_seq: u64 = *skiplink_seq;
            match decode_hex(row.entry.as_str()) {
                Err(e) => Next::Done(Err(IngestError::BacklinkHex(e))),
                Ok(backlink) => {
                    let candidate = progress.candidate;
                    let request = Request::GetMessage {
                        author_id,
                        seq: skiplink_seq,
                        feed_id: candidate.decoded.log_id,
                    };
                    Next::Ask(
                        Progress { candidate, stage: Stage::Skiplink { author_id, backlink } },
                        request,
                    )
                },
            }
        },
        (Stage::Skiplink { .. }, Reply::Message(Err(e))) => Next::Done(
            Err(IngestError::SkiplinkStorage(e)),
        ),
        (Stage::Skiplink { .. }, Reply::Message(Ok(None))) => Next::Done(
            Err(IngestError::MissingSkiplink),
        ),
        (Stage::Skiplink { author_id, backlink }, Reply::Message(Ok(Some(row)))) => {
            let author_id: i32 = *author_id;
            match decode_hex(row.entry.as_str()) {
                Err(e) => Next::Done(Err(IngestError::SkiplinkHex(e))),
                Ok(skiplink) => {
                    let backlink = backlink.clone();
                    progress.judge(author_id, Some(skiplink), Some(backlink))
                },
            }
        },
        (Stage::Commit { .. }, Reply::Inserted(Err(e))) => Next::Done(Err(IngestError::Commit(e))),
        (Stage::Commit { .. }, Reply::Inserted(Ok(_))) => {
            let candidate = progress.candidate;
            Next::Done(
                Ok(
                    Accepted {
                        entry: candidate.encoded_entry,
                        payload: candidate.encoded_payload,
                        decoded: candidate.decoded,
                    },
                ),
            )
        },
        _ => Next::Done(Err(IngestError::UnexpectedReply)),
    }
}

} // verus!
