//! The boundary to `bamboo_rs_core`: decoding an entry's envelope, the
//! leaping index of a sequence number, and the verification of an entry
//! against its payload and its two ancestors.
//!
//! None of the three is computed here. Each call is made by a small trusted
//! function, and what it returns is given a name so that the rest of the
//! library can say exactly what it does with it.

use vstd::prelude::*;

verus! {

/// A decoded entry: the fields of its envelope, hashes and signature as bytes.
#[derive(Debug)]
pub struct DecodedEntry {
    /// The feed, among those of the author, that the entry belongs to.
    pub log_id: u64,
    /// Whether the entry closes its feed.
    pub is_end_of_feed: bool,
    /// The hash of the payload that the entry was signed over.
    pub payload_hash: Vec<u8>,
    /// The length of that payload.
    pub payload_size: u64,
    /// The author's public key.
    pub author: Vec<u8>,
    /// The entry's place in its feed; the first entry has number 1.
    pub seq_num: u64,
    /// The hash of the entry before this one; the first entry has none.
    pub backlink: Option<Vec<u8>>,
    /// The hash of the entry that the skiplink points to, where the entry
    /// carries one.
    pub lipmaa_link: Option<Vec<u8>>,
    /// The author's signature.
    pub sig: Option<Vec<u8>>,
}

/// The mathematical value of a `DecodedEntry`.
pub struct EntryHeader {
    pub log_id: u64,
    pub is_end_of_feed: bool,
    pub payload_hash: Seq<u8>,
    pub payload_size: u64,
    pub author: Seq<u8>,
    pub seq_num: u64,
    pub backlink: Option<Seq<u8>>,
    pub lipmaa_link: Option<Seq<u8>>,
    pub sig: Option<Seq<u8>>,
}

/// The mathematical value of a byte string that may be absent.
pub open spec fn bytes_of(bytes: Option<Vec<u8>>) -> Option<Seq<u8>> {
    match bytes {
        Some(b) => Some(b@),
        None => None,
    }
}

impl View for DecodedEntry {
    type V = EntryHeader;

    open spec fn view(&self) -> EntryHeader {
        EntryHeader {
            log_id: self.log_id,
            is_end_of_feed: self.is_end_of_feed,
            payload_hash: self.payload_hash@,
            payload_size: self.payload_size,
            author: self.author@,
            seq_num: self.seq_num,
            backlink: bytes_of(self.backlink),
            lipmaa_link: bytes_of(self.lipmaa_link),
            sig: bytes_of(self.sig),
        }
    }
}

/// What `bamboo_rs_core::decode` makes of the bytes of an entry: the header, or
/// the codec's account of what is malformed.
pub uninterp spec fn entry_decoding(bytes: Seq<u8>) -> Result<EntryHeader, Seq<char>>;

/// What `bamboo_rs_core::lipmaa` returns: the sequence number of the entry
/// that the skiplink of entry `seq_num` points to.
pub uninterp spec fn leaping_index(seq_num: u64) -> u64;

/// What `bamboo_rs_core::verify` finds of an entry, given its payload and
/// the encoded entries that its skiplink and its backlink point to: agreement,
/// or the verifier's account of what does not hold.
pub uninterp spec fn verification(
    entry: Seq<u8>,
    payload: Option<Seq<u8>>,
    skiplink: Option<Seq<u8>>,
    backlink: Option<Seq<u8>>,
) -> Result<(), Seq<char>>;

/// What decoding returned, as a mathematical value.
pub open spec fn decoding_of(r: Result<DecodedEntry, String>) -> Result<EntryHeader, Seq<char>> {
    match r {
        Ok(entry) => Ok(entry@),
        Err(reason) => Err(reason@),
    }
}

/// What verification returned, as a mathematical value.
pub open spec fn verdict_of(r: Result<(), String>) -> Result<(), Seq<char>> {
    match r {
        Ok(()) => Ok(()),
        Err(reason) => Err(reason@),
    }
}

/// Calls `bamboo_rs_core::decode`. Trusted: the result is a function of the
/// bytes alone, here named `entry_decoding`. The fields are handed on one for
/// one, each hash and the signature as its bytes; a failure is handed on as
/// the text that the codec's error displays. The codec refuses an entry
/// numbered zero, so a decoded entry has a number of at least 1.
#[verifier::external_body]
pub(crate) fn decode_entry(bytes: &[u8]) -> (r: Result<DecodedEntry, String>)
    ensures
        decoding_of(r) == entry_decoding(bytes@),
        r matches Ok(entry) ==> entry.seq_num >= 1,
{
    let entry = bamboo_rs_core::decode(bytes).map_err(|e| e.to_string())?;
    let bamboo_rs_core::YamfHash::Blake2b(payload_hash) = entry.payload_hash;
    Ok(DecodedEntry {
        log_id: entry.log_id,
        is_end_of_feed: entry.is_end_of_feed,
        payload_hash: payload_hash.to_vec(),
        payload_size: entry.payload_size,
        author: entry.author.to_bytes().to_vec(),
        seq_num: entry.seq_num,
        backlink: entry.backlink.map(|bamboo_rs_core::YamfHash::Blake2b(hash)| hash.to_vec()),
        lipmaa_link: entry.lipmaa_link.map(|bamboo_rs_core::YamfHash::Blake2b(hash)| hash.to_vec()),
        sig: entry.sig.map(|signature| signature.0.to_vec()),
    })
}

/// Calls `bamboo_rs_core::lipmaa`. Trusted: the result is a function of the
/// sequence number alone, here named `leaping_index`. Zero is left out: the
/// outside function ends in a subtraction that would go below zero there.
#[verifier::external_body]
pub(crate) fn lipmaa(seq_num: u64) -> (r: u64)
    requires
        seq_num >= 1,
    ensures
        r == leaping_index(seq_num),
{
    bamboo_rs_core::lipmaa(seq_num)
}

/// Calls `bamboo_rs_core::verify`, always with the payload at hand. Trusted:
/// the result is a function of the four byte strings alone, here named
/// `verification`; a failure is handed on as the text that the verifier's
/// error displays. The verifier compares the payload's length with the
/// entry's claim as machine words, so the name stands for its result on
/// words of one width.
#[verifier::external_body]
pub(crate) fn verify(
    entry: &[u8],
    payload: &[u8],
    skiplink: &Option<Vec<u8>>,
    backlink: &Option<Vec<u8>>,
) -> (r: Result<(), String>)
    ensures
        verdict_of(r) == verification(entry@, Some(payload@), bytes_of(*skiplink), bytes_of(*backlink)),
{
    bamboo_rs_core::verify(entry, Some(payload), skiplink.as_deref(), backlink.as_deref()).map_err(
        |e| e.to_string(),
    )
}

} // verus!
