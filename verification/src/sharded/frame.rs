//! What stands in the cache under a key: one byte that says of which kind the entry
//! is, and behind it the encoded blob, if it was stored.

use bytes::buf::ext::Chain;
use bytes::Bytes;
use vstd::prelude::*;

use crate::sharded::bytes_model::{as_slice, chain, chain_contents, contents};
use crate::sharded::data::BlobstoreGetData;

verus! {

/// 4MiB, minus a little space for the prefix and the key.
pub const MAX_CACHELIB_VALUE_SIZE: u64 = 4 * 1024 * 1024 - 1024;

/// The prefix of an entry for a blob that cannot be stored.
pub const NOT_STORABLE: u8 = 0;

/// The prefix of an entry that holds an encoded blob.
pub const STORED: u8 = 1;

/// What an entry says.
pub enum FrameModel {
    NotStorable,
    Stored(Seq<u8>),
    Invalid,
}

/// What the entry with these bytes says.
pub open spec fn frame_of(entry: Seq<u8>) -> FrameModel {
    if entry[0] == NOT_STORABLE {
        FrameModel::NotStorable
    } else if entry[0] == STORED {
        FrameModel::Stored(entry.skip(1))
    } else {
        FrameModel::Invalid
    }
}

/// The bytes of the entry for an encoded blob.
pub open spec fn stored_entry(encoded: Seq<u8>) -> Seq<u8> {
    seq![STORED] + encoded
}

/// The bytes of the entry for a blob that cannot be stored.
pub open spec fn not_storable_entry() -> Seq<u8> {
    seq![NOT_STORABLE]
}

/// An entry as it is handed to the cache.
pub enum Entry {
    Stored(Chain<Bytes, Bytes>),
    NotStorable(Bytes),
}

impl View for Entry {
    type V = Seq<u8>;

    open spec fn view(&self) -> Seq<u8> {
        match self {
            Entry::Stored(chained) => chain_contents(*chained),
            Entry::NotStorable(bytes) => contents(*bytes),
        }
    }
}

impl Entry {
    /// The entry for an encoded blob.
    pub fn stored(encoded: Bytes) -> (entry: Entry)
        ensures
            entry is Stored,
            entry@ == stored_entry(contents(encoded)),
    {
        let prefix = Bytes::from_static(&[STORED]);
        Entry::Stored(chain(prefix, encoded))
    }

    /// The entry for a blob that cannot be stored.
    pub fn not_storable() -> (entry: Entry)
        ensures
            entry is NotStorable,
            entry@ == not_storable_entry(),
    {
        Entry::NotStorable(Bytes::from_static(&[NOT_STORABLE]))
    }
}

/// What marks a key as present: its entry in the presence pool.
pub open spec fn presence_entry() -> Seq<u8> {
    seq![80u8]
}

/// The entry that marks a key as present.
pub fn presence_marker() -> (marker: Bytes)
    ensures
        contents(marker) == presence_entry(),
{
    Bytes::from_static(&[80u8])
}

/// What an entry says, with the encoded blob, if it holds one.
#[derive(Debug)]
pub enum Frame {
    NotStorable,
    Stored(Bytes),
}

/// Why an entry of the cache is of no use.
#[derive(Debug)]
pub enum CacheError<E> {
    /// The cache itself failed.
    Pool(E),
    CouldNotDecode,
    InvalidPrefix,
}

impl<E> CacheError<E> {
    /// What the error says, unless it is that of the cache itself.
    pub fn message(&self) -> (message: Option<&'static str>)
        ensures
            match self {
                CacheError::Pool(_) => message is None,
                CacheError::CouldNotDecode => message matches Some(text) && text@
                    == "Could not decode"@,
                CacheError::InvalidPrefix => message matches Some(text) && text@
                    == "Invalid prefix"@,
            },
    {
        match self {
            CacheError::Pool(_) => None,
            CacheError::CouldNotDecode => Some("Could not decode"),
            CacheError::InvalidPrefix => Some("Invalid prefix"),
        }
    }
}

/// Takes an entry of the cache apart: none when its first byte is no known prefix.
pub fn read_frame(entry: Bytes) -> (frame: Option<Frame>)
    requires
        contents(entry).len() > 0,
    ensures
        match frame_of(contents(entry)) {
            FrameModel::NotStorable => frame == Some(Frame::NotStorable),
            FrameModel::Stored(encoded) => frame matches Some(Frame::Stored(bytes)) && contents(
                bytes,
            ) == encoded,
            FrameModel::Invalid => frame is None,
        },
{
    let mut rest = entry;
    let prefix = rest.split_to(1);
    let kind: u8 = as_slice(&prefix)[0];
    if kind == NOT_STORABLE {
        Some(Frame::NotStorable)
    } else if kind == STORED {
        Some(Frame::Stored(rest))
    } else {
        None
    }
}

/// What is known of a blob from the cache.
#[derive(Debug)]
pub enum CacheData {
    /// The blob was found in the cache.
    Stored(BlobstoreGetData),
    /// The blob is known not to fit in the cache. Access to it is not serialized.
    NotStorable,
}

/// What the cache says of a blob whose entry was decoded, or was not.
pub fn decoded<E>(outcome: Result<BlobstoreGetData, ()>) -> (data: Result<
    Option<CacheData>,
    CacheError<E>,
>)
    ensures
        data == match outcome {
            Ok(blob) => Ok::<Option<CacheData>, CacheError<E>>(Some(CacheData::Stored(blob))),
            Err(_) => Err(CacheError::CouldNotDecode),
        },
{
    match outcome {
        Ok(blob) => Ok(Some(CacheData::Stored(blob))),
        Err(_) => Err(CacheError::CouldNotDecode),
    }
}

/// `data` is what `decode` may lead to when it is handed the encoded blob.
pub open spec fn decodes_to<E, D: Fn(Bytes) -> Result<BlobstoreGetData, ()>>(
    decode: D,
    encoded: Seq<u8>,
    data: Result<Option<CacheData>, CacheError<E>>,
) -> bool {
    exists|bytes: Bytes, outcome: Result<BlobstoreGetData, ()>| #[trigger]
        call_ensures(decode, (bytes,), outcome) && contents(bytes) == encoded && data
            == match outcome {
            Ok(blob) => Ok::<Option<CacheData>, CacheError<E>>(Some(CacheData::Stored(blob))),
            Err(_) => Err(CacheError::CouldNotDecode),
        }
}

/// What the cache says of a blob, given what the pool returned for its cache key.
/// `decode` is handed the encoded blob of an entry that holds one.
pub fn get_from_cache<E, D: Fn(Bytes) -> Result<BlobstoreGetData, ()>>(
    reply: Result<Option<Bytes>, E>,
    decode: D,
) -> (data: Result<Option<CacheData>, CacheError<E>>)
    requires
        reply matches Ok(Some(entry)) ==> contents(entry).len() > 0,
        forall|bytes: Bytes| #[trigger] call_requires(decode, (bytes,)),
    ensures
        match reply {
            Err(error) => data == Err::<Option<CacheData>, _>(CacheError::Pool(error)),
            Ok(None) => data == Ok::<Option<CacheData>, CacheError<E>>(None),
            Ok(Some(entry)) => match frame_of(contents(entry)) {
                FrameModel::NotStorable => data == Ok::<_, CacheError<E>>(
                    Some(CacheData::NotStorable),
                ),
                FrameModel::Stored(encoded) => decodes_to(decode, encoded, data),
                FrameModel::Invalid => data == Err::<Option<CacheData>, CacheError<E>>(
                    CacheError::InvalidPrefix,
                ),
            },
        },
{
    let entry = match reply {
        Ok(Some(entry)) => entry,
        Ok(None) => {
            return Ok(None);
        },
        Err(error) => {
            return Err(CacheError::Pool(error));
        },
    };
    match read_frame(entry) {
        Some(Frame::NotStorable) => Ok(Some(CacheData::NotStorable)),
        Some(Frame::Stored(bytes)) => {
            let outcome = decode(bytes);
            assert(call_ensures(decode, (bytes,), outcome));
            decoded(outcome)
        },
        None => Err(CacheError::InvalidPrefix),
    }
}

/// Whether the blob is known to be present, given what the presence pool returned for
/// its cache key.
pub fn known_to_be_present_in_blobstore<E>(reply: Result<Option<Bytes>, E>) -> (known: Result<
    bool,
    E,
>)
    ensures
        known == match reply {
            Ok(entry) => Ok::<bool, E>(entry is Some),
            Err(error) => Err(error),
        },
{
    match reply {
        Ok(Some(_)) => Ok(true),
        Ok(None) => Ok(false),
        Err(error) => Err(error),
    }
}

/// The entry of an encoded blob gives back that blob, and is never taken for that of a
/// blob that cannot be stored.
pub proof fn a_stored_entry_gives_back_the_blob(encoded: Seq<u8>)
    ensures
        frame_of(stored_entry(encoded)) == FrameModel::Stored(encoded),
        frame_of(not_storable_entry()) == FrameModel::NotStorable,
{
    assert(stored_entry(encoded).skip(1) =~= encoded);
}

/// The first byte of an entry tells its kind, whatever follows: a one stands before an
/// encoded blob, which is all that follows, and a zero says that the blob cannot be
/// stored. Any other byte is no kind.
pub proof fn the_first_byte_tells_the_kind(first: u8, rest: Seq<u8>)
    ensures
        stored_entry(rest) == seq![1u8] + rest,
        not_storable_entry() == seq![0u8],
        presence_entry() == seq![80u8],
        frame_of(seq![1u8] + rest) == FrameModel::Stored(rest),
        frame_of(seq![0u8] + rest) == FrameModel::NotStorable,
        first > 1 ==> frame_of(seq![first] + rest) == FrameModel::Invalid,
{
    assert((seq![1u8] + rest).skip(1) =~= rest);
}

/// What the cache says of an entry with an encoded blob comes of handing `decode` that
/// encoded blob and nothing else: the blob where it is decoded, and an error, never a
/// miss, where it is not.
pub proof fn a_stored_blob_is_decoded<E, D: Fn(Bytes) -> Result<BlobstoreGetData, ()>>(
    decode: D,
    encoded: Seq<u8>,
    data: Result<Option<CacheData>, CacheError<E>>,
) -> (call: (Bytes, Result<BlobstoreGetData, ()>))
    requires
        decodes_to(decode, encoded, data),
    ensures
        call_ensures(decode, (call.0,), call.1),
        contents(call.0) == encoded,
        call.1 matches Ok(blob) ==> data == Ok::<_, CacheError<E>>(Some(CacheData::Stored(blob))),
        call.1 is Err ==> data == Err::<Option<CacheData>, _>(CacheError::<E>::CouldNotDecode),
{
    choose|bytes: Bytes, outcome: Result<BlobstoreGetData, ()>| #[trigger]
        call_ensures(decode, (bytes,), outcome) && contents(bytes) == encoded && data
            == match outcome {
            Ok(blob) => Ok::<Option<CacheData>, CacheError<E>>(Some(CacheData::Stored(blob))),
            Err(_) => Err(CacheError::CouldNotDecode),
        }
}

} // verus!
