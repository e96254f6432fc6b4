//! Blobs.

use bytes::Bytes;
use vstd::prelude::*;

use crate::sharded::bytes_model::contents;

verus! {

/// The bytes of a blob.
#[derive(Debug)]
pub struct BlobstoreBytes(pub Bytes);

impl View for BlobstoreBytes {
    type V = Seq<u8>;

    open spec fn view(&self) -> Seq<u8> {
        contents(self.0)
    }
}

impl Clone for BlobstoreBytes {
    fn clone(&self) -> (copy: Self)
        ensures
            copy@ == self@,
    {
        BlobstoreBytes(self.0.clone())
    }
}

/// What a blobstore knows of a blob besides its bytes.
#[derive(Clone, Copy, Debug, PartialEq, Eq, Structural)]
pub struct BlobstoreMetadata {
    pub ctime: Option<i64>,
}

impl BlobstoreMetadata {
    pub fn new(ctime: Option<i64>) -> (meta: BlobstoreMetadata)
        ensures
            meta.ctime == ctime,
    {
        BlobstoreMetadata { ctime }
    }
}

/// What reading a blob gives.
#[derive(Debug)]
pub struct BlobstoreGetData {
    pub meta: BlobstoreMetadata,
    pub bytes: BlobstoreBytes,
}

/// The model of a [`BlobstoreGetData`].
pub struct Blob {
    pub meta: BlobstoreMetadata,
    pub bytes: Seq<u8>,
}

impl View for BlobstoreGetData {
    type V = Blob;

    open spec fn view(&self) -> Blob {
        Blob { meta: self.meta, bytes: self.bytes@ }
    }
}

impl Clone for BlobstoreGetData {
    fn clone(&self) -> (copy: Self)
        ensures
            copy@ == self@,
    {
        BlobstoreGetData { meta: self.meta, bytes: self.bytes.clone() }
    }
}

impl BlobstoreGetData {
    pub fn new(meta: BlobstoreMetadata, bytes: BlobstoreBytes) -> (data: BlobstoreGetData)
        ensures
            data.meta == meta,
            data.bytes == bytes,
    {
        BlobstoreGetData { meta, bytes }
    }

    pub fn as_bytes(&self) -> (bytes: &BlobstoreBytes)
        ensures
            *bytes == self.bytes,
    {
        &self.bytes
    }
}

/// The model of a blob holds its metadata and the bytes of its buffer.
pub proof fn a_blob_is_modelled_as_it_is(data: BlobstoreGetData)
    ensures
        data@.meta.ctime == data.meta.ctime,
        data@.bytes == contents(data.bytes.0),
{
}

} // verus!
